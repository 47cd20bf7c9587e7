use amixima::batch::BatchRun;
use amixima::editor::Pane;

#[test]
fn a_run_takes_files_in_order_until_done() {
    let mut run = BatchRun::new(3);
    assert!(run.begins());
    let mut seen = Vec::new();
    while let Some(i) = run.next() {
        seen.push(i);
        run.record(true);
    }
    assert_eq!(seen, vec![0, 1, 2]);
    assert_eq!(run, BatchRun { total: 3, done: 3, failed: false });
    assert_eq!(run.final_pane(), Pane::FileExplorer);
}

#[test]
fn a_failed_file_stops_the_run_on_the_processing_pane() {
    let mut run = BatchRun::new(3);
    assert_eq!(run.next(), Some(0));
    run.record(true);
    assert_eq!(run.next(), Some(1));
    run.record(false);
    assert_eq!(run.next(), None);
    assert_eq!(run.done, 1);
    assert_eq!(run.final_pane(), Pane::Processing);
}

#[test]
fn an_empty_run_does_not_begin() {
    let run = BatchRun::new(0);
    assert!(!run.begins());
    assert_eq!(run.next(), None);
}
