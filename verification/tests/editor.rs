use amixima::editor::{Command, Editor, Key, KeyPress, Pane, SaveFormat};
use amixima::ontology::{EffectKind, EffectNode, Soundcourse};

fn press(key: Key) -> KeyPress {
    KeyPress { key, shift: false, control: false }
}

fn shift(key: Key) -> KeyPress {
    KeyPress { key, shift: true, control: false }
}

fn ch(c: char) -> KeyPress {
    press(Key::Char(c))
}

fn editor_with(nodes: &[EffectKind]) -> Editor {
    let mut soundcourse = Soundcourse::new("Tester");
    for k in nodes {
        soundcourse.sequence.push(EffectNode::with_defaults(*k));
    }
    let mut e = Editor::new(Soundcourse::new("Tester"));
    e.load_soundcourse(soundcourse);
    e
}

fn kinds(e: &Editor) -> Vec<EffectKind> {
    e.soundcourse.sequence.iter().map(|n| n.kind()).collect()
}

#[test]
fn new_editor_starts_on_the_file_list() {
    let e = Editor::new(Soundcourse::new("Tester"));
    assert_eq!(e.focused_pane, Pane::FileExplorer);
    assert!(!e.show_help);
    assert!(!e.has_directory);
    assert_eq!(e.file_selected, None);
    assert_eq!(e.sequence_selected, None);
    assert!(e.soundcourse.sequence.is_empty());
}

#[test]
fn tab_cycles_the_four_panes() {
    let mut e = Editor::new(Soundcourse::new("Tester"));
    let mut seen = Vec::new();
    for _ in 0..4 {
        e.handle_key(press(Key::Tab));
        seen.push(e.focused_pane);
    }
    assert_eq!(
        seen,
        vec![Pane::EffectPalette, Pane::Sequence, Pane::Parameters, Pane::FileExplorer]
    );
}

#[test]
fn tab_then_back_tab_returns_to_the_pane() {
    for start in [Pane::FileExplorer, Pane::EffectPalette, Pane::Sequence, Pane::Parameters] {
        let mut e = Editor::new(Soundcourse::new("Tester"));
        e.set_focus(start);
        e.handle_key(press(Key::Tab));
        e.handle_key(press(Key::BackTab));
        assert_eq!(e.focused_pane, start);
        e.handle_key(press(Key::BackTab));
        e.handle_key(press(Key::Tab));
        assert_eq!(e.focused_pane, start);
    }
}

#[test]
fn palette_enter_adds_default_effect_and_selects_it() {
    let mut e = Editor::new(Soundcourse::new("Tester"));
    e.handle_key(press(Key::Tab));
    // Down selects the first entry (EQ), another Down the reverb.
    e.handle_key(press(Key::Down));
    assert_eq!(e.palette_selected, Some(0));
    e.handle_key(press(Key::Down));
    assert_eq!(e.palette_selected, Some(1));
    let cmd = e.handle_key(press(Key::Enter));
    assert!(matches!(cmd, Command::Nothing));
    assert_eq!(e.soundcourse.sequence.len(), 1);
    assert_eq!(
        e.soundcourse.sequence[0],
        EffectNode::Reverb { room_size: 0.5f32.to_bits(), dry_wet: 0.3f32.to_bits() }
    );
    assert_eq!(e.sequence_selected, Some(0));
}

#[test]
fn palette_wraps_around() {
    let mut e = Editor::new(Soundcourse::new("Tester"));
    e.handle_key(press(Key::Tab));
    e.handle_key(press(Key::Up));
    assert_eq!(e.palette_selected, Some(0));
    e.handle_key(press(Key::Up));
    assert_eq!(e.palette_selected, Some(4));
    e.handle_key(press(Key::Down));
    assert_eq!(e.palette_selected, Some(0));
}

#[test]
fn shift_down_then_shift_up_restores_the_chain() {
    let mut e = editor_with(&[EffectKind::Gain, EffectKind::EQ, EffectKind::Delay]);
    e.set_focus(Pane::Sequence);
    let before = kinds(&e);
    e.handle_key(shift(Key::Down));
    assert_eq!(kinds(&e), vec![EffectKind::EQ, EffectKind::Gain, EffectKind::Delay]);
    assert_eq!(e.sequence_selected, Some(1));
    e.handle_key(shift(Key::Up));
    assert_eq!(kinds(&e), before);
    assert_eq!(e.sequence_selected, Some(0));
}

#[test]
fn shift_down_on_last_effect_changes_nothing() {
    let mut e = editor_with(&[EffectKind::Gain, EffectKind::EQ]);
    e.set_focus(Pane::Sequence);
    e.handle_key(press(Key::Up));
    assert_eq!(e.sequence_selected, Some(1));
    e.handle_key(shift(Key::Down));
    assert_eq!(kinds(&e), vec![EffectKind::Gain, EffectKind::EQ]);
    assert_eq!(e.sequence_selected, Some(1));
}

#[test]
fn delete_removes_selected_effect() {
    let mut e = editor_with(&[EffectKind::Gain, EffectKind::EQ, EffectKind::Delay]);
    e.set_focus(Pane::Sequence);
    e.handle_key(press(Key::Down));
    assert_eq!(e.sequence_selected, Some(1));
    e.handle_key(ch('d'));
    assert_eq!(kinds(&e), vec![EffectKind::Gain, EffectKind::Delay]);
    assert_eq!(e.sequence_selected, Some(1));
    e.handle_key(ch('d'));
    assert_eq!(kinds(&e), vec![EffectKind::Gain]);
    assert_eq!(e.sequence_selected, Some(0));
    e.handle_key(ch('d'));
    assert!(e.soundcourse.sequence.is_empty());
    assert_eq!(e.sequence_selected, None);
    assert_eq!(e.parameter_selected, None);
}

#[test]
fn delete_outside_the_chain_does_nothing() {
    let mut e = editor_with(&[EffectKind::Gain]);
    e.set_focus(Pane::EffectPalette);
    e.handle_key(ch('d'));
    assert_eq!(kinds(&e), vec![EffectKind::Gain]);
}

#[test]
fn parameters_cycle_within_the_effect() {
    let mut e = editor_with(&[EffectKind::Delay]);
    e.set_focus(Pane::Parameters);
    e.handle_key(press(Key::Down));
    assert_eq!(e.parameter_selected, Some(0));
    e.handle_key(press(Key::Down));
    assert_eq!(e.parameter_selected, Some(1));
    e.handle_key(press(Key::Down));
    assert_eq!(e.parameter_selected, Some(0));
    let cmd = e.handle_key(press(Key::Right));
    assert!(matches!(cmd, Command::AdjustParameter(0, 0, true)));
    let cmd = e.handle_key(press(Key::Left));
    assert!(matches!(cmd, Command::AdjustParameter(0, 0, false)));
}

#[test]
fn adjusting_outside_parameters_asks_for_nothing() {
    let mut e = editor_with(&[EffectKind::Delay]);
    e.set_focus(Pane::Sequence);
    let cmd = e.handle_key(press(Key::Right));
    assert!(matches!(cmd, Command::Nothing));
}

#[test]
fn set_effect_replaces_one_effect() {
    let mut e = editor_with(&[EffectKind::Gain, EffectKind::EQ]);
    e.set_effect(1, EffectNode::Gain { gain_db: 3.0f32.to_bits() });
    assert_eq!(e.soundcourse.sequence[1], EffectNode::Gain { gain_db: 3.0f32.to_bits() });
    assert_eq!(e.soundcourse.sequence[0].kind(), EffectKind::Gain);
}

#[test]
fn save_prompt_appends_json_extension() {
    let mut e = editor_with(&[EffectKind::Gain]);
    e.set_has_directory(true);
    e.set_focus(Pane::Sequence);
    e.handle_key(ch('s'));
    assert_eq!(e.focused_pane, Pane::SavePrompt);
    for c in "chainx".chars() {
        e.handle_key(ch(c));
    }
    e.handle_key(press(Key::Backspace));
    assert_eq!(e.save_input, "chain");
    let cmd = e.handle_key(press(Key::Enter));
    match cmd {
        Command::Save(name, format) => {
            assert_eq!(name, "chain.json");
            assert_eq!(format, SaveFormat::Json);
        }
        other => panic!("unexpected command {other:?}"),
    }
    assert_eq!(e.focused_pane, Pane::Sequence);
    assert_eq!(e.save_input, "");
}

#[test]
fn save_prompt_keeps_ini_and_json_names() {
    for (name, format) in [("a.ini", SaveFormat::Ini), ("b.json", SaveFormat::Json), ("chain.jsonld", SaveFormat::Json)] {
        let mut e = editor_with(&[EffectKind::Gain]);
        e.set_has_directory(true);
        e.handle_key(ch('s'));
        for c in name.chars() {
            e.handle_key(ch(c));
        }
        match e.handle_key(press(Key::Enter)) {
            Command::Save(n, f) => {
                assert_eq!(n, name);
                assert_eq!(f, format);
            }
            other => panic!("unexpected command {other:?}"),
        }
    }
}

#[test]
fn save_without_directory_asks_for_nothing() {
    let mut e = editor_with(&[EffectKind::Gain]);
    e.handle_key(ch('s'));
    e.handle_key(ch('x'));
    let cmd = e.handle_key(press(Key::Enter));
    assert!(matches!(cmd, Command::Nothing));
    assert_eq!(e.focused_pane, Pane::Sequence);
}

#[test]
fn save_prompt_escape_cancels() {
    let mut e = editor_with(&[EffectKind::Gain]);
    e.set_has_directory(true);
    e.handle_key(ch('s'));
    e.handle_key(ch('x'));
    let cmd = e.handle_key(press(Key::Esc));
    assert!(matches!(cmd, Command::Nothing));
    assert_eq!(e.focused_pane, Pane::Sequence);
    assert_eq!(e.save_input, "");
}

#[test]
fn directory_prompt_opens_typed_path() {
    let mut e = Editor::new(Soundcourse::new("Tester"));
    e.handle_key(ch('o'));
    assert_eq!(e.focused_pane, Pane::DirectoryInput);
    for c in "/tmp/x".chars() {
        e.handle_key(ch(c));
    }
    // In the prompt, `q` is text, not quit.
    e.handle_key(ch('q'));
    e.handle_key(press(Key::Backspace));
    match e.handle_key(press(Key::Enter)) {
        Command::OpenDirectory(p) => assert_eq!(p, "/tmp/x"),
        other => panic!("unexpected command {other:?}"),
    }
    assert!(!e.should_quit);
    assert_eq!(e.focused_pane, Pane::FileExplorer);
    assert_eq!(e.dir_input, "");
}

#[test]
fn directory_prompt_with_empty_text_asks_for_nothing() {
    let mut e = Editor::new(Soundcourse::new("Tester"));
    e.handle_key(ch('o'));
    let cmd = e.handle_key(press(Key::Enter));
    assert!(matches!(cmd, Command::Nothing));
    assert_eq!(e.focused_pane, Pane::FileExplorer);
}

#[test]
fn help_takes_keys_until_closed() {
    let mut e = Editor::new(Soundcourse::new("Tester"));
    e.handle_key(ch('?'));
    assert!(e.show_help);
    e.handle_key(press(Key::Down));
    e.handle_key(press(Key::Down));
    e.handle_key(press(Key::Up));
    assert_eq!(e.help_scroll, 1);
    // `q` does not quit while the help is shown.
    let cmd = e.handle_key(ch('q'));
    assert!(matches!(cmd, Command::Nothing));
    assert!(!e.should_quit);
    e.handle_key(press(Key::Esc));
    assert!(!e.show_help);
    assert_eq!(e.help_scroll, 0);
}

#[test]
fn help_scroll_stops_at_zero() {
    let mut e = Editor::new(Soundcourse::new("Tester"));
    e.handle_key(ch('?'));
    e.handle_key(press(Key::Up));
    assert_eq!(e.help_scroll, 0);
    e.handle_key(ch('?'));
    assert!(!e.show_help);
}

#[test]
fn quit_and_preview_and_processing_commands() {
    let mut e = Editor::new(Soundcourse::new("Tester"));
    assert!(matches!(e.handle_key(ch('p')), Command::TogglePreview));
    let ctrl_enter = KeyPress { key: Key::Enter, shift: false, control: true };
    // An empty chain fails strict validation, so processing is refused.
    assert!(matches!(e.handle_key(ctrl_enter), Command::RefuseProcessing));
    let mut valid = editor_with(&[EffectKind::Gain]);
    assert!(matches!(valid.handle_key(ctrl_enter), Command::ProcessFiles));
    assert!(matches!(e.handle_key(ch('q')), Command::Quit));
    assert!(e.should_quit);
}

#[test]
fn file_list_moves_and_opens_entries() {
    let mut e = Editor::new(Soundcourse::new("Tester"));
    e.set_has_directory(true);
    e.files_refreshed(3);
    assert_eq!(e.file_selected, Some(0));
    assert!(matches!(e.handle_key(press(Key::Up)), Command::SelectionMoved));
    assert_eq!(e.file_selected, Some(2));
    assert!(matches!(e.handle_key(press(Key::Enter)), Command::OpenEntry(2)));
    e.handle_key(press(Key::Down));
    assert_eq!(e.file_selected, Some(0));
}

#[test]
fn enter_without_directory_opens_nothing() {
    let mut e = Editor::new(Soundcourse::new("Tester"));
    e.files_refreshed(2);
    assert!(matches!(e.handle_key(press(Key::Enter)), Command::Nothing));
}

#[test]
fn empty_refresh_keeps_file_selection() {
    let mut e = Editor::new(Soundcourse::new("Tester"));
    e.files_refreshed(4);
    e.handle_key(press(Key::Down));
    e.files_refreshed(0);
    assert_eq!(e.file_count, 0);
    assert_eq!(e.file_selected, Some(1));
}

#[test]
fn loading_selects_first_effect() {
    let mut e = Editor::new(Soundcourse::new("Tester"));
    let mut sc = Soundcourse::new("Other");
    sc.sequence.push(EffectNode::with_defaults(EffectKind::Compressor));
    e.load_soundcourse(sc);
    assert_eq!(e.sequence_selected, Some(0));
    assert_eq!(e.parameter_selected, None);
    assert_eq!(e.soundcourse.creator, "Other");
    e.load_soundcourse(Soundcourse::new("Empty"));
    assert_eq!(e.sequence_selected, None);
}

#[test]
fn keys_keep_metadata() {
    let mut e = editor_with(&[EffectKind::Gain, EffectKind::EQ]);
    let title = e.soundcourse.title.clone();
    let id = e.soundcourse.id.clone();
    e.set_focus(Pane::Sequence);
    e.handle_key(shift(Key::Down));
    e.handle_key(ch('d'));
    e.handle_key(press(Key::BackTab));
    e.handle_key(press(Key::Down));
    e.handle_key(press(Key::Enter));
    assert_eq!(e.soundcourse.title, title);
    assert_eq!(e.soundcourse.id, id);
    assert_eq!(e.soundcourse.creator, "Tester");
}

#[test]
fn keys_at_the_edges_change_nothing() {
    let mut e = Editor::new(Soundcourse::new("Tester"));
    e.set_focus(Pane::Sequence);
    // Down on the empty chain selects its first position.
    e.handle_key(press(Key::Down));
    assert_eq!(e.sequence_selected, Some(0));
    assert!(e.is_consistent());
    let cmd = e.handle_key(shift(Key::Down));
    assert!(matches!(cmd, Command::Nothing));
    assert_eq!(e.sequence_selected, Some(0));
    assert!(e.soundcourse.sequence.is_empty());
    let mut h = Editor::new(Soundcourse::new("Tester"));
    h.handle_key(ch('?'));
    h.help_scroll = u16::MAX;
    h.handle_key(press(Key::Down));
    assert_eq!(h.help_scroll, u16::MAX);
    h.handle_key(press(Key::Up));
    assert_eq!(h.help_scroll, u16::MAX - 1);
}

#[test]
fn processing_is_refused_for_an_invalid_chain() {
    let ctrl_enter = KeyPress { key: Key::Enter, shift: false, control: true };
    let mut e = editor_with(&[EffectKind::Delay]);
    e.set_effect(0, EffectNode::Delay { delay_ms: 100.0f32.to_bits(), feedback: 0.99f32.to_bits() });
    assert!(matches!(e.handle_key(ctrl_enter), Command::RefuseProcessing));
    let mut r = editor_with(&[EffectKind::Gain]);
    let mut sc = r.soundcourse.clone();
    sc.sample_rate = Some(4000.0f32.to_bits());
    r.load_soundcourse(sc);
    assert!(matches!(r.handle_key(ctrl_enter), Command::RefuseProcessing));
}

#[test]
fn down_then_up_restores_each_list() {
    let mut e = editor_with(&[EffectKind::Gain, EffectKind::EQ, EffectKind::Delay]);
    e.files_refreshed(4);
    for pane in [Pane::FileExplorer, Pane::EffectPalette, Pane::Sequence] {
        e.set_focus(pane);
        e.handle_key(press(Key::Down));
        let before = (e.file_selected, e.palette_selected, e.sequence_selected);
        e.handle_key(press(Key::Down));
        e.handle_key(press(Key::Up));
        assert_eq!((e.file_selected, e.palette_selected, e.sequence_selected), before);
    }
    assert_eq!(e.soundcourse.sequence.len(), 3);
}

#[test]
fn up_from_first_entry_selects_last() {
    let mut e = editor_with(&[EffectKind::Gain, EffectKind::EQ, EffectKind::Delay]);
    e.set_focus(Pane::Sequence);
    assert_eq!(e.sequence_selected, Some(0));
    e.handle_key(press(Key::Up));
    assert_eq!(e.sequence_selected, Some(2));
    e.files_refreshed(5);
    e.set_focus(Pane::FileExplorer);
    e.handle_key(press(Key::Up));
    assert_eq!(e.file_selected, Some(4));
}
