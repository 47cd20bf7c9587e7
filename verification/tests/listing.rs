use amixima::listing::{
    entry_action, entry_precedes, is_config_name, name_precedes, sort_entries, wav_names, EntryAction,
};
use amixima::parser::SourceFormat;
use amixima::symbols::Symbols;

fn use_action(name: &str, is_dir: bool, expected: EntryAction) {
    assert_eq!(entry_action(name, is_dir), expected, "{name}");
}

fn entry(name: &str, dir: bool) -> (String, bool) {
    (name.to_string(), dir)
}

#[test]
fn directories_come_first_then_names_in_order() {
    let sorted = sort_entries(vec![
        entry("b.wav", false),
        entry("zeta", true),
        entry("A.ini", false),
        entry("alpha", true),
        entry("a.wav", false),
    ]);
    let names: Vec<&str> = sorted.iter().map(|(n, _)| n.as_str()).collect();
    assert_eq!(names, vec!["alpha", "zeta", "A.ini", "a.wav", "b.wav"]);
    assert!(sorted[0].1 && sorted[1].1 && !sorted[2].1);
}

#[test]
fn sorting_matches_string_order() {
    let mut input = vec![
        entry("é", false),
        entry("e", false),
        entry("ab", false),
        entry("a", false),
        entry("Z", false),
        entry("10", false),
        entry("9", false),
    ];
    let sorted = sort_entries(input.clone());
    input.sort_by(|a, b| a.0.cmp(&b.0));
    assert_eq!(sorted, input);
}

#[test]
fn sorting_keeps_every_entry() {
    assert!(sort_entries(Vec::new()).is_empty());
    let sorted = sort_entries(vec![entry("x", false), entry("x", false), entry("d", true)]);
    assert_eq!(sorted, vec![entry("d", true), entry("x", false), entry("x", false)]);
}

#[test]
fn name_order_is_code_point_order() {
    assert!(name_precedes("a", "b"));
    assert!(name_precedes("a", "ab"));
    assert!(!name_precedes("ab", "a"));
    assert!(!name_precedes("a", "a"));
    assert!(name_precedes("Z", "a"));
    assert!(name_precedes("z", "é"));
    assert!(entry_precedes(&entry("z", true), &entry("a", false)));
    assert!(!entry_precedes(&entry("a", false), &entry("z", true)));
}

#[test]
fn batch_takes_only_wav_files_in_list_order() {
    let names: Vec<String> = ["..", "b.WAV", "notes.txt", "a.flac", "chain.ini", "c.mp3", "d.wav", "e.Wav"]
        .iter()
        .map(|s| s.to_string())
        .collect();
    assert_eq!(wav_names(&names), vec!["b.WAV", "d.wav", "e.Wav"]);
    assert!(wav_names(&vec!["song.mp3".to_string()]).is_empty());
    assert!(wav_names(&Vec::new()).is_empty());
}

#[test]
fn entries_open_by_kind_and_name() {
    use_action("chain.ini", false, EntryAction::LoadSoundcourse(SourceFormat::Ini));
    use_action("CHAIN.INI", false, EntryAction::LoadSoundcourse(SourceFormat::Ini));
    use_action("chain.json", false, EntryAction::LoadSoundcourse(SourceFormat::JsonLd));
    use_action("Chain.JsonLD", false, EntryAction::LoadSoundcourse(SourceFormat::JsonLd));
    use_action("ini", false, EntryAction::Nothing);
    use_action("song.wav", false, EntryAction::Nothing);
    use_action("..", true, EntryAction::OpenParent);
    use_action("chain.ini", true, EntryAction::OpenDirectory);
}

#[test]
fn config_names_are_ini_or_json_as_written() {
    assert!(is_config_name("a.ini"));
    assert!(is_config_name("a.json"));
    assert!(!is_config_name("a.INI"));
    assert!(!is_config_name("a.jsonld"));
}

#[test]
fn symbols_are_the_drawn_markers() {
    assert_eq!(Symbols::FOCUS_MARKER, "➤ ");
    assert_eq!(Symbols::ITEM_MARKER, "◆ ");
    assert_eq!(Symbols::NAV_INDICATOR, " » ");
    assert!(Symbols::DIR_ICON.ends_with(' '));
}
