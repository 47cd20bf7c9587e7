use amixima::error::AmiximaError;
use amixima::ontology::{EffectNode, Soundcourse};
use amixima::ini_doc::{IniDoc, IniSection};
use amixima::parser::ini::{parse_ini, read_ini_document, serialize_to_ini, IniParseMode};
use amixima::parser::legacy::read_legacy_document;
use amixima::parser::{SoundcourseParser, SourceFormat};

fn decode(text: &str) -> Result<u32, String> {
    text.parse::<f64>()
        .map(|v| (v as f32).to_bits())
        .map_err(|e| e.to_string())
}

fn show(bits: u32) -> String {
    f32::from_bits(bits).to_string()
}

fn b(v: f32) -> u32 {
    v.to_bits()
}

fn f(bits: u32) -> f32 {
    f32::from_bits(bits)
}

fn parse(text: &str, mode: IniParseMode) -> Result<Soundcourse, AmiximaError> {
    parse_ini("test.ini", text.to_string(), mode, &decode)
}

fn parser_message(r: Result<Soundcourse, AmiximaError>) -> String {
    match r {
        Err(AmiximaError::Parser(m)) => m,
        other => panic!("expected a parser error, got {:?}", other),
    }
}

fn reverb_and_eq() -> Soundcourse {
    let mut sc = Soundcourse::new("Tester");
    sc.sequence.push(EffectNode::Reverb {
        room_size: b(0.9),
        dry_wet: b(0.1),
    });
    sc.sequence.push(EffectNode::EQ {
        frequency: b(440.0),
        gain: b(-3.0),
    });
    sc
}

fn check_reverb_and_eq(sc2: &Soundcourse) {
    assert_eq!(sc2.sequence.len(), 2);
    if let EffectNode::Reverb { room_size, dry_wet } = sc2.sequence[0] {
        assert!((f(room_size) - 0.9).abs() < 1e-6);
        assert!((f(dry_wet) - 0.1).abs() < 1e-6);
    } else {
        panic!("Expected Reverb");
    }
    if let EffectNode::EQ { frequency, gain } = sc2.sequence[1] {
        assert!((f(frequency) - 440.0).abs() < 1e-6);
        assert!((f(gain) - (-3.0)).abs() < 1e-6);
    } else {
        panic!("Expected EQ");
    }
}

#[test]
fn parser_test_serialize_ini() {
    let sc = reverb_and_eq();
    let text = SoundcourseParser::serialize_to_ini(&sc, &show);
    let sc2 = SoundcourseParser::parse_ini("test_serialize.ini", text, &decode).unwrap();
    check_reverb_and_eq(&sc2);
}

#[test]
fn mod_test_serialize_ini() {
    let sc = reverb_and_eq();
    let text = serialize_to_ini(&sc, &show);
    assert_eq!(SoundcourseParser::source_format("test_serialize.ini").unwrap(), SourceFormat::Ini);
    let sc2 = parse_ini("test_serialize.ini", text, IniParseMode::Strict, &decode).unwrap();
    check_reverb_and_eq(&sc2);
}

#[test]
fn rejects_unknown_effect_type() {
    let result = parse("[effect1]\ntype=warp\n", IniParseMode::Strict);
    assert!(result.is_err());
}

#[test]
fn rejects_missing_strict_parameter() {
    let result = parse("[effect1]\ntype=eq\nfrequency=1000\n", IniParseMode::Strict);
    assert!(result.is_err());
}

#[test]
fn preserves_effect_section_order() {
    let sc = parse(
        "[effect2]\ntype=gain\ngain_db=1\n[effect1]\ntype=delay\ndelay_ms=10\nfeedback=0.2\n",
        IniParseMode::Strict,
    )
    .unwrap();
    assert!(matches!(sc.sequence[0], EffectNode::Delay { .. }));
    assert!(matches!(sc.sequence[1], EffectNode::Gain { .. }));
}

#[test]
fn unknown_type_message() {
    let m = parser_message(parse("[effect1]\ntype=Warp\n", IniParseMode::Lenient));
    assert_eq!(m, "effect1 has unknown effect type warp");
}

#[test]
fn missing_parameter_message() {
    let m = parser_message(parse("[effect1]\ntype=eq\nfrequency=1000\n", IniParseMode::Strict));
    assert_eq!(m, "effect1 is missing required parameter gain");
}

#[test]
fn missing_type_strict_and_lenient() {
    let text = "[effect1]\ngain_db=3\n[effect2]\ntype=gain\ngain_db=2\n";
    let m = parser_message(parse(text, IniParseMode::Strict));
    assert_eq!(m, "effect1 is missing required type");
    let sc = parse(text, IniParseMode::Lenient).unwrap();
    assert_eq!(sc.sequence, vec![EffectNode::Gain { gain_db: b(2.0) }]);
}

#[test]
fn lenient_fills_in_defaults() {
    let text = "[effect1]\ntype=reverb\n[effect2]\ntype=EQ\n[effect3]\ntype=delay\n[effect4]\ntype=compressor\n[effect5]\ntype=gain\n";
    let sc = parse(text, IniParseMode::Lenient).unwrap();
    assert_eq!(
        sc.sequence,
        vec![
            EffectNode::Reverb { room_size: b(0.5), dry_wet: b(0.3) },
            EffectNode::EQ { frequency: b(1000.0), gain: b(0.0) },
            EffectNode::Delay { delay_ms: b(100.0), feedback: b(0.5) },
            EffectNode::Compressor { threshold: b(-20.0), ratio: b(4.0) },
            EffectNode::Gain { gain_db: b(0.0) },
        ]
    );
}

#[test]
fn bad_number_message() {
    let m = parser_message(parse("[effect1]\ntype=gain\ngain_db=loud\n", IniParseMode::Lenient));
    assert_eq!(m, "effect1.gain_db: invalid float literal");
    let m = parser_message(parse("[metadata]\nsample_rate=fast\n", IniParseMode::Strict));
    assert_eq!(m, "metadata.sample_rate: invalid float literal");
}

#[test]
fn metadata_is_read() {
    let text = "[metadata]\ntitle=Warm Bus\ndescription=Gain then EQ\nsample_rate=48000\n[effect1]\ntype=gain\ngain_db=3\n";
    let sc = parse(text, IniParseMode::Strict).unwrap();
    assert_eq!(sc.title.as_deref(), Some("Warm Bus"));
    assert_eq!(sc.description.as_deref(), Some("Gain then EQ"));
    assert_eq!(sc.sample_rate, Some(b(48000.0)));
    assert_eq!(sc.creator, "DefaultUser");
    assert!(sc.id.starts_with("amixima:sc:"));
}

#[test]
fn missing_sample_rate_stays_missing() {
    let sc = parse("[effect1]\ntype=gain\ngain_db=3\n", IniParseMode::Strict).unwrap();
    assert_eq!(sc.sample_rate, None);
    assert_eq!(sc.title, None);
}

#[test]
fn sections_other_than_effects_are_ignored() {
    let text = "[notes]\ntype=gain\n[effect1]\ntype=gain\ngain_db=3\n";
    let sc = parse(text, IniParseMode::Strict).unwrap();
    assert_eq!(sc.sequence, vec![EffectNode::Gain { gain_db: b(3.0) }]);
}

#[test]
fn unnumbered_effect_sections_come_last() {
    let text = "[effectx]\ntype=gain\ngain_db=9\n[effect10]\ntype=gain\ngain_db=10\n[effect2]\ntype=gain\ngain_db=2\n";
    let sc = parse(text, IniParseMode::Strict).unwrap();
    assert_eq!(
        sc.sequence,
        vec![
            EffectNode::Gain { gain_db: b(2.0) },
            EffectNode::Gain { gain_db: b(10.0) },
            EffectNode::Gain { gain_db: b(9.0) },
        ]
    );
}

#[test]
fn malformed_ini_names_the_file() {
    let m = parser_message(parse("[effect1\ntype=gain\n", IniParseMode::Strict));
    assert_eq!(
        m,
        "test.ini: couldn't read test.ini: line 1: Found opening bracket for section name but no closing bracket"
    );
}

#[test]
fn round_trip_all_effects_with_metadata() {
    let mut sc = Soundcourse::new("Tester");
    sc.title = Some("Full Chain".to_string());
    sc.description = Some("every effect once".to_string());
    sc.sample_rate = Some(b(48000.0));
    sc.sequence.push(EffectNode::Reverb { room_size: b(0.9), dry_wet: b(0.1) });
    sc.sequence.push(EffectNode::EQ { frequency: b(440.0), gain: b(-3.0) });
    sc.sequence.push(EffectNode::Delay { delay_ms: b(120.0), feedback: b(0.4) });
    sc.sequence.push(EffectNode::Compressor { threshold: b(-18.0), ratio: b(3.0) });
    sc.sequence.push(EffectNode::Gain { gain_db: b(1.5) });
    for i in 0..8 {
        sc.sequence.push(EffectNode::Gain { gain_db: b(i as f32) });
    }
    let text = serialize_to_ini(&sc, &show);
    for mode in [IniParseMode::Strict, IniParseMode::Lenient] {
        let sc2 = parse_ini("x.ini", text.clone(), mode, &decode).unwrap();
        assert_eq!(sc2.sequence, sc.sequence);
        assert_eq!(sc2.title, sc.title);
        assert_eq!(sc2.description, sc.description);
        assert_eq!(sc2.sample_rate, sc.sample_rate);
    }
}

#[test]
fn strict_success_reads_the_same_leniently() {
    let text = "[effect1]\ntype=delay\ndelay_ms=10\nfeedback=0.2\n[effect2]\ntype=gain\ngain_db=1\n";
    let strict = parse(text, IniParseMode::Strict).unwrap();
    let lenient = parse(text, IniParseMode::Lenient).unwrap();
    assert_eq!(strict.sequence, lenient.sequence);
}

#[test]
fn legacy_reader_skips_unknown_and_keeps_default_rate() {
    let text = "[effect1]\ntype=warp\n[effect2]\ntype=gain\n[other]\ntype=eq\nfrequency=500\n";
    let sc = SoundcourseParser::parse_ini("old.ini", text.to_string(), &decode).unwrap();
    assert_eq!(
        sc.sequence,
        vec![
            EffectNode::EQ { frequency: b(500.0), gain: b(0.0) },
            EffectNode::Gain { gain_db: b(0.0) },
        ]
    );
    assert_eq!(sc.sample_rate, Some(b(44100.0)));
}

#[test]
fn legacy_reader_reports_bad_numbers() {
    let text = "[effect1]\ntype=gain\ngain_db=loud\n";
    let m = parser_message(SoundcourseParser::parse_ini("old.ini", text.to_string(), &decode));
    assert_eq!(m, "invalid float literal");
    let m = parser_message(SoundcourseParser::parse_ini("old.ini", "[x\n".to_string(), &decode));
    assert_eq!(
        m,
        "couldn't read old.ini: line 1: Found opening bracket for section name but no closing bracket"
    );
}

#[test]
fn source_formats_by_extension() {
    assert_eq!(SoundcourseParser::source_format("a/b.INI").unwrap(), SourceFormat::Ini);
    assert_eq!(SoundcourseParser::source_format("b.json").unwrap(), SourceFormat::JsonLd);
    assert_eq!(SoundcourseParser::source_format("b.JsonLD").unwrap(), SourceFormat::JsonLd);
    match SoundcourseParser::source_format("song.WAV") {
        Err(AmiximaError::UnsupportedFormat(m)) => {
            assert_eq!(m, "wav files are not supported Soundcourses")
        }
        other => panic!("unexpected {:?}", other),
    }
    match SoundcourseParser::source_format("README") {
        Err(AmiximaError::UnsupportedFormat(m)) => {
            assert_eq!(m, "Soundcourse path has no file extension")
        }
        other => panic!("unexpected {:?}", other),
    }
}

#[test]
fn serialized_text_numbers_sections_from_one() {
    let text = serialize_to_ini(&reverb_and_eq(), &show);
    assert!(text.contains("[metadata]"));
    assert!(text.contains("[effect1]"));
    assert!(text.contains("[effect2]"));
    assert!(!text.contains("[effect0]"));
    assert!(text.contains("type=reverb"));
    assert!(text.contains("type=eq"));
    assert!(text.contains("frequency=440"));
}

#[test]
fn legacy_round_trip_fills_in_the_default_rate() {
    let mut sc = reverb_and_eq();
    sc.title = Some("Old".to_string());
    sc.sample_rate = None;
    let text = serialize_to_ini(&sc, &show);
    let back = SoundcourseParser::parse_ini("old.ini", text, &decode).unwrap();
    assert_eq!(back.sequence, sc.sequence);
    assert_eq!(back.title.as_deref(), Some("Old"));
    assert_eq!(back.sample_rate, Some(b(44100.0)));
    sc.sample_rate = Some(b(48000.0));
    let text = serialize_to_ini(&sc, &show);
    let back = SoundcourseParser::parse_ini("old.ini", text, &decode).unwrap();
    assert_eq!(back.sample_rate, Some(b(48000.0)));
}

#[test]
fn non_ascii_metadata_round_trips() {
    let mut sc = reverb_and_eq();
    sc.title = Some("Wärme — 暖かい Bus".to_string());
    sc.description = Some("Gain=then:EQ".to_string());
    let text = serialize_to_ini(&sc, &show);
    let back = parse_ini("x.ini", text, IniParseMode::Strict, &decode).unwrap();
    assert_eq!(back.title, sc.title);
    assert_eq!(back.description, sc.description);
    assert_eq!(back.sequence, sc.sequence);
    assert_eq!(back.sample_rate, sc.sample_rate);
}

#[test]
fn formats_are_told_by_extension_text() {
    assert_eq!(SoundcourseParser::format_of_extension(Some("INI".to_string())).unwrap(), SourceFormat::Ini);
    assert_eq!(SoundcourseParser::format_of_extension(Some("jsonld".to_string())).unwrap(), SourceFormat::JsonLd);
    match SoundcourseParser::format_of_extension(Some("TXT".to_string())) {
        Err(AmiximaError::UnsupportedFormat(m)) => assert_eq!(m, "txt files are not supported Soundcourses"),
        other => panic!("unexpected {other:?}"),
    }
    match SoundcourseParser::format_of_extension(None) {
        Err(AmiximaError::UnsupportedFormat(m)) => assert_eq!(m, "Soundcourse path has no file extension"),
        other => panic!("unexpected {other:?}"),
    }
}

fn section(name: &str, entries: &[(&str, Option<&str>)]) -> IniSection {
    IniSection {
        name: name.to_string(),
        entries: entries.iter().map(|(k, v)| (k.to_string(), v.map(|v| v.to_string()))).collect(),
    }
}

#[test]
fn documents_are_read_by_section_number() {
    let doc = IniDoc {
        sections: vec![
            section("effect2", &[("type", Some("gain")), ("gain_db", Some("2"))]),
            section("metadata", &[("title", Some("Doc")), ("sample_rate", Some("48000"))]),
            section("effect1", &[("type", Some("Delay")), ("delay_ms", Some("10")), ("feedback", Some("0.2"))]),
        ],
    };
    assert!(doc.is_well_formed());
    assert_eq!(doc.get("METADATA", "Title").as_deref(), Some("Doc"));
    assert_eq!(doc.get("metadata", "missing"), None);
    let sc = read_ini_document(&doc, IniParseMode::Strict, &decode).unwrap();
    assert_eq!(sc.title.as_deref(), Some("Doc"));
    assert_eq!(sc.sample_rate, Some(b(48000.0)));
    assert_eq!(
        sc.sequence,
        vec![EffectNode::Delay { delay_ms: b(10.0), feedback: b(0.2) }, EffectNode::Gain { gain_db: b(2.0) }]
    );
    let old = read_legacy_document(&doc, &decode).unwrap();
    assert_eq!(old.sequence, sc.sequence);
}

#[test]
fn sections_with_equal_numbers_keep_document_order() {
    let doc = IniDoc {
        sections: vec![
            section("effectb", &[("type", Some("gain")), ("gain_db", Some("1"))]),
            section("effecta", &[("type", Some("gain")), ("gain_db", Some("2"))]),
            section("effect1", &[("type", Some("gain")), ("gain_db", Some("3"))]),
        ],
    };
    let sc = read_ini_document(&doc, IniParseMode::Strict, &decode).unwrap();
    let gains: Vec<f32> = sc
        .sequence
        .iter()
        .map(|n| match n {
            EffectNode::Gain { gain_db } => f(*gain_db),
            _ => panic!("expected gain"),
        })
        .collect();
    assert_eq!(gains, vec![3.0, 1.0, 2.0]);
}

#[test]
fn repeated_names_make_a_document_ill_formed() {
    let doc = IniDoc { sections: vec![section("a", &[]), section("a", &[])] };
    assert!(!doc.is_well_formed());
    let doc = IniDoc { sections: vec![section("a", &[("k", None), ("k", Some("v"))])] };
    assert!(!doc.is_well_formed());
    let doc = IniDoc { sections: vec![section("a", &[("k", None)]), section("b", &[("k", None)])] };
    assert!(doc.is_well_formed());
}

/// The written text as its sections, each with its key lines, sorted.
fn written_sections(text: &str) -> Vec<(String, Vec<String>)> {
    let mut out: Vec<(String, Vec<String>)> = Vec::new();
    for line in text.lines() {
        if line.starts_with('[') {
            out.push((line.to_string(), Vec::new()));
        } else {
            out.last_mut().expect("a key line before any section").1.push(line.to_string());
        }
    }
    for (_, keys) in out.iter_mut() {
        keys.sort();
    }
    out.sort();
    out
}

#[test]
fn written_text_is_sections_with_key_lines() {
    let mut sc = reverb_and_eq();
    sc.title = Some("a;b ".to_string());
    let text = serialize_to_ini(&sc, &show);
    let s = |v: &[&str]| v.iter().map(|x| x.to_string()).collect::<Vec<String>>();
    assert_eq!(
        written_sections(&text),
        vec![
            ("[effect1]".to_string(), s(&["dry_wet=0.1", "room_size=0.9", "type=reverb"])),
            ("[effect2]".to_string(), s(&["frequency=440", "gain=-3", "type=eq"])),
            ("[metadata]".to_string(), s(&["sample_rate=44100", "title=a;b "])),
        ]
    );
}
