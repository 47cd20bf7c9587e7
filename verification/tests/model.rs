use amixima::catalog::parameters;
use amixima::text::usize_text;
use amixima::validation::{effect_passes, soundcourse_passes, ValidationMode};
use amixima::error::AmiximaError;
use amixima::floatbits::{bits_in_range, bits_is_finite, bits_is_nan, bits_le};
use amixima::files::{
    audio_extension, fit_peaks, is_audio_file, is_wav_file, peak_chunk_size, processed_file_name,
    wav_extension, PEAK_BARS,
};
use amixima::ontology::{EffectKind, EffectNode, Soundcourse, DEFAULT_CONTEXT_JSON, F32_CD_RATE};

#[test]
fn new_soundcourse_has_documented_defaults() {
    let sc = Soundcourse::new("Alice");
    assert_eq!(sc.rdf_type, "mo:Workflow");
    assert_eq!(sc.creator, "Alice");
    assert_eq!(sc.title, None);
    assert_eq!(sc.description, None);
    assert_eq!(sc.sample_rate, Some(44_100.0f32.to_bits()));
    assert_eq!(F32_CD_RATE, 44_100.0f32.to_bits());
    assert!(sc.sequence.is_empty());
    assert!(sc.is_empty());
    assert_eq!(sc.context, DEFAULT_CONTEXT_JSON);
}

#[test]
fn new_soundcourse_ids_are_prefixed_uuids() {
    let a = Soundcourse::new("x");
    let b = Soundcourse::new("x");
    assert!(a.id.starts_with("amixima:sc:"));
    let uuid = &a.id["amixima:sc:".len()..];
    assert_eq!(uuid.len(), 36);
    assert_eq!(uuid.as_bytes()[14], b'4');
    for (i, c) in uuid.chars().enumerate() {
        if [8, 13, 18, 23].contains(&i) {
            assert_eq!(c, '-');
        } else {
            assert!(c.is_ascii_hexdigit() && !c.is_ascii_uppercase());
        }
    }
    assert_ne!(a.id, b.id);
}

#[test]
fn default_context_names_the_vocabularies() {
    let ctx = Soundcourse::default_context();
    for needle in [
        "\"mo\":\"http://purl.org/ontology/mo/\"",
        "\"aufx\":\"http://purl.org/ontology/aufx-o/\"",
        "\"dc\":\"http://purl.org/dc/elements/1.1/\"",
        "\"xsd\":\"http://www.w3.org/2001/XMLSchema#\"",
        "\"Soundcourse\":\"mo:Workflow\"",
        "\"@container\":\"@list\"",
        "\"@id\":\"mo:workflow_step\"",
    ] {
        assert!(ctx.contains(needle), "missing {needle}");
    }
}

#[test]
fn with_defaults_gives_documented_parameters() {
    let b = |v: f32| v.to_bits();
    assert_eq!(
        EffectNode::with_defaults(EffectKind::Reverb),
        EffectNode::Reverb { room_size: b(0.5), dry_wet: b(0.3) }
    );
    assert_eq!(
        EffectNode::with_defaults(EffectKind::EQ),
        EffectNode::EQ { frequency: b(1000.0), gain: b(0.0) }
    );
    assert_eq!(
        EffectNode::with_defaults(EffectKind::Delay),
        EffectNode::Delay { delay_ms: b(100.0), feedback: b(0.5) }
    );
    assert_eq!(
        EffectNode::with_defaults(EffectKind::Compressor),
        EffectNode::Compressor { threshold: b(-20.0), ratio: b(4.0) }
    );
    assert_eq!(EffectNode::with_defaults(EffectKind::Gain), EffectNode::Gain { gain_db: b(0.0) });
}

#[test]
fn kinds_and_parameter_counts() {
    for k in [
        EffectKind::Reverb,
        EffectKind::EQ,
        EffectKind::Delay,
        EffectKind::Compressor,
        EffectKind::Gain,
    ] {
        let n = EffectNode::with_defaults(k);
        assert_eq!(n.kind(), k);
        let expected = if k == EffectKind::Gain { 1 } else { 2 };
        assert_eq!(k.param_count(), expected);
    }
}

#[test]
fn audio_files_are_recognised_by_extension() {
    for p in ["a.wav", "dir/b.MP3", "c.flac", "d.Ogg", "e.m4a", "f.aiff", "/x/y.WAV"] {
        assert!(is_audio_file(p), "{p}");
    }
    for p in ["a.txt", "noext", ".wav", "b.wave", "c.ini", "song.wav.json"] {
        assert!(!is_audio_file(p), "{p}");
    }
}

#[test]
fn processed_names_end_in_processed_wav() {
    assert_eq!(processed_file_name("song.mp3").as_deref(), Some("song_processed.wav"));
    assert_eq!(processed_file_name("take.one.flac").as_deref(), Some("take.one_processed.wav"));
    assert_eq!(processed_file_name("noext").as_deref(), Some("noext_processed.wav"));
    assert_eq!(processed_file_name(""), None);
}

#[test]
fn peak_chunks_cover_a_sixtieth() {
    assert_eq!(peak_chunk_size(0), 1);
    assert_eq!(peak_chunk_size(59), 1);
    assert_eq!(peak_chunk_size(60), 1);
    assert_eq!(peak_chunk_size(600), 10);
    assert_eq!(peak_chunk_size(44_100), 735);
}

#[test]
fn peaks_are_fitted_to_sixty_bars() {
    let short = fit_peaks(vec![5, 7]);
    assert_eq!(short.len(), PEAK_BARS);
    assert_eq!(&short[..3], &[5, 7, 0]);
    assert!(short[2..].iter().all(|v| *v == 0));
    let long: Vec<u64> = (0..100).collect();
    let fitted = fit_peaks(long);
    assert_eq!(fitted, (0..60).collect::<Vec<u64>>());
}

#[test]
fn io_error_carries_path_and_source() {
    let e = AmiximaError::io("x.ini", "not found");
    match &e {
        AmiximaError::Io { path, source } => {
            assert_eq!(path.as_deref(), Some("x.ini"));
            assert_eq!(source, "not found");
        }
        other => panic!("unexpected {other:?}"),
    }
    assert_eq!(e.message(), "I/O error at x.ini: not found");
}

#[test]
fn error_messages_name_their_kind() {
    let cases = [
        (AmiximaError::Io { path: None, source: "boom".to_string() }, "I/O error: boom"),
        (AmiximaError::Parser("m".to_string()), "parser error: m"),
        (AmiximaError::Validation("m".to_string()), "validation error: m"),
        (AmiximaError::UnsupportedFormat("m".to_string()), "unsupported format: m"),
        (AmiximaError::AudioDecode("m".to_string()), "audio decode error: m"),
        (AmiximaError::AudioEncode("m".to_string()), "audio encode error: m"),
        (AmiximaError::Processing("m".to_string()), "processing error: m"),
        (AmiximaError::Batch("m".to_string()), "batch error: m"),
        (AmiximaError::Path("m".to_string()), "path error: m"),
    ];
    for (e, text) in cases {
        assert_eq!(e.message(), text);
    }
}

#[test]
fn parameter_table_matches_soundcourse_v1() {
    let row = |k: EffectKind| -> Vec<(String, String, f32, f32, f32)> {
        parameters(k)
            .into_iter()
            .map(|p| (p.name, p.unit, f32::from_bits(p.min), f32::from_bits(p.max), f32::from_bits(p.default)))
            .collect()
    };
    let s = |v: &str| v.to_string();
    assert_eq!(row(EffectKind::Gain), vec![(s("gain_db"), s("dB"), -24.0, 24.0, 0.0)]);
    assert_eq!(
        row(EffectKind::EQ),
        vec![(s("frequency"), s("Hz"), 20.0, 20000.0, 1000.0), (s("gain"), s("dB"), -24.0, 24.0, 0.0)]
    );
    assert_eq!(
        row(EffectKind::Delay),
        vec![(s("delay_ms"), s("ms"), 0.0, 2000.0, 100.0), (s("feedback"), s("scalar"), 0.0, 0.95, 0.5)]
    );
    assert_eq!(
        row(EffectKind::Reverb),
        vec![(s("room_size"), s("scalar"), 0.0, 1.0, 0.5), (s("dry_wet"), s("scalar"), 0.0, 1.0, 0.3)]
    );
    assert_eq!(
        row(EffectKind::Compressor),
        vec![(s("threshold"), s("dB"), -60.0, 0.0, -20.0), (s("ratio"), s("scalar"), 1.0, 20.0, 4.0)]
    );
}

#[test]
fn bit_comparisons_follow_ieee_754() {
    let values = [
        -f32::INFINITY, -1e30, -2.5, -1.0, -0.0, 0.0, 1e-40, 0.5, 1.0, 3.0, 1e30, f32::INFINITY, f32::NAN,
    ];
    for a in values {
        assert_eq!(bits_is_nan(a.to_bits()), a.is_nan(), "{a}");
        assert_eq!(bits_is_finite(a.to_bits()), a.is_finite(), "{a}");
        for b in values {
            assert_eq!(bits_le(a.to_bits(), b.to_bits()), a <= b, "{a} <= {b}");
            assert_eq!(
                bits_in_range(a.to_bits(), (-1.0f32).to_bits(), b.to_bits()),
                (-1.0..=b).contains(&a),
                "{a} in -1..={b}"
            );
        }
    }
}

#[test]
fn extensions_are_told_apart_in_lower_case() {
    for e in ["wav", "MP3", "Flac", "ogg", "m4a", "AIFF"] {
        assert!(audio_extension(e), "{e}");
    }
    assert!(!audio_extension("txt"));
    assert!(!audio_extension(""));
    assert!(wav_extension("WAV") && wav_extension("wav"));
    assert!(!wav_extension("mp3"));
    assert!(is_audio_file("a/Song.WAV"));
    assert!(is_wav_file("a/Song.WAV"));
    assert!(!is_wav_file("a/Song.mp3"));
    assert!(!is_wav_file("wav"));
}

#[test]
fn rule_checks_without_messages() {
    let mut sc = Soundcourse::new("x");
    assert!(!soundcourse_passes(&sc, ValidationMode::Strict));
    assert!(soundcourse_passes(&sc, ValidationMode::UiFriendly));
    sc.sequence.push(EffectNode::with_defaults(EffectKind::Compressor));
    assert!(soundcourse_passes(&sc, ValidationMode::Strict));
    let loud = EffectNode::Gain { gain_db: 30.0f32.to_bits() };
    assert!(!effect_passes(&loud));
    assert!(effect_passes(&EffectNode::Gain { gain_db: 24.0f32.to_bits() }));
    assert!(!effect_passes(&EffectNode::Gain { gain_db: f32::NAN.to_bits() }));
    sc.sequence.push(loud);
    assert!(!soundcourse_passes(&sc, ValidationMode::UiFriendly));
}

#[test]
fn numerals_are_written_in_decimal() {
    for n in [0usize, 7, 10, 42, 1000, 65_535, usize::MAX] {
        assert_eq!(usize_text(n), n.to_string());
    }
}
