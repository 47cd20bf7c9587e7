use amixima::error::AmiximaError;
use amixima::ontology::{EffectNode, Soundcourse};
use amixima::validation::{validate_soundcourse, ValidationMode};

fn show(bits: u32) -> String {
    f32::from_bits(bits).to_string()
}

fn b(v: f32) -> u32 {
    v.to_bits()
}

fn one_of_each() -> Soundcourse {
    let mut soundcourse = Soundcourse::new("Tester");
    soundcourse.sequence.push(EffectNode::Gain { gain_db: b(0.0) });
    soundcourse.sequence.push(EffectNode::EQ {
        frequency: b(1_000.0),
        gain: b(0.0),
    });
    soundcourse.sequence.push(EffectNode::Delay {
        delay_ms: b(100.0),
        feedback: b(0.5),
    });
    soundcourse.sequence.push(EffectNode::Reverb {
        room_size: b(0.5),
        dry_wet: b(0.25),
    });
    soundcourse.sequence.push(EffectNode::Compressor {
        threshold: b(-18.0),
        ratio: b(4.0),
    });
    soundcourse
}

#[test]
fn accepts_valid_soundcourse() {
    assert!(validate_soundcourse(&one_of_each(), ValidationMode::Strict, &show).is_ok());
}

#[test]
fn rejects_empty_strict_soundcourse() {
    let soundcourse = Soundcourse::new("Tester");
    assert!(validate_soundcourse(&soundcourse, ValidationMode::Strict, &show).is_err());
}

#[test]
fn rejects_invalid_delay_feedback() {
    let mut soundcourse = Soundcourse::new("Tester");
    soundcourse.sequence.push(EffectNode::Delay {
        delay_ms: b(100.0),
        feedback: b(1.0),
    });
    assert!(validate_soundcourse(&soundcourse, ValidationMode::Strict, &show).is_err());
}

fn validation_message(sc: &Soundcourse, mode: ValidationMode) -> String {
    match validate_soundcourse(sc, mode, &show) {
        Err(AmiximaError::Validation(m)) => m,
        other => panic!("expected a validation error, got {:?}", other),
    }
}

#[test]
fn empty_chain_message_names_the_fix() {
    let soundcourse = Soundcourse::new("Tester");
    assert_eq!(
        validation_message(&soundcourse, ValidationMode::Strict),
        "Soundcourse has no effects; add at least one effect before processing"
    );
}

#[test]
fn editor_mode_accepts_empty_chain() {
    let soundcourse = Soundcourse::new("Tester");
    let report = validate_soundcourse(&soundcourse, ValidationMode::UiFriendly, &show).unwrap();
    assert!(report.warnings.is_empty());
}

#[test]
fn editor_mode_warns_about_missing_rate() {
    let mut soundcourse = one_of_each();
    soundcourse.sample_rate = None;
    let report = validate_soundcourse(&soundcourse, ValidationMode::UiFriendly, &show).unwrap();
    assert_eq!(
        report.warnings,
        vec!["sample rate is missing; processing will use decoded input rate".to_string()]
    );
    let strict = validate_soundcourse(&soundcourse, ValidationMode::Strict, &show).unwrap();
    assert!(strict.warnings.is_empty());
}

#[test]
fn sample_rate_outside_range_is_rejected() {
    let mut soundcourse = one_of_each();
    soundcourse.sample_rate = Some(b(7_999.0));
    assert_eq!(
        validation_message(&soundcourse, ValidationMode::Strict),
        "sample rate 7999 is outside 8000..=192000 Hz"
    );
    soundcourse.sample_rate = Some(b(192_000.0));
    assert!(validate_soundcourse(&soundcourse, ValidationMode::Strict, &show).is_ok());
    soundcourse.sample_rate = Some(b(8_000.0));
    assert!(validate_soundcourse(&soundcourse, ValidationMode::Strict, &show).is_ok());
    soundcourse.sample_rate = Some(b(f32::NAN));
    assert!(validate_soundcourse(&soundcourse, ValidationMode::Strict, &show).is_err());
}

#[test]
fn range_message_names_effect_and_parameter() {
    let mut soundcourse = one_of_each();
    soundcourse.sequence[1] = EffectNode::EQ {
        frequency: b(10.0),
        gain: b(30.0),
    };
    assert_eq!(
        validation_message(&soundcourse, ValidationMode::Strict),
        "effect 2 (EQ) parameter frequency=10 is outside 20..=20000"
    );
}

#[test]
fn first_broken_effect_is_reported() {
    let mut soundcourse = one_of_each();
    soundcourse.sequence[3] = EffectNode::Reverb {
        room_size: b(0.5),
        dry_wet: b(1.5),
    };
    soundcourse.sequence[4] = EffectNode::Compressor {
        threshold: b(5.0),
        ratio: b(4.0),
    };
    assert_eq!(
        validation_message(&soundcourse, ValidationMode::Strict),
        "effect 4 (Reverb) parameter dry_wet=1.5 is outside 0..=1"
    );
}

#[test]
fn range_bounds_are_inclusive() {
    let mut soundcourse = Soundcourse::new("Tester");
    soundcourse.sequence.push(EffectNode::Gain { gain_db: b(-24.0) });
    soundcourse.sequence.push(EffectNode::Gain { gain_db: b(24.0) });
    soundcourse.sequence.push(EffectNode::Delay {
        delay_ms: b(2_000.0),
        feedback: b(0.95),
    });
    soundcourse.sequence.push(EffectNode::Compressor {
        threshold: b(-60.0),
        ratio: b(20.0),
    });
    soundcourse.sequence.push(EffectNode::Compressor {
        threshold: b(-0.0),
        ratio: b(1.0),
    });
    assert!(validate_soundcourse(&soundcourse, ValidationMode::Strict, &show).is_ok());
}

#[test]
fn non_finite_parameters_are_rejected() {
    for bad in [f32::INFINITY, f32::NEG_INFINITY, f32::NAN] {
        let mut soundcourse = Soundcourse::new("Tester");
        soundcourse.sequence.push(EffectNode::Gain { gain_db: b(bad) });
        assert!(validate_soundcourse(&soundcourse, ValidationMode::Strict, &show).is_err());
    }
}

#[test]
fn gain_just_outside_range_is_rejected() {
    let mut soundcourse = Soundcourse::new("Tester");
    soundcourse.sequence.push(EffectNode::Gain { gain_db: b(24.5) });
    assert_eq!(
        validation_message(&soundcourse, ValidationMode::Strict),
        "effect 1 (Gain) parameter gain_db=24.5 is outside -24..=24"
    );
}
