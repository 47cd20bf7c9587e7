//! The Soundcourse v1 parameter rules.
use vstd::prelude::*;
use crate::error::{joined, AmiximaError};
use crate::floatbits::{
    bits_in_range, bits_is_finite, f32_in_range, f32_is_finite, formatter_total, shows_as,
};
use crate::ontology::{EffectNode, Soundcourse};
use crate::text::{decimal, usize_text};

verus! {

/// How strictly a Soundcourse is checked: `Strict` is for processing,
/// `UiFriendly` for the editor, which accepts an empty chain and reports a
/// missing sample rate as a warning.
#[derive(Debug, Clone, Copy, PartialEq, Eq, Structural)]
pub enum ValidationMode {
    Strict,
    UiFriendly,
}

/// What a successful check has to say.
#[derive(Debug, Clone)]
pub struct ValidationReport {
    pub warnings: Vec<String>,
}

/// Bits of `-24.0`.
pub const F32_MINUS_24: u32 = 0xc1c0_0000;
/// Bits of `24.0`.
pub const F32_24: u32 = 0x41c0_0000;
/// Bits of `20.0`.
pub const F32_20: u32 = 0x41a0_0000;
/// Bits of `20000.0`.
pub const F32_20000: u32 = 0x469c_4000;
/// Bits of `0.0`.
pub const F32_0: u32 = 0x0000_0000;
/// Bits of `2000.0`.
pub const F32_2000: u32 = 0x44fa_0000;
/// Bits of `0.95`.
pub const F32_0_95: u32 = 0x3f73_3333;
/// Bits of `1.0`.
pub const F32_1: u32 = 0x3f80_0000;
/// Bits of `-60.0`.
pub const F32_MINUS_60: u32 = 0xc270_0000;
/// Bits of `8000.0`, the lowest accepted sample rate.
pub const F32_8000: u32 = 0x45fa_0000;
/// Bits of `192000.0`, the highest accepted sample rate.
pub const F32_192000: u32 = 0x483b_8000;

/// The message for a Soundcourse without effects under strict checking.
pub open spec fn empty_message() -> Seq<char> {
    "Soundcourse has no effects; add at least one effect before processing"@
}

/// The warning for a missing sample rate under editor checking.
pub open spec fn missing_rate_warning() -> Seq<char> {
    "sample rate is missing; processing will use decoded input rate"@
}

/// The message for a sample rate outside 8000..=192000 Hz.
pub open spec fn rate_message(rate: u32, disp: spec_fn(u32) -> Seq<char>) -> Seq<char> {
    "sample rate "@ + disp(rate) + " is outside 8000..=192000 Hz"@
}

/// Whether a parameter value is finite and within `min..=max`.
pub open spec fn param_ok(value: u32, min: u32, max: u32) -> bool {
    f32_is_finite(value) && f32_in_range(value, min, max)
}

/// The message for parameter `parameter` of effect number `index + 1`.
pub open spec fn range_message(
    index: nat,
    effect: Seq<char>,
    parameter: Seq<char>,
    value: u32,
    min: u32,
    max: u32,
    disp: spec_fn(u32) -> Seq<char>,
) -> Seq<char> {
    "effect "@ + decimal(index + 1) + " ("@ + effect + ") parameter "@ + parameter + "="@ + disp(
        value,
    ) + " is outside "@ + disp(min) + "..="@ + disp(max)
}

/// The first failing check of one parameter, if it fails.
pub open spec fn param_problem(
    index: nat,
    effect: Seq<char>,
    parameter: Seq<char>,
    value: u32,
    min: u32,
    max: u32,
    disp: spec_fn(u32) -> Seq<char>,
) -> Option<Seq<char>> {
    if param_ok(value, min, max) {
        None
    } else {
        Some(range_message(index, effect, parameter, value, min, max, disp))
    }
}

/// The first of two optional problems.
pub open spec fn first_problem(a: Option<Seq<char>>, b: Option<Seq<char>>) -> Option<Seq<char>> {
    if a is Some {
        a
    } else {
        b
    }
}

/// Whether every parameter of an effect lies in its documented range:
/// gain -24..=24 dB; EQ 20..=20000 Hz and -24..=24 dB; delay 0..=2000 ms
/// and feedback 0..=0.95; reverb room size and dry/wet 0..=1; compressor
/// threshold -60..=0 dB and ratio 1..=20.
pub open spec fn effect_ok(n: EffectNode) -> bool {
    match n {
        EffectNode::Gain { gain_db } => param_ok(gain_db, F32_MINUS_24, F32_24),
        EffectNode::EQ { frequency, gain } => param_ok(frequency, F32_20, F32_20000) && param_ok(
            gain,
            F32_MINUS_24,
            F32_24,
        ),
        EffectNode::Delay { delay_ms, feedback } => param_ok(delay_ms, F32_0, F32_2000) && param_ok(
            feedback,
            F32_0,
            F32_0_95,
        ),
        EffectNode::Reverb { room_size, dry_wet } => param_ok(room_size, F32_0, F32_1) && param_ok(
            dry_wet,
            F32_0,
            F32_1,
        ),
        EffectNode::Compressor { threshold, ratio } => param_ok(threshold, F32_MINUS_60, F32_0)
            && param_ok(ratio, F32_1, F32_20),
    }
}

/// The message for the first parameter of effect number `index + 1` that is
/// out of range, checked in declaration order.
pub open spec fn effect_problem(index: nat, n: EffectNode, disp: spec_fn(u32) -> Seq<char>) -> Option<
    Seq<char>,
> {
    match n {
        EffectNode::Gain { gain_db } => param_problem(
            index,
            "Gain"@,
            "gain_db"@,
            gain_db,
            F32_MINUS_24,
            F32_24,
            disp,
        ),
        EffectNode::EQ { frequency, gain } => first_problem(
            param_problem(index, "EQ"@, "frequency"@, frequency, F32_20, F32_20000, disp),
            param_problem(index, "EQ"@, "gain"@, gain, F32_MINUS_24, F32_24, disp),
        ),
        EffectNode::Delay { delay_ms, feedback } => first_problem(
            param_problem(index, "Delay"@, "delay_ms"@, delay_ms, F32_0, F32_2000, disp),
            param_problem(index, "Delay"@, "feedback"@, feedback, F32_0, F32_0_95, disp),
        ),
        EffectNode::Reverb { room_size, dry_wet } => first_problem(
            param_problem(index, "Reverb"@, "room_size"@, room_size, F32_0, F32_1, disp),
            param_problem(index, "Reverb"@, "dry_wet"@, dry_wet, F32_0, F32_1, disp),
        ),
        EffectNode::Compressor { threshold, ratio } => first_problem(
            param_problem(
                index,
                "Compressor"@,
                "threshold"@,
                threshold,
                F32_MINUS_60,
                F32_0,
                disp,
            ),
            param_problem(index, "Compressor"@, "ratio"@, ratio, F32_1, F32_20, disp),
        ),
    }
}

/// The message for the first effect from position `start` on that breaks a
/// rule.
pub open spec fn chain_problem(
    effects: Seq<EffectNode>,
    start: nat,
    disp: spec_fn(u32) -> Seq<char>,
) -> Option<Seq<char>>
    decreases effects.len() - start,
{
    if start >= effects.len() {
        None
    } else {
        first_problem(
            effect_problem(start, effects[start as int], disp),
            chain_problem(effects, start + 1, disp),
        )
    }
}

/// Whether a Soundcourse passes the check in `mode`: strict checking needs
/// at least one effect; a sample rate, when present, lies in
/// 8000..=192000 Hz; every effect passes `effect_ok`.
pub open spec fn soundcourse_ok(sc: Soundcourse, mode: ValidationMode) -> bool {
    &&& !(mode == ValidationMode::Strict && sc.sequence@.len() == 0)
    &&& (sc.sample_rate matches Some(r) ==> f32_in_range(r, F32_8000, F32_192000))
    &&& forall|i: int| 0 <= i < sc.sequence@.len() ==> effect_ok(#[trigger] sc.sequence@[i])
}

/// The outcome of checking `sc` in `mode`: the warnings, or the message of
/// the first rule broken (emptiness, then sample rate, then effects in order).
pub open spec fn validation_outcome(
    sc: Soundcourse,
    mode: ValidationMode,
    disp: spec_fn(u32) -> Seq<char>,
) -> Result<Seq<Seq<char>>, Seq<char>> {
    if mode == ValidationMode::Strict && sc.sequence@.len() == 0 {
        Err(empty_message())
    } else if sc.sample_rate matches Some(r) && !f32_in_range(r, F32_8000, F32_192000) {
        Err(rate_message(sc.sample_rate->0, disp))
    } else if chain_problem(sc.sequence@, 0, disp) is Some {
        Err(chain_problem(sc.sequence@, 0, disp)->0)
    } else if sc.sample_rate is None && mode == ValidationMode::UiFriendly {
        Ok(seq![missing_rate_warning()])
    } else {
        Ok(Seq::empty())
    }
}

/// Whether a check's result is the outcome `o`.
pub open spec fn report_is(
    res: Result<ValidationReport, AmiximaError>,
    o: Result<Seq<Seq<char>>, Seq<char>>,
) -> bool {
    match res {
        Ok(report) => o matches Ok(w) && report.warnings@.map_values(|s: String| s@) == w,
        Err(AmiximaError::Validation(m)) => o == Err::<Seq<Seq<char>>, Seq<char>>(m@),
        Err(_) => false,
    }
}

/// Checks that one parameter is finite and within `min..=max`.
fn check_range<G: Fn(u32) -> String>(
    index: usize,
    effect: &str,
    parameter: &str,
    value: u32,
    min: u32,
    max: u32,
    show: &G,
) -> (res: Result<(), AmiximaError>)
    requires
        index < usize::MAX,
        formatter_total(*show),
    ensures
        res is Ok <==> param_ok(value, min, max),
        res matches Err(e) ==> e is Validation,
        forall|disp: spec_fn(u32) -> Seq<char>|
            #[trigger] shows_as(*show, disp) ==> match res {
                Ok(_) => true,
                Err(AmiximaError::Validation(m)) => m@ == range_message(
                    index as nat,
                    effect@,
                    parameter@,
                    value,
                    min,
                    max,
                    disp,
                ),
                Err(_) => false,
            },
{
    if bits_is_finite(value) && bits_in_range(value, min, max) {
        Ok(())
    } else {
        let number = usize_text(index + 1);
        let v = show(value);
        let lo = show(min);
        let hi = show(max);
        let m = joined("effect ", number.as_str());
        let m = m.concat(" (");
        let m = m.concat(effect);
        let m = m.concat(") parameter ");
        let m = m.concat(parameter);
        let m = m.concat("=");
        let m = m.concat(v.as_str());
        let m = m.concat(" is outside ");
        let m = m.concat(lo.as_str());
        let m = m.concat("..=");
        let m = m.concat(hi.as_str());
        let res = Err(AmiximaError::Validation(m));
        assert forall|disp: spec_fn(u32) -> Seq<char>| #[trigger] shows_as(*show, disp) implies match res {
            Ok(_) => true,
            Err(AmiximaError::Validation(m)) => m@ == range_message(
                index as nat,
                effect@,
                parameter@,
                value,
                min,
                max,
                disp,
            ),
            Err(_) => false,
        } by {
            assert(call_ensures(*show, (value,), v));
            assert(call_ensures(*show, (min,), lo));
            assert(call_ensures(*show, (max,), hi));
        }
        res
    }
}


/// An effect that passes has no problem, whatever the formatter.
proof fn lemma_effect_problem_iff(index: nat, n: EffectNode, disp: spec_fn(u32) -> Seq<char>)
    ensures
        effect_problem(index, n, disp) is None <==> effect_ok(n),
{
}

/// Effects before `k` that pass leave the first problem where it is.
proof fn lemma_chain_skip(effects: Seq<EffectNode>, k: nat, disp: spec_fn(u32) -> Seq<char>)
    requires
        k <= effects.len(),
        forall|j: int| 0 <= j < k ==> effect_ok(#[trigger] effects[j]),
    ensures
        chain_problem(effects, 0, disp) == chain_problem(effects, k, disp),
    decreases k,
{
    if k > 0 {
        lemma_chain_skip(effects, (k - 1) as nat, disp);
        lemma_effect_problem_iff((k - 1) as nat, effects[k - 1], disp);
    }
}

/// Checks one effect's parameters against the documented ranges, in order.
fn validate_effect<G: Fn(u32) -> String>(index: usize, effect: &EffectNode, show: &G) -> (res: Result<
    (),
    AmiximaError,
>)
    requires
        index < usize::MAX,
        formatter_total(*show),
    ensures
        res is Ok <==> effect_ok(*effect),
        res matches Err(e) ==> e is Validation,
        forall|disp: spec_fn(u32) -> Seq<char>|
            #[trigger] shows_as(*show, disp) ==> match res {
                Ok(_) => effect_problem(index as nat, *effect, disp) is None,
                Err(AmiximaError::Validation(m)) => effect_problem(index as nat, *effect, disp)
                    == Some(m@),
                Err(_) => false,
            },
{
    proof {
        reveal_strlit("Gain");
        reveal_strlit("EQ");
        reveal_strlit("Delay");
        reveal_strlit("Reverb");
        reveal_strlit("Compressor");
    }
    match effect {
        EffectNode::Gain { gain_db } => check_range(
            index,
            "Gain",
            "gain_db",
            *gain_db,
            F32_MINUS_24,
            F32_24,
            show,
        ),
        EffectNode::EQ { frequency, gain } => {
            let r = check_range(index, "EQ", "frequency", *frequency, F32_20, F32_20000, show);
            if r.is_err() {
                return r;
            }
            check_range(index, "EQ", "gain", *gain, F32_MINUS_24, F32_24, show)
        },
        EffectNode::Delay { delay_ms, feedback } => {
            let r = check_range(index, "Delay", "delay_ms", *delay_ms, F32_0, F32_2000, show);
            if r.is_err() {
                return r;
            }
            check_range(index, "Delay", "feedback", *feedback, F32_0, F32_0_95, show)
        },
        EffectNode::Reverb { room_size, dry_wet } => {
            let r = check_range(index, "Reverb", "room_size", *room_size, F32_0, F32_1, show);
            if r.is_err() {
                return r;
            }
            check_range(index, "Reverb", "dry_wet", *dry_wet, F32_0, F32_1, show)
        },
        EffectNode::Compressor { threshold, ratio } => {
            let r = check_range(
                index,
                "Compressor",
                "threshold",
                *threshold,
                F32_MINUS_60,
                F32_0,
                show,
            );
            if r.is_err() {
                return r;
            }
            check_range(index, "Compressor", "ratio", *ratio, F32_1, F32_20, show)
        },
    }
}

/// Checks a Soundcourse against the Soundcourse v1 rules. Strict checking
/// refuses an empty chain; a sample rate must lie in 8000..=192000 Hz; every
/// parameter must be finite and in its documented range. Editor checking
/// warns when the sample rate is missing. `show` writes an `f32` (given by
/// its bits) into the messages.
pub fn validate_soundcourse<G: Fn(u32) -> String>(
    soundcourse: &Soundcourse,
    mode: ValidationMode,
    show: &G,
) -> (res: Result<ValidationReport, AmiximaError>)
    requires
        formatter_total(*show),
    ensures
        res is Ok <==> soundcourse_ok(*soundcourse, mode),
        res matches Err(e) ==> e is Validation,
        forall|disp: spec_fn(u32) -> Seq<char>|
            #[trigger] shows_as(*show, disp) ==> report_is(
                res,
                validation_outcome(*soundcourse, mode, disp),
            ),
{
    proof {
        reveal_strlit("Soundcourse has no effects; add at least one effect before processing");
        reveal_strlit("sample rate ");
        reveal_strlit(" is outside 8000..=192000 Hz");
        reveal_strlit("sample rate is missing; processing will use decoded input rate");
    }
    let mut warnings: Vec<String> = Vec::new();
    if matches!(mode, ValidationMode::Strict) && soundcourse.is_empty() {
        return Err(
            AmiximaError::Validation(
                String::from_str(
                    "Soundcourse has no effects; add at least one effect before processing",
                ),
            ),
        );
    }
    match soundcourse.sample_rate {
        Some(rate) => {
            if !bits_in_range(rate, F32_8000, F32_192000) {
                let text = show(rate);
                let m = joined("sample rate ", text.as_str());
                let m = m.concat(" is outside 8000..=192000 Hz");
                let res = Err(AmiximaError::Validation(m));
                assert forall|disp: spec_fn(u32) -> Seq<char>| #[trigger]
                    shows_as(*show, disp) implies report_is(
                    res,
                    validation_outcome(*soundcourse, mode, disp),
                ) by {
                    assert(call_ensures(*show, (rate,), text));
                }
                return res;
            }
        },
        None => {
            if matches!(mode, ValidationMode::UiFriendly) {
                warnings.push(
                    String::from_str("sample rate is missing; processing will use decoded input rate"),
                );
            }
        },
    }
    let n = soundcourse.sequence.len();
    let mut i: usize = 0;
    while i < n
        invariant
            n == soundcourse.sequence@.len(),
            i <= n,
            forall|j: int| 0 <= j < i ==> effect_ok(#[trigger] soundcourse.sequence@[j]),
            formatter_total(*show),
            !(mode == ValidationMode::Strict && soundcourse.sequence@.len() == 0),
            soundcourse.sample_rate matches Some(r) ==> f32_in_range(r, F32_8000, F32_192000),
            warnings@.map_values(|s: String| s@) == (if soundcourse.sample_rate is None && mode
                == ValidationMode::UiFriendly {
                seq![missing_rate_warning()]
            } else {
                Seq::<Seq<char>>::empty()
            }),
        decreases n - i,
    {
        let r = validate_effect(i, &soundcourse.sequence[i], show);
        match r {
            Ok(()) => {},
            Err(e) => {
                let res = Err(e);
                assert forall|disp: spec_fn(u32) -> Seq<char>| #[trigger]
                    shows_as(*show, disp) implies report_is(
                    res,
                    validation_outcome(*soundcourse, mode, disp),
                ) by {
                    lemma_chain_skip(soundcourse.sequence@, i as nat, disp);
                }
                return res;
            },
        }
        i = i + 1;
    }
    let res = Ok(ValidationReport { warnings });
    assert forall|disp: spec_fn(u32) -> Seq<char>| #[trigger] shows_as(*show, disp) implies report_is(
        res,
        validation_outcome(*soundcourse, mode, disp),
    ) by {
        lemma_chain_skip(soundcourse.sequence@, n as nat, disp);
    }
    res
}


/// Whether one parameter is finite and within `min..=max`.
fn param_passes(value: u32, min: u32, max: u32) -> (r: bool)
    ensures
        r == param_ok(value, min, max),
{
    bits_is_finite(value) && bits_in_range(value, min, max)
}

/// Whether an effect passes the rules (see `effect_ok`).
pub fn effect_passes(n: &EffectNode) -> (r: bool)
    ensures
        r == effect_ok(*n),
{
    match n {
        EffectNode::Gain { gain_db } => param_passes(*gain_db, F32_MINUS_24, F32_24),
        EffectNode::EQ { frequency, gain } => param_passes(*frequency, F32_20, F32_20000)
            && param_passes(*gain, F32_MINUS_24, F32_24),
        EffectNode::Delay { delay_ms, feedback } => param_passes(*delay_ms, F32_0, F32_2000)
            && param_passes(*feedback, F32_0, F32_0_95),
        EffectNode::Reverb { room_size, dry_wet } => param_passes(*room_size, F32_0, F32_1)
            && param_passes(*dry_wet, F32_0, F32_1),
        EffectNode::Compressor { threshold, ratio } => param_passes(*threshold, F32_MINUS_60, F32_0)
            && param_passes(*ratio, F32_1, F32_20),
    }
}

/// Whether a Soundcourse passes the check in `mode` (see `soundcourse_ok`),
/// without building messages.
pub fn soundcourse_passes(sc: &Soundcourse, mode: ValidationMode) -> (r: bool)
    ensures
        r == soundcourse_ok(*sc, mode),
{
    if matches!(mode, ValidationMode::Strict) && sc.sequence.len() == 0 {
        return false;
    }
    match sc.sample_rate {
        Some(rate) => {
            if !bits_in_range(rate, F32_8000, F32_192000) {
                return false;
            }
        },
        None => {},
    }
    let mut i: usize = 0;
    while i < sc.sequence.len()
        invariant
            i <= sc.sequence@.len(),
            forall|j: int| 0 <= j < i ==> effect_ok(#[trigger] sc.sequence@[j]),
        decreases sc.sequence@.len() - i,
    {
        if !effect_passes(&sc.sequence[i]) {
            return false;
        }
        i = i + 1;
    }
    true
}

/// Law: every effect with its default parameters (as the palette adds it
/// and lenient parsing fills it in) passes the rules, and so does the
/// sample rate of a new Soundcourse.
pub proof fn law_defaults_are_valid(k: crate::ontology::EffectKind)
    ensures
        effect_ok(crate::ontology::default_node(k)),
        f32_in_range(crate::ontology::F32_CD_RATE, F32_8000, F32_192000),
{
}

/// Law: what passes strict checking passes editor checking.
pub proof fn law_strict_implies_ui_friendly(sc: Soundcourse)
    requires
        soundcourse_ok(sc, ValidationMode::Strict),
    ensures
        soundcourse_ok(sc, ValidationMode::UiFriendly),
{
}

} // verus!
