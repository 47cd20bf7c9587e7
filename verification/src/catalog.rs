//! The table of effect parameters: name, unit, accepted range and default
//! of each parameter of each kind of effect, as Soundcourse v1 lists them.
use vstd::prelude::*;
use crate::floatbits::f32_in_range;
use crate::ontology::{default_node, kind_of, param_count, EffectKind, EffectNode};
use crate::validation::{
    effect_ok, param_ok, F32_0, F32_0_95, F32_1, F32_20, F32_2000, F32_20000, F32_24, F32_MINUS_24,
    F32_MINUS_60,
};

verus! {

/// One parameter of a kind of effect. Bounds and default are `f32` values,
/// carried as their bits.
#[derive(Debug, Clone)]
pub struct ParameterInfo {
    pub name: String,
    pub unit: String,
    pub min: u32,
    pub max: u32,
    pub default: u32,
}

/// The `type` value that names an effect of kind `k` in the INI form.
pub open spec fn effect_type_name(k: EffectKind) -> Seq<char> {
    match k {
        EffectKind::Reverb => "reverb"@,
        EffectKind::EQ => "eq"@,
        EffectKind::Delay => "delay"@,
        EffectKind::Compressor => "compressor"@,
        EffectKind::Gain => "gain"@,
    }
}

/// The name under which an effect of kind `k` is shown and reported.
pub open spec fn kind_label(k: EffectKind) -> Seq<char> {
    match k {
        EffectKind::Reverb => "Reverb"@,
        EffectKind::EQ => "EQ"@,
        EffectKind::Delay => "Delay"@,
        EffectKind::Compressor => "Compressor"@,
        EffectKind::Gain => "Gain"@,
    }
}

/// The name of parameter `i` of an effect of kind `k`, as the INI form
/// writes it.
pub open spec fn param_name(k: EffectKind, i: nat) -> Seq<char> {
    match k {
        EffectKind::Gain => "gain_db"@,
        EffectKind::EQ => if i == 0 { "frequency"@ } else { "gain"@ },
        EffectKind::Delay => if i == 0 { "delay_ms"@ } else { "feedback"@ },
        EffectKind::Reverb => if i == 0 { "room_size"@ } else { "dry_wet"@ },
        EffectKind::Compressor => if i == 0 { "threshold"@ } else { "ratio"@ },
    }
}

/// The unit of parameter `i` of an effect of kind `k`.
pub open spec fn param_unit(k: EffectKind, i: nat) -> Seq<char> {
    match k {
        EffectKind::Gain => "dB"@,
        EffectKind::EQ => if i == 0 { "Hz"@ } else { "dB"@ },
        EffectKind::Delay => if i == 0 { "ms"@ } else { "scalar"@ },
        EffectKind::Reverb => "scalar"@,
        EffectKind::Compressor => if i == 0 { "dB"@ } else { "scalar"@ },
    }
}

/// The accepted range `(min, max)` of parameter `i` of an effect of kind `k`.
pub open spec fn param_range(k: EffectKind, i: nat) -> (u32, u32) {
    match k {
        EffectKind::Gain => (F32_MINUS_24, F32_24),
        EffectKind::EQ => if i == 0 { (F32_20, F32_20000) } else { (F32_MINUS_24, F32_24) },
        EffectKind::Delay => if i == 0 { (F32_0, F32_2000) } else { (F32_0, F32_0_95) },
        EffectKind::Reverb => (F32_0, F32_1),
        EffectKind::Compressor => if i == 0 { (F32_MINUS_60, F32_0) } else { (F32_1, F32_20) },
    }
}

/// The value of parameter `i` of the effect `n`.
pub open spec fn param_value(n: EffectNode, i: nat) -> u32 {
    match n {
        EffectNode::Gain { gain_db } => gain_db,
        EffectNode::EQ { frequency, gain } => if i == 0 { frequency } else { gain },
        EffectNode::Delay { delay_ms, feedback } => if i == 0 { delay_ms } else { feedback },
        EffectNode::Reverb { room_size, dry_wet } => if i == 0 { room_size } else { dry_wet },
        EffectNode::Compressor { threshold, ratio } => if i == 0 { threshold } else { ratio },
    }
}

/// Whether `p` describes parameter `i` of kind `k`.
pub open spec fn describes(p: ParameterInfo, k: EffectKind, i: nat) -> bool {
    &&& p.name@ == param_name(k, i)
    &&& p.unit@ == param_unit(k, i)
    &&& (p.min, p.max) == param_range(k, i)
    &&& p.default == param_value(default_node(k), i)
}

fn info(name: &str, unit: &str, min: u32, max: u32, default: u32) -> (p: ParameterInfo)
    ensures
        p.name@ == name@,
        p.unit@ == unit@,
        p.min == min,
        p.max == max,
        p.default == default,
{
    ParameterInfo { name: String::from_str(name), unit: String::from_str(unit), min, max, default }
}

/// The parameters of an effect of kind `k`, in the order the effect holds
/// them.
pub fn parameters(k: EffectKind) -> (r: Vec<ParameterInfo>)
    ensures
        r@.len() == param_count(k),
        forall|i: int| 0 <= i < r@.len() ==> describes(#[trigger] r@[i], k, i as nat),
{
    let d = EffectNode::with_defaults(k);
    let mut r: Vec<ParameterInfo> = Vec::new();
    match d {
        EffectNode::Gain { gain_db } => {
            r.push(info("gain_db", "dB", F32_MINUS_24, F32_24, gain_db));
        },
        EffectNode::EQ { frequency, gain } => {
            r.push(info("frequency", "Hz", F32_20, F32_20000, frequency));
            r.push(info("gain", "dB", F32_MINUS_24, F32_24, gain));
        },
        EffectNode::Delay { delay_ms, feedback } => {
            r.push(info("delay_ms", "ms", F32_0, F32_2000, delay_ms));
            r.push(info("feedback", "scalar", F32_0, F32_0_95, feedback));
        },
        EffectNode::Reverb { room_size, dry_wet } => {
            r.push(info("room_size", "scalar", F32_0, F32_1, room_size));
            r.push(info("dry_wet", "scalar", F32_0, F32_1, dry_wet));
        },
        EffectNode::Compressor { threshold, ratio } => {
            r.push(info("threshold", "dB", F32_MINUS_60, F32_0, threshold));
            r.push(info("ratio", "scalar", F32_1, F32_20, ratio));
        },
    }
    r
}

/// Law: an effect passes the rules exactly when each of its parameters is
/// finite and within the range the table gives for it.
pub proof fn law_rules_are_the_table(n: EffectNode)
    ensures
        effect_ok(n) <==> forall|i: nat|
            i < param_count(kind_of(n)) ==> #[trigger] param_ok(
                param_value(n, i),
                param_range(kind_of(n), i).0,
                param_range(kind_of(n), i).1,
            ),
{
    let k = kind_of(n);
    if effect_ok(n) {
        assert forall|i: nat| i < param_count(k) implies #[trigger] param_ok(
            param_value(n, i),
            param_range(k, i).0,
            param_range(k, i).1,
        ) by {}
    } else {
        if param_count(k) == 1 {
            assert(!param_ok(param_value(n, 0), param_range(k, 0).0, param_range(k, 0).1));
        } else if !param_ok(param_value(n, 0), param_range(k, 0).0, param_range(k, 0).1) {
        } else {
            assert(!param_ok(param_value(n, 1), param_range(k, 1).0, param_range(k, 1).1));
        }
    }
}

/// Law: each default lies within its parameter's range.
pub proof fn law_defaults_within_ranges(k: EffectKind, i: nat)
    requires
        i < param_count(k),
    ensures
        f32_in_range(param_value(default_node(k), i), param_range(k, i).0, param_range(k, i).1),
{
}

} // verus!
