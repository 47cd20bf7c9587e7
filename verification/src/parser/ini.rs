//! The INI form of a Soundcourse.
//!
//! A `[metadata]` section holds `title`, `description` and `sample_rate`;
//! each effect is a section `[effectN]` with a `type` and its parameters.
//! Effects are applied in the order of their section numbers.
use vstd::prelude::*;
use configparser::ini::Ini;
use crate::error::{opt_text, AmiximaError};
use crate::floatbits::{decodes_as, decoded_view, decoder_total};
use crate::ini_config::{ini_contents, ini_document, ini_parse_text, ini_value};
use crate::ini_doc::{doc_well_formed, has_section, section_index, IniDoc};
use crate::ontology::{
    EffectKind, EffectNode, F32_FOUR, F32_HALF, F32_HUNDRED, F32_MINUS_TWENTY, F32_POINT_THREE,
    F32_THOUSAND, F32_ZERO,
};
use crate::text::{has_prefix, lower_text, lowercase, parse_u32, starts_with, u32_text_value};

verus! {

broadcast use crate::text::lemma_lower_text_fixed;

/// What an INI document holds, section by section and key by key.
pub type IniMap = Map<Seq<char>, Map<Seq<char>, Option<Seq<char>>>>;

/// How INI input that leaves something out is treated.
#[derive(Debug, Clone, Copy, PartialEq, Eq, Structural)]
pub enum IniParseMode {
    /// An effect section without a `type`, or without one of its
    /// parameters, is an error.
    Strict,
    /// An effect section without a `type` is skipped, and a missing
    /// parameter takes its default.
    Lenient,
}

/// The names in a vector of strings.
pub open spec fn names(v: Seq<String>) -> Seq<Seq<char>> {
    v.map_values(|s: String| s@)
}

/// Whether a section describes an effect: its name starts with `effect`.
pub open spec fn is_effect_section(s: Seq<char>) -> bool {
    has_prefix(s, "effect"@)
}

/// Whether a section takes part in the chain: every section does in the
/// legacy reading, only effect sections do otherwise.
pub open spec fn counts_as_section(s: Seq<char>, legacy: bool) -> bool {
    legacy || is_effect_section(s)
}

/// The number after `effect` in a section name, as `str::parse::<u32>`
/// reads it. A name without one sorts last, or first in the legacy reading.
pub open spec fn section_number(s: Seq<char>, legacy: bool) -> u32 {
    if is_effect_section(s) && u32_text_value(s.skip(6)) is Some {
        u32_text_value(s.skip(6))->0
    } else if legacy {
        0
    } else {
        u32::MAX
    }
}

/// `order` lists each section of `m` that counts exactly once, by
/// ascending section number. Sections with equal numbers may come in any
/// order.
pub open spec fn is_section_order(m: IniMap, order: Seq<Seq<char>>, legacy: bool) -> bool {
    &&& forall|i: int|
        0 <= i < order.len() ==> m.contains_key(#[trigger] order[i]) && counts_as_section(
            order[i],
            legacy,
        )
    &&& forall|s: Seq<char>|
        #[trigger] m.contains_key(s) && counts_as_section(s, legacy) ==> order.contains(s)
    &&& forall|i: int, j: int| 0 <= i < j < order.len() ==> #[trigger] order[i] != #[trigger] order[j]
    &&& forall|i: int, j: int|
        0 <= i <= j < order.len() ==> section_number(#[trigger] order[i], legacy)
            <= section_number(#[trigger] order[j], legacy)
}


/// The number after `effect` in an effect section's name (see
/// `section_number`).
fn effect_section_number(name: &str, legacy: bool) -> (n: u32)
    ensures
        n == section_number(name@, legacy),
{
    proof {
        reveal_strlit("effect");
    }
    let fallback = if legacy {
        0
    } else {
        u32::MAX
    };
    if !starts_with(name, "effect") {
        return fallback;
    }
    let len = name.unicode_len();
    let rest = name.substring_char(6, len);
    assert(rest@ == name@.skip(6));
    match parse_u32(rest) {
        Some(n) => n,
        None => fallback,
    }
}

/// Section numbers never decrease along `order`.
pub open spec fn numbers_sorted(order: Seq<Seq<char>>, legacy: bool) -> bool {
    forall|a: int, b: int|
        0 <= a <= b < order.len() ==> section_number(#[trigger] order[a], legacy)
            <= section_number(#[trigger] order[b], legacy)
}

/// No name occurs twice in `order`.
pub open spec fn distinct_names(order: Seq<Seq<char>>) -> bool {
    forall|a: int, b: int| 0 <= a < b < order.len() ==> #[trigger] order[a] != #[trigger] order[b]
}

/// Every name of `order` is an effect section of `m`.
pub open spec fn effect_sections_of(order: Seq<Seq<char>>, m: IniMap, legacy: bool) -> bool {
    forall|j: int|
        0 <= j < order.len() ==> m.contains_key(#[trigger] order[j]) && counts_as_section(order[j], legacy)
}

/// Every effect section among `seen` is in `order`, and every name of
/// `order` is among `seen`.
pub open spec fn gathers(order: Seq<Seq<char>>, seen: Seq<Seq<char>>, legacy: bool) -> bool {
    &&& forall|k: int|
        0 <= k < seen.len() && counts_as_section(#[trigger] seen[k], legacy) ==> order.contains(seen[k])
    &&& forall|j: int| 0 <= j < order.len() ==> seen.contains(#[trigger] order[j])
}

/// Inserting a new effect section at its place by number keeps the order.
proof fn lemma_insert_section(
    legacy: bool,
    order: Seq<Seq<char>>,
    seen: Seq<Seq<char>>,
    m: IniMap,
    x: Seq<char>,
    p: int,
)
    requires
        0 <= p <= order.len(),
        numbers_sorted(order, legacy),
        distinct_names(order),
        effect_sections_of(order, m, legacy),
        gathers(order, seen, legacy),
        !seen.contains(x),
        m.contains_key(x),
        counts_as_section(x, legacy),
        forall|j: int| 0 <= j < p ==> section_number(#[trigger] order[j], legacy) <= section_number(x, legacy),
        forall|j: int| p <= j < order.len() ==> section_number(x, legacy) < section_number(#[trigger] order[j], legacy),
    ensures
        numbers_sorted(order.insert(p, x), legacy),
        distinct_names(order.insert(p, x)),
        effect_sections_of(order.insert(p, x), m, legacy),
        gathers(order.insert(p, x), seen.push(x), legacy),
{
    let o = order.insert(p, x);
    assert(o.len() == order.len() + 1);
    assert forall|j: int| 0 <= j < o.len() implies #[trigger] o[j] == (if j < p {
        order[j]
    } else if j == p {
        x
    } else {
        order[j - 1]
    }) by {}
    assert forall|a: int, b: int| 0 <= a <= b < o.len() implies section_number(#[trigger] o[a], legacy)
        <= section_number(#[trigger] o[b], legacy) by {
        if a < p && b > p {
            assert(section_number(order[a], legacy) <= section_number(order[b - 1], legacy));
        } else if a > p {
            assert(section_number(order[a - 1], legacy) <= section_number(order[b - 1], legacy));
        }
    }
    assert forall|a: int, b: int| 0 <= a < b < o.len() implies #[trigger] o[a] != #[trigger] o[b] by {
        if a == p {
            assert(seen.contains(order[b - 1]));
        } else if b == p {
            assert(seen.contains(order[a]));
        } else if a < p && b > p {
            assert(order[a] != order[b - 1]);
        } else if a > p {
            assert(order[a - 1] != order[b - 1]);
        }
    }
    let seen2 = seen.push(x);
    assert forall|k: int| 0 <= k < seen2.len() && counts_as_section(#[trigger] seen2[k], legacy) implies o.contains(
        seen2[k],
    ) by {
        if k == seen.len() {
            assert(o[p] == x);
        } else {
            assert(seen2[k] == seen[k]);
            assert(order.contains(seen[k]));
            let q = choose|q: int| 0 <= q < order.len() && order[q] == seen[k];
            if q < p {
                assert(o[q] == seen[k]);
            } else {
                assert(o[q + 1] == seen[k]);
            }
        }
    }
    assert forall|j: int| 0 <= j < o.len() implies seen2.contains(#[trigger] o[j]) by {
        if j == p {
            assert(seen2[seen.len() as int] == x);
        } else {
            let oj = if j < p { order[j] } else { order[j - 1] };
            assert(seen.contains(oj));
            let q = choose|q: int| 0 <= q < seen.len() && seen[q] == oj;
            assert(seen2[q] == oj);
        }
    }
}

/// Inserts `name` with number `key` after every entry numbered at most
/// `key`, keeping `keys` in step with `out`.
fn insert_by_number(out: &mut Vec<String>, keys: &mut Vec<u32>, name: String, key: u32) -> (p: usize)
    requires
        old(out)@.len() == old(keys)@.len(),
        forall|a: int, b: int|
            0 <= a <= b < old(keys)@.len() ==> #[trigger] old(keys)@[a] <= #[trigger] old(keys)@[b],
    ensures
        p <= old(out)@.len(),
        final(out)@ == old(out)@.insert(p as int, name),
        final(keys)@ == old(keys)@.insert(p as int, key),
        forall|j: int| 0 <= j < p ==> #[trigger] old(keys)@[j] <= key,
        forall|j: int| p <= j < old(keys)@.len() ==> key < #[trigger] old(keys)@[j],
{
    let mut p: usize = 0;
    while p < keys.len() && keys[p] <= key
        invariant
            p <= keys@.len(),
            forall|j: int| 0 <= j < p ==> #[trigger] keys@[j] <= key,
        decreases keys@.len() - p,
    {
        p = p + 1;
    }
    assert forall|j: int| p <= j < keys@.len() implies key < #[trigger] keys@[j] by {
        assert(keys@[p as int] <= keys@[j]);
    }
    out.insert(p, name);
    keys.insert(p, key);
    p
}

/// Whether sections with equal numbers come in `order` as they come in the
/// document `d`.
pub open spec fn keeps_doc_order(d: IniDoc, order: Seq<Seq<char>>, legacy: bool) -> bool {
    forall|a: int, b: int|
        0 <= a < b < order.len() && section_number(#[trigger] order[a], legacy) == section_number(
            #[trigger] order[b],
            legacy,
        ) ==> section_index(d, order[a]) < section_index(d, order[b])
}

/// The order in which the sections of `d` are read: by section number, and
/// as the document lists them where numbers are equal.
pub open spec fn reading_order(d: IniDoc, order: Seq<Seq<char>>, legacy: bool) -> bool {
    is_section_order(d@, order, legacy) && keeps_doc_order(d, order, legacy)
}

/// The effect sections of `config`, ordered by section number. Sections
/// with equal numbers keep the order in which the document lists them.
pub(crate) fn sorted_sections(config: &IniDoc, legacy: bool) -> (r: Vec<String>)
    requires
        doc_well_formed(*config),
    ensures
        reading_order(*config, names(r@), legacy),
{
    proof {
        reveal_strlit("effect");
    }
    let ghost m = config@;
    let all = config.section_names();
    let ghost all_names = names(all@);
    assert forall|j: int| 0 <= j < all@.len() implies m.contains_key(#[trigger] all@[j]@) by {
        assert(config.sections@[j].name@ == all@[j]@);
        assert(has_section(*config, all@[j]@));
    }
    assert forall|a: int, b: int| 0 <= a < b < all@.len() implies #[trigger] all@[a]@ != #[trigger] all@[b]@ by {
        assert(config.sections@[a].name@ == all@[a]@);
        assert(config.sections@[b].name@ == all@[b]@);
    }
    assert forall|k: int| 0 <= k < all@.len() implies section_index(*config, #[trigger] all@[k]@) == k by {
        assert(config.sections@[k].name@ == all@[k]@);
        assert(has_section(*config, all@[k]@));
        let c = section_index(*config, all@[k]@);
        assert(config.sections@[c].name@ == all@[k]@);
    }
    let mut out: Vec<String> = Vec::new();
    let mut keys: Vec<u32> = Vec::new();
    let mut i: usize = 0;
    assert(names(out@) =~= Seq::<Seq<char>>::empty());
    while i < all.len()
        invariant
            m == config@,
            all_names == names(all@),
            i <= all@.len(),
            forall|j: int| 0 <= j < all@.len() ==> m.contains_key(#[trigger] all@[j]@),
            forall|a: int, b: int|
                0 <= a < b < all@.len() ==> #[trigger] all@[a]@ != #[trigger] all@[b]@,
            out@.len() == keys@.len(),
            forall|j: int| 0 <= j < out@.len() ==> keys@[j] == section_number(#[trigger] out@[j]@, legacy),
            forall|a: int, b: int|
                0 <= a <= b < keys@.len() ==> #[trigger] keys@[a] <= #[trigger] keys@[b],
            numbers_sorted(names(out@), legacy),
            distinct_names(names(out@)),
            effect_sections_of(names(out@), m, legacy),
            gathers(names(out@), all_names.take(i as int), legacy),
            forall|k: int| 0 <= k < all@.len() ==> section_index(*config, #[trigger] all@[k]@) == k,
            forall|j: int| 0 <= j < out@.len() ==> section_index(*config, #[trigger] out@[j]@) < i,
            keeps_doc_order(*config, names(out@), legacy),
        decreases all@.len() - i,
    {
        let name = &all[i];
        assert(all_names.take(i as int + 1) =~= all_names.take(i as int).push(name@));
        if legacy || starts_with(name.as_str(), "effect") {
            let key = effect_section_number(name.as_str(), legacy);
            let ghost old_out = out@;
            let ghost old_keys = keys@;
            assert(!all_names.take(i as int).contains(name@)) by {
                if all_names.take(i as int).contains(name@) {
                    let q = choose|q: int| 0 <= q < i && all_names.take(i as int)[q] == name@;
                    assert(all@[q]@ != all@[i as int]@);
                }
            }
            let p = insert_by_number(&mut out, &mut keys, name.clone(), key);
            proof {
                assert(names(out@) =~= names(old_out).insert(p as int, name@));
                lemma_insert_section(
                    legacy,
                    names(old_out),
                    all_names.take(i as int),
                    m,
                    name@,
                    p as int,
                );
                assert forall|j: int| 0 <= j < out@.len() implies keys@[j] == section_number(
                    #[trigger] out@[j]@,
                    legacy,
                ) by {
                    if j < p {
                        assert(out@[j] == old_out[j]);
                    } else if j > p {
                        assert(out@[j] == old_out[j - 1]);
                    }
                }
                assert(section_index(*config, all@[i as int]@) == i);
                assert forall|j: int| 0 <= j < out@.len() implies section_index(
                    *config,
                    #[trigger] out@[j]@,
                ) < i + 1 by {
                    if j < p {
                        assert(out@[j] == old_out[j]);
                    } else if j > p {
                        assert(out@[j] == old_out[j - 1]);
                    }
                }
                let o = names(out@);
                let w = names(old_out);
                assert forall|a: int, b: int|
                    0 <= a < b < o.len() && section_number(#[trigger] o[a], legacy) == section_number(
                        #[trigger] o[b],
                        legacy,
                    ) implies section_index(*config, o[a]) < section_index(*config, o[b]) by {
                    assert(keys@[a] == section_number(out@[a]@, legacy));
                    assert(keys@[b] == section_number(out@[b]@, legacy));
                    if b < p {
                        assert(o[a] == w[a] && o[b] == w[b]);
                    } else if b == p {
                        assert(o[a] == w[a]);
                        assert(old_out[a] == out@[a]);
                    } else if a == p {
                        assert(keys@[b] == old_keys[b - 1]);
                    } else if a < p {
                        assert(o[a] == w[a] && o[b] == w[b - 1]);
                    } else {
                        assert(o[a] == w[a - 1] && o[b] == w[b - 1]);
                    }
                }
            }
        } else {
            assert(gathers(names(out@), all_names.take(i as int + 1), legacy)) by {
                let seen = all_names.take(i as int + 1);
                assert forall|j: int| 0 <= j < names(out@).len() implies seen.contains(
                    #[trigger] names(out@)[j],
                ) by {
                    assert(all_names.take(i as int).contains(names(out@)[j]));
                    let q = choose|q: int| 0 <= q < i && all_names.take(i as int)[q] == names(out@)[j];
                    assert(seen[q] == names(out@)[j]);
                }
            }
        }
        i = i + 1;
    }
    let ghost order = names(out@);
    assert(all_names.take(all@.len() as int) =~= all_names);
    assert forall|s: Seq<char>| #[trigger] m.contains_key(s) && counts_as_section(s, legacy) implies order.contains(s) by {
        assert(has_section(*config, s));
        let k = choose|k: int| 0 <= k < config.sections@.len() && #[trigger] config.sections@[k].name@ == s;
        assert(all@[k]@ == s);
        assert(all_names[k] == s);
    }
    out
}


/// The message of a parser error; other errors are described in full.
pub open spec fn parser_message(e: AmiximaError) -> Seq<char> {
    match e {
        AmiximaError::Parser(m) => m@,
        _ => crate::error::error_text(e),
    }
}

/// A result seen as a value or the message of its parser error.
pub open spec fn as_outcome<T>(r: Result<T, AmiximaError>) -> Result<T, Seq<char>> {
    match r {
        Ok(x) => Ok(x),
        Err(e) => Err(parser_message(e)),
    }
}

/// The message for an effect section without `type`.
pub open spec fn missing_type_message(section: Seq<char>) -> Seq<char> {
    section + " is missing required type"@
}

/// The message for an effect section whose `type` names no effect.
pub open spec fn unknown_type_message(section: Seq<char>, effect_type: Seq<char>) -> Seq<char> {
    section + " has unknown effect type "@ + effect_type
}

/// The message for a parameter missing under strict parsing.
pub open spec fn missing_parameter_message(section: Seq<char>, key: Seq<char>) -> Seq<char> {
    section + " is missing required parameter "@ + key
}

/// The message for a value that does not decode as a number.
pub open spec fn bad_number_message(section: Seq<char>, key: Seq<char>, why: Seq<char>) -> Seq<char> {
    section + "."@ + key + ": "@ + why
}

/// The number at `section` / `key`: absent, decoded by `dec`, or an error
/// naming the place and the decoder's message.
pub open spec fn optional_number(
    m: IniMap,
    section: Seq<char>,
    key: Seq<char>,
    dec: spec_fn(Seq<char>) -> Result<u32, Seq<char>>,
) -> Result<Option<u32>, Seq<char>> {
    match ini_value(m, section, key) {
        None => Ok(None),
        Some(t) => match dec(t) {
            Ok(b) => Ok(Some(b)),
            Err(why) => Err(bad_number_message(section, key, why)),
        },
    }
}

/// A parameter: its decoded value; when absent, `default` under lenient
/// parsing and an error under strict parsing.
pub open spec fn param_number(
    m: IniMap,
    section: Seq<char>,
    key: Seq<char>,
    default: u32,
    mode: IniParseMode,
    dec: spec_fn(Seq<char>) -> Result<u32, Seq<char>>,
) -> Result<u32, Seq<char>> {
    match optional_number(m, section, key, dec) {
        Err(e) => Err(e),
        Ok(Some(b)) => Ok(b),
        Ok(None) => if mode == IniParseMode::Lenient {
            Ok(default)
        } else {
            Err(missing_parameter_message(section, key))
        },
    }
}

/// The effect kind that a lower-case `type` value names.
pub open spec fn kind_named(t: Seq<char>) -> Option<EffectKind> {
    if t == "reverb"@ {
        Some(EffectKind::Reverb)
    } else if t == "eq"@ {
        Some(EffectKind::EQ)
    } else if t == "delay"@ {
        Some(EffectKind::Delay)
    } else if t == "compressor"@ {
        Some(EffectKind::Compressor)
    } else if t == "gain"@ {
        Some(EffectKind::Gain)
    } else {
        None
    }
}

/// The effect of kind `k` read from `section`: its parameters in
/// declaration order, the first error winning.
pub open spec fn node_from(
    m: IniMap,
    section: Seq<char>,
    k: EffectKind,
    mode: IniParseMode,
    dec: spec_fn(Seq<char>) -> Result<u32, Seq<char>>,
) -> Result<EffectNode, Seq<char>> {
    match k {
        EffectKind::Reverb => match param_number(m, section, "room_size"@, F32_HALF, mode, dec) {
            Err(e) => Err(e),
            Ok(a) => match param_number(m, section, "dry_wet"@, F32_POINT_THREE, mode, dec) {
                Err(e) => Err(e),
                Ok(b) => Ok(EffectNode::Reverb { room_size: a, dry_wet: b }),
            },
        },
        EffectKind::EQ => match param_number(m, section, "frequency"@, F32_THOUSAND, mode, dec) {
            Err(e) => Err(e),
            Ok(a) => match param_number(m, section, "gain"@, F32_ZERO, mode, dec) {
                Err(e) => Err(e),
                Ok(b) => Ok(EffectNode::EQ { frequency: a, gain: b }),
            },
        },
        EffectKind::Delay => match param_number(m, section, "delay_ms"@, F32_HUNDRED, mode, dec) {
            Err(e) => Err(e),
            Ok(a) => match param_number(m, section, "feedback"@, F32_HALF, mode, dec) {
                Err(e) => Err(e),
                Ok(b) => Ok(EffectNode::Delay { delay_ms: a, feedback: b }),
            },
        },
        EffectKind::Compressor => match param_number(
            m,
            section,
            "threshold"@,
            F32_MINUS_TWENTY,
            mode,
            dec,
        ) {
            Err(e) => Err(e),
            Ok(a) => match param_number(m, section, "ratio"@, F32_FOUR, mode, dec) {
                Err(e) => Err(e),
                Ok(b) => Ok(EffectNode::Compressor { threshold: a, ratio: b }),
            },
        },
        EffectKind::Gain => match param_number(m, section, "gain_db"@, F32_ZERO, mode, dec) {
            Err(e) => Err(e),
            Ok(a) => Ok(EffectNode::Gain { gain_db: a }),
        },
    }
}

/// What one effect section contributes: an effect, nothing (a section
/// without `type` under lenient parsing), or an error.
pub open spec fn section_outcome(
    m: IniMap,
    section: Seq<char>,
    mode: IniParseMode,
    dec: spec_fn(Seq<char>) -> Result<u32, Seq<char>>,
) -> Result<Option<EffectNode>, Seq<char>> {
    match ini_value(m, section, "type"@) {
        None => if mode == IniParseMode::Strict {
            Err(missing_type_message(section))
        } else {
            Ok(None)
        },
        Some(t) => match kind_named(lower_text(t)) {
            None => Err(unknown_type_message(section, lower_text(t))),
            Some(k) => match node_from(m, section, k, mode, dec) {
                Err(e) => Err(e),
                Ok(n) => Ok(Some(n)),
            },
        },
    }
}

/// The effects of the sections of `order`, in that order, or the first
/// section's error.
pub open spec fn sections_outcome(
    m: IniMap,
    order: Seq<Seq<char>>,
    mode: IniParseMode,
    dec: spec_fn(Seq<char>) -> Result<u32, Seq<char>>,
) -> Result<Seq<EffectNode>, Seq<char>>
    decreases order.len(),
{
    if order.len() == 0 {
        Ok(Seq::empty())
    } else {
        match sections_outcome(m, order.drop_last(), mode, dec) {
            Err(e) => Err(e),
            Ok(effects) => match section_outcome(m, order.last(), mode, dec) {
                Err(e) => Err(e),
                Ok(None) => Ok(effects),
                Ok(Some(n)) => Ok(effects.push(n)),
            },
        }
    }
}

/// The text `a` followed by `b`.
pub(crate) fn cat2(a: &str, b: &str) -> (s: String)
    ensures
        s@ == a@ + b@,
{
    String::from_str(a).concat(b)
}

/// The text `a`, `b`, `c` and `d` in a row.
pub(crate) fn cat4(a: &str, b: &str, c: &str, d: &str) -> (s: String)
    ensures
        s@ == a@ + b@ + c@ + d@,
{
    String::from_str(a).concat(b).concat(c).concat(d)
}

/// A lookup followed by the decoder: the optional number at
/// `section` / `key`.
fn get_optional_float<F: Fn(&str) -> Result<u32, String>>(
    config: &IniDoc,
    section: &str,
    key: &str,
    decode: &F,
) -> (r: Result<Option<u32>, AmiximaError>)
    requires
        doc_well_formed(*config),
        decoder_total(*decode),
    ensures
        r matches Err(e) ==> e is Parser,
        forall|dec: spec_fn(Seq<char>) -> Result<u32, Seq<char>>|
            #[trigger] decodes_as(*decode, dec) ==> as_outcome(r) == optional_number(
                config@,
                section@,
                key@,
                dec,
            ),
{
    match config.get(section, key) {
        None => Ok(None),
        Some(text) => {
            let t = text.as_str();
            let d = decode(t);
            match d {
                Ok(b) => {
                    assert forall|dec: spec_fn(Seq<char>) -> Result<u32, Seq<char>>|
                        #[trigger] decodes_as(*decode, dec) implies dec(text@) == Ok::<
                        u32,
                        Seq<char>,
                    >(b) by {
                        assert(call_ensures(*decode, (t,), d));
                    }
                    Ok(Some(b))
                },
                Err(why) => {
                    let msg = cat4(section, ".", key, ": ").concat(why.as_str());
                    let r = Err(AmiximaError::Parser(msg));
                    assert forall|dec: spec_fn(Seq<char>) -> Result<u32, Seq<char>>|
                        #[trigger] decodes_as(*decode, dec) implies as_outcome(r) == optional_number(
                        config@,
                        section@,
                        key@,
                        dec,
                    ) by {
                        assert(call_ensures(*decode, (t,), d));
                        assert(dec(text@) == Err::<u32, Seq<char>>(why@));
                    }
                    r
                },
            }
        },
    }
}

/// A parameter (see `param_number`).
fn get_float_with_default<F: Fn(&str) -> Result<u32, String>>(
    config: &IniDoc,
    section: &str,
    key: &str,
    default: u32,
    mode: IniParseMode,
    decode: &F,
) -> (r: Result<u32, AmiximaError>)
    requires
        doc_well_formed(*config),
        decoder_total(*decode),
    ensures
        r matches Err(e) ==> e is Parser,
        forall|dec: spec_fn(Seq<char>) -> Result<u32, Seq<char>>|
            #[trigger] decodes_as(*decode, dec) ==> as_outcome(r) == param_number(
                config@,
                section@,
                key@,
                default,
                mode,
                dec,
            ),
{
    match get_optional_float(config, section, key, decode) {
        Err(e) => Err(e),
        Ok(Some(b)) => Ok(b),
        Ok(None) => match mode {
            IniParseMode::Lenient => Ok(default),
            IniParseMode::Strict => Err(
                AmiximaError::Parser(cat2(section, " is missing required parameter ").concat(key)),
            ),
        },
    }
}


/// Whether `s` reads as the literal `lit`.
pub(crate) fn text_is(s: &String, lit: &str) -> (r: bool)
    ensures
        r == (s@ == lit@),
{
    *s == String::from_str(lit)
}

/// What one effect section contributes (see `section_outcome`).
fn section_node<F: Fn(&str) -> Result<u32, String>>(
    config: &IniDoc,
    section: &str,
    mode: IniParseMode,
    decode: &F,
) -> (r: Result<Option<EffectNode>, AmiximaError>)
    requires
        doc_well_formed(*config),
        decoder_total(*decode),
    ensures
        r matches Err(e) ==> e is Parser,
        forall|dec: spec_fn(Seq<char>) -> Result<u32, Seq<char>>|
            #[trigger] decodes_as(*decode, dec) ==> as_outcome(r) == section_outcome(
                config@,
                section@,
                mode,
                dec,
            ),
{
    proof {
        reveal_strlit("reverb");
        reveal_strlit("eq");
        reveal_strlit("delay");
        reveal_strlit("compressor");
        reveal_strlit("gain");
    }
    let effect_type = match config.get(section, "type") {
        None => {
            return match mode {
                IniParseMode::Strict => Err(
                    AmiximaError::Parser(cat2(section, " is missing required type")),
                ),
                IniParseMode::Lenient => Ok(None),
            };
        },
        Some(t) => t,
    };
    let lower = lowercase(effect_type.as_str());
    if text_is(&lower, "reverb") {
        let a = get_float_with_default(config, section, "room_size", F32_HALF, mode, decode)?;
        let b = get_float_with_default(config, section, "dry_wet", F32_POINT_THREE, mode, decode)?;
        Ok(Some(EffectNode::Reverb { room_size: a, dry_wet: b }))
    } else if text_is(&lower, "eq") {
        let a = get_float_with_default(config, section, "frequency", F32_THOUSAND, mode, decode)?;
        let b = get_float_with_default(config, section, "gain", F32_ZERO, mode, decode)?;
        Ok(Some(EffectNode::EQ { frequency: a, gain: b }))
    } else if text_is(&lower, "delay") {
        let a = get_float_with_default(config, section, "delay_ms", F32_HUNDRED, mode, decode)?;
        let b = get_float_with_default(config, section, "feedback", F32_HALF, mode, decode)?;
        Ok(Some(EffectNode::Delay { delay_ms: a, feedback: b }))
    } else if text_is(&lower, "compressor") {
        let a = get_float_with_default(
            config,
            section,
            "threshold",
            F32_MINUS_TWENTY,
            mode,
            decode,
        )?;
        let b = get_float_with_default(config, section, "ratio", F32_FOUR, mode, decode)?;
        Ok(Some(EffectNode::Compressor { threshold: a, ratio: b }))
    } else if text_is(&lower, "gain") {
        let a = get_float_with_default(config, section, "gain_db", F32_ZERO, mode, decode)?;
        Ok(Some(EffectNode::Gain { gain_db: a }))
    } else {
        Err(AmiximaError::Parser(cat2(section, " has unknown effect type ").concat(lower.as_str())))
    }
}

/// An error in the sections before the last one is the whole list's error.
proof fn lemma_error_prefix(
    m: IniMap,
    order: Seq<Seq<char>>,
    k: nat,
    mode: IniParseMode,
    dec: spec_fn(Seq<char>) -> Result<u32, Seq<char>>,
)
    requires
        k <= order.len(),
        sections_outcome(m, order.take(k as int), mode, dec) is Err,
    ensures
        sections_outcome(m, order, mode, dec) == sections_outcome(m, order.take(k as int), mode, dec),
    decreases order.len() - k,
{
    if k < order.len() {
        let next = order.take(k as int + 1);
        assert(next.drop_last() =~= order.take(k as int));
        lemma_error_prefix(m, order, k + 1, mode, dec);
    } else {
        assert(order.take(k as int) =~= order);
    }
}

/// The list of sections gives effects exactly when every one of its
/// sections does.
pub proof fn lemma_sections_ok(
    m: IniMap,
    order: Seq<Seq<char>>,
    mode: IniParseMode,
    dec: spec_fn(Seq<char>) -> Result<u32, Seq<char>>,
)
    ensures
        sections_outcome(m, order, mode, dec) is Ok <==> forall|i: int|
            0 <= i < order.len() ==> section_outcome(m, #[trigger] order[i], mode, dec) is Ok,
    decreases order.len(),
{
    if order.len() > 0 {
        let p = order.drop_last();
        lemma_sections_ok(m, p, mode, dec);
        if sections_outcome(m, order, mode, dec) is Ok {
            assert forall|i: int| 0 <= i < order.len() implies section_outcome(
                m,
                #[trigger] order[i],
                mode,
                dec,
            ) is Ok by {
                if i < order.len() - 1 {
                    assert(p[i] == order[i]);
                }
            }
        } else {
            if sections_outcome(m, p, mode, dec) is Err {
                let i = choose|i: int| 0 <= i < p.len() && !(section_outcome(m, #[trigger] p[i], mode, dec) is Ok);
                assert(p[i] == order[i]);
            } else {
                assert(!(section_outcome(m, order[order.len() - 1], mode, dec) is Ok));
            }
        }
    }
}

/// Whether an INI document reads as a Soundcourse in `mode` with the decoder
/// `dec`: the sample rate, when present, decodes, and every effect section
/// reads. This does not depend on the order of the sections.
pub open spec fn ini_reads(
    m: IniMap,
    mode: IniParseMode,
    dec: spec_fn(Seq<char>) -> Result<u32, Seq<char>>,
) -> bool {
    &&& optional_number(m, "metadata"@, "sample_rate"@, dec) is Ok
    &&& forall|s: Seq<char>|
        #[trigger] m.contains_key(s) && is_effect_section(s) ==> section_outcome(m, s, mode, dec) is Ok
}

/// What the metadata and the effect sections in `order` read as: title,
/// description, sample rate and effects; or the first error (the sample
/// rate is read before the effects).
pub open spec fn ini_outcome(
    m: IniMap,
    order: Seq<Seq<char>>,
    mode: IniParseMode,
    dec: spec_fn(Seq<char>) -> Result<u32, Seq<char>>,
) -> Result<(Option<Seq<char>>, Option<Seq<char>>, Option<u32>, Seq<EffectNode>), Seq<char>> {
    match optional_number(m, "metadata"@, "sample_rate"@, dec) {
        Err(e) => Err(e),
        Ok(rate) => match sections_outcome(m, order, mode, dec) {
            Err(e) => Err(e),
            Ok(effects) => Ok(
                (
                    ini_value(m, "metadata"@, "title"@),
                    ini_value(m, "metadata"@, "description"@),
                    rate,
                    effects,
                ),
            ),
        },
    }
}

/// Whether `sc` carries the title, description, sample rate and effects
/// `o`, with `DefaultUser` as its creator, the type `mo:Workflow`, the
/// default context and a fresh identifier.
pub open spec fn soundcourse_carries(
    sc: crate::ontology::Soundcourse,
    o: (Option<Seq<char>>, Option<Seq<char>>, Option<u32>, Seq<EffectNode>),
) -> bool {
    &&& opt_text(sc.title) == o.0
    &&& opt_text(sc.description) == o.1
    &&& sc.sample_rate == o.2
    &&& sc.sequence@ == o.3
    &&& sc.creator@ == "DefaultUser"@
    &&& sc.rdf_type@ == "mo:Workflow"@
    &&& sc.context@ == crate::ontology::DEFAULT_CONTEXT_JSON@
    &&& crate::ontology::is_soundcourse_id(sc.id@)
}

/// Whether a parse result agrees with the outcome `o`.
pub open spec fn parse_result_is(
    r: Result<crate::ontology::Soundcourse, AmiximaError>,
    o: Result<(Option<Seq<char>>, Option<Seq<char>>, Option<u32>, Seq<EffectNode>), Seq<char>>,
) -> bool {
    match r {
        Ok(sc) => o is Ok && soundcourse_carries(sc, o->Ok_0),
        Err(AmiximaError::Parser(msg)) => o == Err::<
            (Option<Seq<char>>, Option<Seq<char>>, Option<u32>, Seq<EffectNode>),
            Seq<char>,
        >(msg@),
        Err(_) => false,
    }
}

/// Reads a Soundcourse from a parsed INI document (see `parse_ini`): the
/// metadata and the effect sections in ascending order of their numbers.
pub fn read_ini_document<F: Fn(&str) -> Result<u32, String>>(
    config: &IniDoc,
    mode: IniParseMode,
    decode: &F,
) -> (r: Result<crate::ontology::Soundcourse, AmiximaError>)
    requires
        doc_well_formed(*config),
        decoder_total(*decode),
    ensures
        r matches Err(e) ==> e is Parser,
        exists|order: Seq<Seq<char>>|
            reading_order(*config, order, false) && forall|
                dec: spec_fn(Seq<char>) -> Result<u32, Seq<char>>,
            |
                #[trigger] decodes_as(*decode, dec) ==> parse_result_is(
                    r,
                    ini_outcome(config@, order, mode, dec),
                ),
{
    proof {
        reveal_strlit("DefaultUser");
    }
    let ghost m = config@;
    let title = config.get("metadata", "title");
    let description = config.get("metadata", "description");
    let order = sorted_sections(config, false);
    let ghost order_names = names(order@);
    let sample_rate = get_optional_float(config, "metadata", "sample_rate", decode);
    let sample_rate = match sample_rate {
        Ok(v) => v,
        Err(e) => {
            let r = Err(e);
            assert(reading_order(*config, order_names, false));
            return r;
        },
    };
    let mut sequence: Vec<EffectNode> = Vec::new();
    let mut i: usize = 0;
    assert(order_names.take(0) =~= Seq::<Seq<char>>::empty());
    while i < order.len()
        invariant
            m == config@,
            doc_well_formed(*config),
            order_names == names(order@),
            i <= order@.len(),
            decoder_total(*decode),
            reading_order(*config, order_names, false),
            opt_text(title) == ini_value(m, "metadata"@, "title"@),
            opt_text(description) == ini_value(m, "metadata"@, "description"@),
            forall|dec: spec_fn(Seq<char>) -> Result<u32, Seq<char>>|
                #[trigger] decodes_as(*decode, dec) ==> optional_number(
                    m,
                    "metadata"@,
                    "sample_rate"@,
                    dec,
                ) == Ok::<Option<u32>, Seq<char>>(sample_rate),
            forall|dec: spec_fn(Seq<char>) -> Result<u32, Seq<char>>|
                #[trigger] decodes_as(*decode, dec) ==> sections_outcome(
                    m,
                    order_names.take(i as int),
                    mode,
                    dec,
                ) == Ok::<Seq<EffectNode>, Seq<char>>(sequence@),
        decreases order@.len() - i,
    {
        let o = section_node(config, order[i].as_str(), mode, decode);
        let ghost next = order_names.take(i as int + 1);
        assert(next.drop_last() =~= order_names.take(i as int));
        assert(next.last() == order@[i as int]@);
        match o {
            Ok(Some(n)) => {
                sequence.push(n);
            },
            Ok(None) => {},
            Err(e) => {
                let r = Err(e);
                assert(reading_order(*config, order_names, false));
                assert forall|dec: spec_fn(Seq<char>) -> Result<u32, Seq<char>>|
                    #[trigger] decodes_as(*decode, dec) implies parse_result_is(
                    r,
                    ini_outcome(m, order_names, mode, dec),
                ) by {
                    lemma_error_prefix(m, order_names, (i + 1) as nat, mode, dec);
                }
                return r;
            },
        }
        i = i + 1;
    }
    assert(order_names.take(order@.len() as int) =~= order_names);
    let mut sc = crate::ontology::Soundcourse::new("DefaultUser");
    sc.title = title;
    sc.description = description;
    sc.sample_rate = sample_rate;
    sc.sequence = sequence;
    assert(reading_order(*config, order_names, false));
    Ok(sc)
}


/// Reading succeeds on any section order exactly when `ini_reads` holds.
pub proof fn lemma_outcome_ok(
    m: IniMap,
    order: Seq<Seq<char>>,
    mode: IniParseMode,
    dec: spec_fn(Seq<char>) -> Result<u32, Seq<char>>,
)
    requires
        is_section_order(m, order, false),
    ensures
        ini_outcome(m, order, mode, dec) is Ok <==> ini_reads(m, mode, dec),
{
    lemma_sections_ok(m, order, mode, dec);
    if ini_outcome(m, order, mode, dec) is Ok {
        assert forall|s: Seq<char>| #[trigger] m.contains_key(s) && is_effect_section(s) implies section_outcome(
            m,
            s,
            mode,
            dec,
        ) is Ok by {
            assert(order.contains(s));
            let i = choose|i: int| 0 <= i < order.len() && order[i] == s;
            assert(section_outcome(m, order[i], mode, dec) is Ok);
        }
    }
    if ini_reads(m, mode, dec) {
        assert forall|i: int| 0 <= i < order.len() implies section_outcome(
            m,
            #[trigger] order[i],
            mode,
            dec,
        ) is Ok by {
            assert(m.contains_key(order[i]) && is_effect_section(order[i]));
        }
    }
}

/// The message when an INI text cannot be loaded: the path, then the
/// loader's `couldn't read <path>: <why>`.
pub open spec fn load_failure_message(path: Seq<char>, why: Seq<char>) -> Seq<char> {
    path + ": couldn't read "@ + path + ": "@ + why
}

/// What `parse_ini` may return for the file `path` holding `text`, when
/// numbers decode as `dec`: an error naming the malformed line, or the
/// reading of the sections in some order by section number.
pub open spec fn parse_ini_admits(
    path: Seq<char>,
    text: Seq<char>,
    mode: IniParseMode,
    dec: spec_fn(Seq<char>) -> Result<u32, Seq<char>>,
    r: Result<crate::ontology::Soundcourse, AmiximaError>,
) -> bool {
    match ini_parse_text(text) {
        Err(why) => r matches Err(AmiximaError::Parser(msg)) && msg@ == load_failure_message(
            path,
            why,
        ),
        Ok(m) => exists|order: Seq<Seq<char>>|
            is_section_order(m, order, false) && parse_result_is(r, ini_outcome(m, order, mode, dec)),
    }
}

/// Whether the INI text reads as a Soundcourse: it is well formed and its
/// contents pass `ini_reads`.
pub open spec fn ini_text_reads(
    text: Seq<char>,
    mode: IniParseMode,
    dec: spec_fn(Seq<char>) -> Result<u32, Seq<char>>,
) -> bool {
    ini_parse_text(text) matches Ok(m) && ini_reads(m, mode, dec)
}

/// Reads a Soundcourse from the INI text of the file `path`. The metadata
/// section gives title, description and sample rate; the effect sections
/// are read in ascending order of their numbers. Under strict parsing an
/// effect section without `type` or without one of its parameters is an
/// error; under lenient parsing it is skipped, or the parameter takes its
/// default. An unknown `type` and a value that does not decode are errors
/// in both modes. `decode` turns a value's text into `f32` bits.
pub fn parse_ini<F: Fn(&str) -> Result<u32, String>>(
    path: &str,
    text: String,
    mode: IniParseMode,
    decode: &F,
) -> (r: Result<crate::ontology::Soundcourse, AmiximaError>)
    requires
        decoder_total(*decode),
    ensures
        r matches Err(e) ==> e is Parser,
        forall|dec: spec_fn(Seq<char>) -> Result<u32, Seq<char>>|
            #[trigger] decodes_as(*decode, dec) ==> parse_ini_admits(path@, text@, mode, dec, r),
        forall|dec: spec_fn(Seq<char>) -> Result<u32, Seq<char>>|
            #[trigger] decodes_as(*decode, dec) ==> (r is Ok <==> ini_text_reads(text@, mode, dec)),
{
    let ghost t = text@;
    let mut config = crate::ini_config::ini_new();
    match crate::ini_config::ini_read(&mut config, text) {
        Err(why) => {
            let msg = cat4(path, ": couldn't read ", path, ": ").concat(why.as_str());
            Err(AmiximaError::Parser(msg))
        },
        Ok(()) => {
            let doc = ini_document(&config);
            let r = read_ini_document(&doc, mode, decode);
            let ghost m = doc@;
            assert forall|dec: spec_fn(Seq<char>) -> Result<u32, Seq<char>>|
                #[trigger] decodes_as(*decode, dec) implies parse_ini_admits(
                path@,
                t,
                mode,
                dec,
                r,
            ) && (r is Ok <==> ini_text_reads(t, mode, dec)) by {
                let order = choose|order: Seq<Seq<char>>|
                    is_section_order(m, order, false) && forall|
                        d: spec_fn(Seq<char>) -> Result<u32, Seq<char>>,
                    | #[trigger] decodes_as(*decode, d) ==> parse_result_is(
                        r,
                        ini_outcome(m, order, mode, d),
                    );
                assert(parse_result_is(r, ini_outcome(m, order, mode, dec)));
                lemma_outcome_ok(m, order, mode, dec);
            }
            r
        },
    }
}


/// The name of the section for the effect at position `i`: `effect<i+1>`.
pub open spec fn effect_section_name(i: nat) -> Seq<char> {
    "effect"@ + crate::text::decimal(i + 1)
}

/// The contents after writing the effect `n` as section `section`: its
/// `type` and its parameters, written by `disp`.
pub open spec fn with_effect(
    m: IniMap,
    section: Seq<char>,
    n: EffectNode,
    disp: spec_fn(u32) -> Seq<char>,
) -> IniMap {
    match n {
        EffectNode::Reverb { room_size, dry_wet } => crate::ini_config::ini_with(
            crate::ini_config::ini_with(
                crate::ini_config::ini_with(m, section, "type"@, Some("reverb"@)),
                section,
                "room_size"@,
                Some(disp(room_size)),
            ),
            section,
            "dry_wet"@,
            Some(disp(dry_wet)),
        ),
        EffectNode::EQ { frequency, gain } => crate::ini_config::ini_with(
            crate::ini_config::ini_with(
                crate::ini_config::ini_with(m, section, "type"@, Some("eq"@)),
                section,
                "frequency"@,
                Some(disp(frequency)),
            ),
            section,
            "gain"@,
            Some(disp(gain)),
        ),
        EffectNode::Delay { delay_ms, feedback } => crate::ini_config::ini_with(
            crate::ini_config::ini_with(
                crate::ini_config::ini_with(m, section, "type"@, Some("delay"@)),
                section,
                "delay_ms"@,
                Some(disp(delay_ms)),
            ),
            section,
            "feedback"@,
            Some(disp(feedback)),
        ),
        EffectNode::Compressor { threshold, ratio } => crate::ini_config::ini_with(
            crate::ini_config::ini_with(
                crate::ini_config::ini_with(m, section, "type"@, Some("compressor"@)),
                section,
                "threshold"@,
                Some(disp(threshold)),
            ),
            section,
            "ratio"@,
            Some(disp(ratio)),
        ),
        EffectNode::Gain { gain_db } => crate::ini_config::ini_with(
            crate::ini_config::ini_with(m, section, "type"@, Some("gain"@)),
            section,
            "gain_db"@,
            Some(disp(gain_db)),
        ),
    }
}

/// The contents after writing `effects` one by one as `effect1`,
/// `effect2`, and so on.
pub open spec fn with_effects(m: IniMap, effects: Seq<EffectNode>, disp: spec_fn(u32) -> Seq<char>) -> IniMap
    decreases effects.len(),
{
    if effects.len() == 0 {
        m
    } else {
        with_effect(
            with_effects(m, effects.drop_last(), disp),
            effect_section_name((effects.len() - 1) as nat),
            effects.last(),
            disp,
        )
    }
}

/// The `[metadata]` section of a Soundcourse: `title` (a key without a
/// value when there is none), then `description` and `sample_rate` when
/// present.
pub open spec fn metadata_contents(sc: crate::ontology::Soundcourse, disp: spec_fn(u32) -> Seq<char>) -> IniMap {
    let m1 = crate::ini_config::ini_with(
        crate::ini_config::no_sections(),
        "metadata"@,
        "title"@,
        opt_text(sc.title),
    );
    let m2 = match sc.description {
        Some(d) => crate::ini_config::ini_with(m1, "metadata"@, "description"@, Some(d@)),
        None => m1,
    };
    match sc.sample_rate {
        Some(r) => crate::ini_config::ini_with(m2, "metadata"@, "sample_rate"@, Some(disp(r))),
        None => m2,
    }
}

/// The INI contents that a Soundcourse is written as.
pub open spec fn serialized_contents(sc: crate::ontology::Soundcourse, disp: spec_fn(u32) -> Seq<char>) -> IniMap {
    with_effects(metadata_contents(sc, disp), sc.sequence@, disp)
}

/// Writes one effect into section `section` of `config`.
fn set_effect<G: Fn(u32) -> String>(config: &mut Ini, section: &str, node: &EffectNode, show: &G)
    requires
        crate::floatbits::formatter_total(*show),
    ensures
        forall|disp: spec_fn(u32) -> Seq<char>|
            #[trigger] crate::floatbits::shows_as(*show, disp) ==> ini_contents(*final(config))
                == with_effect(ini_contents(*old(config)), section@, *node, disp),
{
    proof {
        reveal_strlit("reverb");
        reveal_strlit("eq");
        reveal_strlit("delay");
        reveal_strlit("compressor");
        reveal_strlit("gain");
    }
    match node {
        EffectNode::Reverb { room_size, dry_wet } => {
            crate::ini_config::ini_set(config, section, "type", Some(String::from_str("reverb")));
            let a = show(*room_size);
            crate::ini_config::ini_set(config, section, "room_size", Some(a));
            let b = show(*dry_wet);
            crate::ini_config::ini_set(config, section, "dry_wet", Some(b));
        },
        EffectNode::EQ { frequency, gain } => {
            crate::ini_config::ini_set(config, section, "type", Some(String::from_str("eq")));
            let a = show(*frequency);
            crate::ini_config::ini_set(config, section, "frequency", Some(a));
            let b = show(*gain);
            crate::ini_config::ini_set(config, section, "gain", Some(b));
        },
        EffectNode::Delay { delay_ms, feedback } => {
            crate::ini_config::ini_set(config, section, "type", Some(String::from_str("delay")));
            let a = show(*delay_ms);
            crate::ini_config::ini_set(config, section, "delay_ms", Some(a));
            let b = show(*feedback);
            crate::ini_config::ini_set(config, section, "feedback", Some(b));
        },
        EffectNode::Compressor { threshold, ratio } => {
            crate::ini_config::ini_set(config, section, "type", Some(String::from_str("compressor")));
            let a = show(*threshold);
            crate::ini_config::ini_set(config, section, "threshold", Some(a));
            let b = show(*ratio);
            crate::ini_config::ini_set(config, section, "ratio", Some(b));
        },
        EffectNode::Gain { gain_db } => {
            crate::ini_config::ini_set(config, section, "type", Some(String::from_str("gain")));
            let a = show(*gain_db);
            crate::ini_config::ini_set(config, section, "gain_db", Some(a));
        },
    }
}

/// Writes a Soundcourse as INI text: a `[metadata]` section with `title`,
/// `description` and `sample_rate`, then one section `[effectN]` per
/// effect, numbered from 1 in chain order, with its `type` and parameters.
/// `show` writes an `f32` (given by its bits). The order of sections and
/// keys in the text is `configparser`'s and is not stated; plain contents
/// read back as they were written.
pub fn serialize_to_ini<G: Fn(u32) -> String>(soundcourse: &crate::ontology::Soundcourse, show: &G) -> (r: String)
    requires
        crate::floatbits::formatter_total(*show),
    ensures
        forall|disp: spec_fn(u32) -> Seq<char>|
            #[trigger] crate::floatbits::shows_as(*show, disp) ==> crate::ini_config::written_form(
                r@,
                crate::parser::ini::serialized_contents(*soundcourse, disp),
            ),
        forall|disp: spec_fn(u32) -> Seq<char>|
            #[trigger] crate::floatbits::shows_as(*show, disp) ==> (crate::ini_config::is_plain_ini(
                serialized_contents(*soundcourse, disp),
            ) ==> crate::ini_config::parses_to(r@, serialized_contents(*soundcourse, disp))),
{
    let mut config = crate::ini_config::ini_new();
    let title = match &soundcourse.title {
        Some(t) => Some(t.clone()),
        None => None,
    };
    crate::ini_config::ini_set(&mut config, "metadata", "title", title);
    match &soundcourse.description {
        Some(d) => {
            crate::ini_config::ini_set(&mut config, "metadata", "description", Some(d.clone()));
        },
        None => {},
    }
    let ghost before_rate = ini_contents(config);
    match soundcourse.sample_rate {
        Some(rate) => {
            let text = show(rate);
            crate::ini_config::ini_set(&mut config, "metadata", "sample_rate", Some(text));
        },
        None => {},
    }
    let ghost effects = soundcourse.sequence@;
    let n = soundcourse.sequence.len();
    let mut i: usize = 0;
    assert(effects.take(0) =~= Seq::<EffectNode>::empty());
    while i < n
        invariant
            n == effects.len(),
            effects == soundcourse.sequence@,
            i <= n,
            crate::floatbits::formatter_total(*show),
            forall|disp: spec_fn(u32) -> Seq<char>|
                #[trigger] crate::floatbits::shows_as(*show, disp) ==> ini_contents(config)
                    == with_effects(metadata_contents(*soundcourse, disp), effects.take(i as int), disp),
        decreases n - i,
    {
        let number = crate::text::usize_text(i + 1);
        let section = cat2("effect", number.as_str());
        set_effect(&mut config, section.as_str(), &soundcourse.sequence[i], show);
        assert(effects.take(i as int + 1).drop_last() =~= effects.take(i as int));
        i = i + 1;
    }
    assert(effects.take(n as int) =~= effects);
    crate::ini_config::ini_writes(&config)
}

} // verus!
