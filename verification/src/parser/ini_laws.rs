//! What the INI reader gives back of what the INI writer wrote.
use vstd::prelude::*;
use crate::error::{opt_text, AmiximaError};
use crate::ini_config::{
    ini_value, ini_with, is_plain_ini, is_plain_name, is_plain_name_char, is_plain_value,
    is_plain_value_char, no_sections, parses_to,
};
use crate::ontology::{EffectNode, Soundcourse};
use crate::parser::ini::{
    ini_outcome, kind_named, node_from, optional_number, param_number, parse_result_is, section_outcome,
    sections_outcome,
    effect_section_name, is_effect_section, is_section_order, metadata_contents, parse_ini_admits,
    section_number, serialized_contents, soundcourse_carries, with_effect, with_effects, IniMap,
    IniParseMode,
};
use crate::parser::legacy::{legacy_outcome, legacy_parse_admits, legacy_section_outcome, legacy_sections_outcome};
use crate::ontology::{default_node, kind_of, param_count, F32_CD_RATE};
use crate::catalog::{param_name, param_value, effect_type_name};
use crate::text::{ascii_not_upper, decimal, lemma_decimal_reads_back, lemma_u32_decimal_reads_back};

verus! {

broadcast use crate::text::lemma_lower_text_fixed;

/// Every text name used in the INI form is lower-case ASCII and plain.
proof fn lemma_fixed_names()
    ensures
        ascii_not_upper("metadata"@) && is_plain_name("metadata"@),
        ascii_not_upper("title"@) && is_plain_name("title"@),
        ascii_not_upper("description"@) && is_plain_name("description"@),
        ascii_not_upper("sample_rate"@) && is_plain_name("sample_rate"@),
        ascii_not_upper("type"@) && is_plain_name("type"@),
        ascii_not_upper("room_size"@) && is_plain_name("room_size"@),
        ascii_not_upper("dry_wet"@) && is_plain_name("dry_wet"@),
        ascii_not_upper("frequency"@) && is_plain_name("frequency"@),
        ascii_not_upper("gain"@) && is_plain_name("gain"@),
        ascii_not_upper("delay_ms"@) && is_plain_name("delay_ms"@),
        ascii_not_upper("feedback"@) && is_plain_name("feedback"@),
        ascii_not_upper("threshold"@) && is_plain_name("threshold"@),
        ascii_not_upper("ratio"@) && is_plain_name("ratio"@),
        ascii_not_upper("gain_db"@) && is_plain_name("gain_db"@),
        ascii_not_upper("reverb"@) && is_plain_value("reverb"@),
        ascii_not_upper("eq"@) && is_plain_value("eq"@),
        ascii_not_upper("delay"@) && is_plain_value("delay"@),
        ascii_not_upper("compressor"@) && is_plain_value("compressor"@),
        is_plain_value("gain"@),
        ascii_not_upper("effect"@) && is_plain_name("effect"@),
        !is_effect_section("metadata"@),
        "metadata"@ != "default"@,
        "effect"@.len() == 6,
{
    reveal_strlit("metadata");
    reveal_strlit("title");
    reveal_strlit("description");
    reveal_strlit("sample_rate");
    reveal_strlit("type");
    reveal_strlit("room_size");
    reveal_strlit("dry_wet");
    reveal_strlit("frequency");
    reveal_strlit("gain");
    reveal_strlit("delay_ms");
    reveal_strlit("feedback");
    reveal_strlit("threshold");
    reveal_strlit("ratio");
    reveal_strlit("gain_db");
    reveal_strlit("reverb");
    reveal_strlit("eq");
    reveal_strlit("delay");
    reveal_strlit("compressor");
    reveal_strlit("effect");
    reveal_strlit("default");
    assert("metadata"@.subrange(0, 6)[0] != "effect"@[0]);
    assert("metadata"@[0] != "default"@[0]);
}


/// The section name of the effect at position `j` is an effect section
/// numbered `j + 1`, plain and lower-case.
proof fn lemma_effect_name(j: nat)
    requires
        j + 1 <= u32::MAX,
    ensures
        is_effect_section(effect_section_name(j)),
        section_number(effect_section_name(j), false) == j + 1,
        ascii_not_upper(effect_section_name(j)),
        is_plain_name(effect_section_name(j)),
        effect_section_name(j) != "metadata"@,
        effect_section_name(j) != "default"@,
{
    lemma_fixed_names();
    reveal_strlit("effect");
    reveal_strlit("metadata");
    reveal_strlit("default");
    let name = effect_section_name(j);
    let d = decimal(j + 1);
    lemma_decimal_reads_back(j + 1);
    lemma_u32_decimal_reads_back((j + 1) as u32);
    assert(name.subrange(0, 6) =~= "effect"@);
    assert(name.skip(6) =~= d);
    assert forall|i: int| 0 <= i < name.len() implies crate::text::is_ascii_not_upper(#[trigger] name[i])
        && is_plain_name_char(name[i]) by {
        if i >= 6 {
            assert(name[i] == d[i - 6]);
            assert(crate::text::is_digit(d[i - 6]));
        } else {
            assert(name[i] == "effect"@[i]);
        }
    }
    assert(name[0] != "metadata"@[0]);
    assert(name[0] != "default"@[0]);
}

/// Different positions have different section names.
proof fn lemma_effect_names_differ(a: nat, b: nat)
    requires
        a + 1 <= u32::MAX,
        b + 1 <= u32::MAX,
        a != b,
    ensures
        effect_section_name(a) != effect_section_name(b),
{
    lemma_effect_name(a);
    lemma_effect_name(b);
}


/// The keys of the section that holds effect `n`: its `type` and its
/// parameters written by `disp`.
pub open spec fn effect_entries(n: EffectNode, disp: spec_fn(u32) -> Seq<char>) -> Map<
    Seq<char>,
    Option<Seq<char>>,
> {
    match n {
        EffectNode::Reverb { room_size, dry_wet } => Map::empty().insert("type"@, Some("reverb"@)).insert(
            "room_size"@,
            Some(disp(room_size)),
        ).insert("dry_wet"@, Some(disp(dry_wet))),
        EffectNode::EQ { frequency, gain } => Map::empty().insert("type"@, Some("eq"@)).insert(
            "frequency"@,
            Some(disp(frequency)),
        ).insert("gain"@, Some(disp(gain))),
        EffectNode::Delay { delay_ms, feedback } => Map::empty().insert("type"@, Some("delay"@)).insert(
            "delay_ms"@,
            Some(disp(delay_ms)),
        ).insert("feedback"@, Some(disp(feedback))),
        EffectNode::Compressor { threshold, ratio } => Map::empty().insert(
            "type"@,
            Some("compressor"@),
        ).insert("threshold"@, Some(disp(threshold))).insert("ratio"@, Some(disp(ratio))),
        EffectNode::Gain { gain_db } => Map::empty().insert("type"@, Some("gain"@)).insert(
            "gain_db"@,
            Some(disp(gain_db)),
        ),
    }
}

/// Writing an effect into a new section with a lower-case name adds that
/// section with the effect's keys.
proof fn lemma_with_effect_fresh(m: IniMap, sec: Seq<char>, n: EffectNode, disp: spec_fn(u32) -> Seq<char>)
    requires
        ascii_not_upper(sec),
        !m.contains_key(sec),
    ensures
        with_effect(m, sec, n, disp) == m.insert(sec, effect_entries(n, disp)),
{
    lemma_fixed_names();
    match n {
        EffectNode::Reverb { room_size, dry_wet } => {
            assert(with_effect(m, sec, n, disp) =~= m.insert(sec, effect_entries(n, disp)));
        },
        EffectNode::EQ { frequency, gain } => {
            assert(with_effect(m, sec, n, disp) =~= m.insert(sec, effect_entries(n, disp)));
        },
        EffectNode::Delay { delay_ms, feedback } => {
            assert(with_effect(m, sec, n, disp) =~= m.insert(sec, effect_entries(n, disp)));
        },
        EffectNode::Compressor { threshold, ratio } => {
            assert(with_effect(m, sec, n, disp) =~= m.insert(sec, effect_entries(n, disp)));
        },
        EffectNode::Gain { gain_db } => {
            assert(with_effect(m, sec, n, disp) =~= m.insert(sec, effect_entries(n, disp)));
        },
    }
}

/// The sections written for a chain of effects: those of `base`, plus
/// `effect<j+1>` holding effect `j` for each position `j`.
proof fn lemma_with_effects_shape(base: IniMap, effects: Seq<EffectNode>, disp: spec_fn(u32) -> Seq<char>)
    requires
        forall|s: Seq<char>| #[trigger] base.contains_key(s) ==> !is_effect_section(s),
        effects.len() < u32::MAX,
    ensures
        forall|s: Seq<char>|
            #[trigger] with_effects(base, effects, disp).contains_key(s) <==> base.contains_key(s) || exists|
                j: int,
            | 0 <= j < effects.len() && s == #[trigger] effect_section_name(j as nat),
        forall|s: Seq<char>|
            #[trigger] base.contains_key(s) ==> with_effects(base, effects, disp)[s] == base[s],
        forall|j: int|
            0 <= j < effects.len() ==> #[trigger] with_effects(base, effects, disp)[effect_section_name(
                j as nat,
            )] == effect_entries(effects[j], disp),
        base.dom().finite() ==> with_effects(base, effects, disp).dom().finite(),
    decreases effects.len(),
{
    if effects.len() > 0 {
        let prev = effects.drop_last();
        lemma_with_effects_shape(base, prev, disp);
        let w0 = with_effects(base, prev, disp);
        let k = (effects.len() - 1) as nat;
        let name = effect_section_name(k);
        lemma_effect_name(k);
        assert(!w0.contains_key(name)) by {
            if w0.contains_key(name) {
                if base.contains_key(name) {
                } else {
                    let j = choose|j: int| 0 <= j < prev.len() && name == #[trigger] effect_section_name(j as nat);
                    lemma_effect_names_differ(j as nat, k);
                }
            }
        }
        lemma_with_effect_fresh(w0, name, effects.last(), disp);
        let w = with_effects(base, effects, disp);
        assert(w == w0.insert(name, effect_entries(effects.last(), disp)));
        assert(w.dom() == w0.dom().insert(name));
        assert forall|s: Seq<char>| #[trigger] w.contains_key(s) <==> base.contains_key(s) || exists|
            j: int,
        | 0 <= j < effects.len() && s == #[trigger] effect_section_name(j as nat) by {
            if w0.contains_key(s) && !base.contains_key(s) {
                let j = choose|j: int| 0 <= j < prev.len() && s == #[trigger] effect_section_name(j as nat);
                assert(0 <= j < effects.len() && s == effect_section_name(j as nat));
            }
            if exists|j: int| 0 <= j < effects.len() && s == #[trigger] effect_section_name(j as nat) {
                let j = choose|j: int| 0 <= j < effects.len() && s == #[trigger] effect_section_name(j as nat);
                if j < prev.len() {
                    assert(w0.contains_key(s));
                }
            }
        }
        assert forall|s: Seq<char>| #[trigger] base.contains_key(s) implies w[s] == base[s] by {
            assert(s != name);
        }
        assert forall|j: int| 0 <= j < effects.len() implies #[trigger] w[effect_section_name(
            j as nat,
        )] == effect_entries(effects[j], disp) by {
            if j < prev.len() {
                lemma_effect_names_differ(j as nat, k);
                assert(prev[j] == effects[j]);
            }
        }
    }
}


/// Whether `j` is one of the values of `v`.
pub open spec fn takes_value(v: Seq<int>, j: int) -> bool {
    exists|i: int| 0 <= i < v.len() && #[trigger] v[i] == j
}

/// A strictly increasing sequence of integers in `0..n` that takes every
/// value of `0..n` is `0, 1, ..., n - 1`.
proof fn lemma_increasing_cover(v: Seq<int>, n: int)
    requires
        n >= 0,
        forall|a: int, b: int| 0 <= a < b < v.len() ==> #[trigger] v[a] < #[trigger] v[b],
        forall|i: int| 0 <= i < v.len() ==> 0 <= #[trigger] v[i] < n,
        forall|j: int| 0 <= j < n ==> #[trigger] takes_value(v, j),
    ensures
        v.len() == n,
        forall|i: int| 0 <= i < v.len() ==> #[trigger] v[i] == i,
    decreases v.len(),
{
    if n <= 0 {
        if v.len() > 0 {
            assert(0 <= v[0] < n);
        }
    } else {
        assert(takes_value(v, n - 1));
        let p = choose|i: int| 0 <= i < v.len() && #[trigger] v[i] == n - 1;
        assert(p == v.len() - 1) by {
            if p < v.len() - 1 {
                assert(v[p] < v[v.len() - 1]);
            }
        }
        let w = v.drop_last();
        assert(takes_value(v, n - 1));
        assert forall|j: int| 0 <= j < n - 1 implies #[trigger] takes_value(w, j) by {
            assert(takes_value(v, j));
            let i = choose|i: int| 0 <= i < v.len() && #[trigger] v[i] == j;
            assert(i != p);
            assert(w[i] == j);
        }
        assert forall|i: int| 0 <= i < w.len() implies 0 <= #[trigger] w[i] < n - 1 by {
            assert(v[i] < v[p]);
        }
        lemma_increasing_cover(w, n - 1);
        assert forall|i: int| 0 <= i < v.len() implies #[trigger] v[i] == i by {
            if i < w.len() {
                assert(w[i] == v[i]);
            }
        }
    }
}

/// The effect section names for positions `0..n`.
pub open spec fn effect_names(n: nat) -> Seq<Seq<char>> {
    Seq::new(n, |j: int| effect_section_name(j as nat))
}

/// When the effect sections of `m` are exactly those for positions `0..n`,
/// the only section order is by position.
proof fn lemma_order_by_position(m: IniMap, order: Seq<Seq<char>>, n: nat)
    requires
        n < u32::MAX,
        is_section_order(m, order, false),
        forall|i: int|
            #![trigger order[i]]
            0 <= i < order.len() ==> exists|j: int|
                0 <= j < n && order[i] == #[trigger] effect_section_name(j as nat),
        forall|j: int| 0 <= j < n ==> m.contains_key(#[trigger] effect_section_name(j as nat)),
    ensures
        order == effect_names(n),
{
    let v = Seq::new(order.len(), |i: int| section_number(order[i], false) as int - 1);
    assert forall|i: int| 0 <= i < order.len() implies order[i] == effect_section_name(
        #[trigger] v[i] as nat,
    ) && 0 <= v[i] < n by {
        let j = choose|j: int| 0 <= j < n && order[i] == #[trigger] effect_section_name(j as nat);
        lemma_effect_name(j as nat);
    }
    assert forall|a: int, b: int| 0 <= a < b < v.len() implies #[trigger] v[a] < #[trigger] v[b] by {
        assert(order[a] != order[b]);
        assert(section_number(order[a], false) <= section_number(order[b], false));
        assert(order[a] == effect_section_name(v[a] as nat));
        assert(order[b] == effect_section_name(v[b] as nat));
    }
    assert forall|i: int| 0 <= i < v.len() implies 0 <= #[trigger] v[i] < n by {
        assert(order[i] == effect_section_name(v[i] as nat));
    }
    assert forall|j: int| 0 <= j < n implies #[trigger] takes_value(v, j) by {
        let name = effect_section_name(j as nat);
        lemma_effect_name(j as nat);
        assert(m.contains_key(name));
        assert(order.contains(name));
        let i = choose|i: int| 0 <= i < order.len() && order[i] == name;
        assert(order[i] == effect_section_name(v[i] as nat));
        assert(v[i] == j) by {
            if v[i] != j {
                lemma_effect_names_differ(v[i] as nat, j as nat);
            }
        }
    }
    lemma_increasing_cover(v, n as int);
    assert forall|i: int| 0 <= i < order.len() implies order[i] == #[trigger] effect_names(n)[i] by {
        assert(order[i] == effect_section_name(v[i] as nat));
    }
    assert(order =~= effect_names(n));
}


/// The parameters of an effect, in declaration order.
pub open spec fn node_values(n: EffectNode) -> Seq<u32> {
    match n {
        EffectNode::Reverb { room_size, dry_wet } => seq![room_size, dry_wet],
        EffectNode::EQ { frequency, gain } => seq![frequency, gain],
        EffectNode::Delay { delay_ms, feedback } => seq![delay_ms, feedback],
        EffectNode::Compressor { threshold, ratio } => seq![threshold, ratio],
        EffectNode::Gain { gain_db } => seq![gain_db],
    }
}

/// Whether every number of `sc` (sample rate and parameters) written by
/// `disp` and read by `dec` comes back as the same bits, and is written as
/// a plain value.
pub open spec fn numbers_read_back(
    sc: Soundcourse,
    disp: spec_fn(u32) -> Seq<char>,
    dec: spec_fn(Seq<char>) -> Result<u32, Seq<char>>,
) -> bool {
    &&& (sc.sample_rate matches Some(r) ==> dec(disp(r)) == Ok::<u32, Seq<char>>(r) && is_plain_value(
        disp(r),
    ))
    &&& forall|i: int, k: int|
        0 <= i < sc.sequence@.len() && 0 <= k < node_values(sc.sequence@[i]).len() ==> {
            let b = #[trigger] node_values(sc.sequence@[i])[k];
            dec(disp(b)) == Ok::<u32, Seq<char>>(b) && is_plain_value(disp(b))
        }
}

/// Whether the title and description of `sc` are plain values.
pub open spec fn texts_plain(sc: Soundcourse) -> bool {
    &&& (sc.title matches Some(t) ==> is_plain_value(t@))
    &&& (sc.description matches Some(d) ==> is_plain_value(d@))
}

/// The keys of the `[metadata]` section of `sc`.
pub open spec fn metadata_entries(sc: Soundcourse, disp: spec_fn(u32) -> Seq<char>) -> Map<
    Seq<char>,
    Option<Seq<char>>,
> {
    let e1 = Map::<Seq<char>, Option<Seq<char>>>::empty().insert("title"@, opt_text(sc.title));
    let e2 = match sc.description {
        Some(d) => e1.insert("description"@, Some(d@)),
        None => e1,
    };
    match sc.sample_rate {
        Some(r) => e2.insert("sample_rate"@, Some(disp(r))),
        None => e2,
    }
}

/// The metadata contents are the one section `metadata`.
proof fn lemma_metadata_shape(sc: Soundcourse, disp: spec_fn(u32) -> Seq<char>)
    ensures
        metadata_contents(sc, disp) == Map::<Seq<char>, Map<Seq<char>, Option<Seq<char>>>>::empty().insert(
            "metadata"@,
            metadata_entries(sc, disp),
        ),
{
    lemma_fixed_names();
    assert(metadata_contents(sc, disp) =~= Map::<
        Seq<char>,
        Map<Seq<char>, Option<Seq<char>>>,
    >::empty().insert("metadata"@, metadata_entries(sc, disp)));
}

/// The written contents: `metadata` and one section per effect.
proof fn lemma_serialized_shape(sc: Soundcourse, disp: spec_fn(u32) -> Seq<char>)
    requires
        sc.sequence@.len() < u32::MAX,
    ensures
        forall|s: Seq<char>|
            #[trigger] serialized_contents(sc, disp).contains_key(s) <==> s == "metadata"@ || exists|
                j: int,
            | 0 <= j < sc.sequence@.len() && s == #[trigger] effect_section_name(j as nat),
        serialized_contents(sc, disp)["metadata"@] == metadata_entries(sc, disp),
        serialized_contents(sc, disp).dom().finite(),
        forall|j: int|
            0 <= j < sc.sequence@.len() ==> #[trigger] serialized_contents(sc, disp)[effect_section_name(
                j as nat,
            )] == effect_entries(sc.sequence@[j], disp),
{
    lemma_fixed_names();
    lemma_metadata_shape(sc, disp);
    let base = metadata_contents(sc, disp);
    assert forall|s: Seq<char>| #[trigger] base.contains_key(s) implies !is_effect_section(s) by {
        assert(s == "metadata"@);
    }
    assert(base.contains_key("metadata"@));
    assert(base.dom().finite());
    lemma_with_effects_shape(base, sc.sequence@, disp);
}

/// The written contents survive a write and a read: names are plain, and
/// so are the values under the guards.
proof fn lemma_serialized_plain(sc: Soundcourse, disp: spec_fn(u32) -> Seq<char>, dec: spec_fn(Seq<char>) -> Result<u32, Seq<char>>)
    requires
        sc.sequence@.len() < u32::MAX,
        texts_plain(sc),
        numbers_read_back(sc, disp, dec),
    ensures
        is_plain_ini(serialized_contents(sc, disp)),
{
    lemma_fixed_names();
    lemma_serialized_shape(sc, disp);
    let m = serialized_contents(sc, disp);
    assert(m.dom().finite());
    assert(!m.contains_key("default"@)) by {
        if m.contains_key("default"@) {
            let j = choose|j: int| 0 <= j < sc.sequence@.len() && "default"@ == #[trigger] effect_section_name(j as nat);
            lemma_effect_name(j as nat);
        }
    }
    assert forall|s: Seq<char>| #[trigger] m.contains_key(s) implies {
        &&& is_plain_name(s)
        &&& m[s].dom().finite()
        &&& forall|k: Seq<char>|
            #[trigger] m[s].contains_key(k) ==> is_plain_name(k) && (m[s][k] matches Some(v)
                ==> is_plain_value(v))
    } by {
        if s == "metadata"@ {
            let e = metadata_entries(sc, disp);
            assert(m[s] == e);
            assert forall|k: Seq<char>| #[trigger] e.contains_key(k) implies is_plain_name(k) && (
            e[k] matches Some(v) ==> is_plain_value(v)) by {}
        } else {
            let j = choose|j: int| 0 <= j < sc.sequence@.len() && s == #[trigger] effect_section_name(j as nat);
            lemma_effect_name(j as nat);
            let n = sc.sequence@[j];
            let e = effect_entries(n, disp);
            assert(m[s] == e);
            let vals = node_values(n);
            assert forall|k: int| 0 <= k < vals.len() implies is_plain_value(disp(#[trigger] vals[k])) by {
                assert(dec(disp(node_values(sc.sequence@[j])[k])) == Ok::<u32, Seq<char>>(node_values(sc.sequence@[j])[k]));
            }
            match n {
                EffectNode::Reverb { room_size, dry_wet } => {
                    assert(vals[0] == room_size && vals[1] == dry_wet);
                },
                EffectNode::EQ { frequency, gain } => {
                    assert(vals[0] == frequency && vals[1] == gain);
                },
                EffectNode::Delay { delay_ms, feedback } => {
                    assert(vals[0] == delay_ms && vals[1] == feedback);
                },
                EffectNode::Compressor { threshold, ratio } => {
                    assert(vals[0] == threshold && vals[1] == ratio);
                },
                EffectNode::Gain { gain_db } => {
                    assert(vals[0] == gain_db);
                },
            }
        }
    }
}


/// A section that holds effect `n` as written by `disp` reads back as `n`
/// when `dec` reads every written number back.
proof fn lemma_section_reads_back(
    m: IniMap,
    sec: Seq<char>,
    n: EffectNode,
    mode: IniParseMode,
    disp: spec_fn(u32) -> Seq<char>,
    dec: spec_fn(Seq<char>) -> Result<u32, Seq<char>>,
)
    requires
        ascii_not_upper(sec),
        m.contains_key(sec),
        m[sec] == effect_entries(n, disp),
        forall|k: int|
            0 <= k < node_values(n).len() ==> dec(disp(#[trigger] node_values(n)[k])) == Ok::<
                u32,
                Seq<char>,
            >(node_values(n)[k]),
    ensures
        section_outcome(m, sec, mode, dec) == Ok::<Option<EffectNode>, Seq<char>>(Some(n)),
{
    lemma_fixed_names();
    reveal_strlit("type");
    reveal_strlit("room_size");
    reveal_strlit("dry_wet");
    reveal_strlit("frequency");
    reveal_strlit("delay_ms");
    reveal_strlit("feedback");
    reveal_strlit("threshold");
    reveal_strlit("ratio");
    reveal_strlit("gain_db");
    reveal_strlit("reverb");
    reveal_strlit("eq");
    reveal_strlit("delay");
    reveal_strlit("compressor");
    reveal_strlit("gain");
    let vals = node_values(n);
    assert(crate::text::lower_text(sec) == sec);
    assert(crate::text::lower_text("type"@) == "type"@);
    assert("delay_ms"@[0] != "feedback"@[0]);
    assert("eq"@ != "reverb"@);
    assert("delay"@ != "reverb"@ && "delay"@ != "eq"@);
    assert("compressor"@ != "reverb"@ && "compressor"@ != "eq"@ && "compressor"@ != "delay"@);
    assert("gain"@ != "reverb"@ && "gain"@ != "eq"@ && "gain"@ != "delay"@ && "gain"@ != "compressor"@);
    match n {
        EffectNode::Reverb { room_size, dry_wet } => {
            assert(vals[0] == room_size);
            assert(dec(disp(vals[0])) == Ok::<u32, Seq<char>>(vals[0]));
            assert(ini_value(m, sec, "room_size"@) == Some(disp(room_size)));
            assert(param_number(m, sec, "room_size"@, crate::ontology::F32_HALF, mode, dec) == Ok::<u32, Seq<char>>(room_size));
            assert(vals[1] == dry_wet);
            assert(dec(disp(vals[1])) == Ok::<u32, Seq<char>>(vals[1]));
            assert(ini_value(m, sec, "dry_wet"@) == Some(disp(dry_wet)));
            assert(param_number(m, sec, "dry_wet"@, crate::ontology::F32_POINT_THREE, mode, dec) == Ok::<u32, Seq<char>>(dry_wet));
            assert(node_from(m, sec, crate::ontology::EffectKind::Reverb, mode, dec) == Ok::<EffectNode, Seq<char>>(n));
            assert(crate::text::lower_text("reverb"@) == "reverb"@);
            assert(m[sec]["type"@] == Some("reverb"@));
            assert(kind_named("reverb"@) == Some(crate::ontology::EffectKind::Reverb));
        },
        EffectNode::EQ { frequency, gain } => {
            assert(vals[0] == frequency);
            assert(dec(disp(vals[0])) == Ok::<u32, Seq<char>>(vals[0]));
            assert(ini_value(m, sec, "frequency"@) == Some(disp(frequency)));
            assert(param_number(m, sec, "frequency"@, crate::ontology::F32_THOUSAND, mode, dec) == Ok::<u32, Seq<char>>(frequency));
            assert(vals[1] == gain);
            assert(dec(disp(vals[1])) == Ok::<u32, Seq<char>>(vals[1]));
            assert(ini_value(m, sec, "gain"@) == Some(disp(gain)));
            assert(param_number(m, sec, "gain"@, crate::ontology::F32_ZERO, mode, dec) == Ok::<u32, Seq<char>>(gain));
            assert(node_from(m, sec, crate::ontology::EffectKind::EQ, mode, dec) == Ok::<EffectNode, Seq<char>>(n));
            assert(crate::text::lower_text("eq"@) == "eq"@);
            assert(m[sec]["type"@] == Some("eq"@));
            assert(kind_named("eq"@) == Some(crate::ontology::EffectKind::EQ));
        },
        EffectNode::Delay { delay_ms, feedback } => {
            assert(vals[0] == delay_ms);
            assert(dec(disp(vals[0])) == Ok::<u32, Seq<char>>(vals[0]));
            assert(ini_value(m, sec, "delay_ms"@) == Some(disp(delay_ms)));
            assert(param_number(m, sec, "delay_ms"@, crate::ontology::F32_HUNDRED, mode, dec) == Ok::<u32, Seq<char>>(delay_ms));
            assert(vals[1] == feedback);
            assert(dec(disp(vals[1])) == Ok::<u32, Seq<char>>(vals[1]));
            assert(ini_value(m, sec, "feedback"@) == Some(disp(feedback)));
            assert(param_number(m, sec, "feedback"@, crate::ontology::F32_HALF, mode, dec) == Ok::<u32, Seq<char>>(feedback));
            assert(node_from(m, sec, crate::ontology::EffectKind::Delay, mode, dec) == Ok::<EffectNode, Seq<char>>(n));
            assert(crate::text::lower_text("delay"@) == "delay"@);
            assert(m[sec]["type"@] == Some("delay"@));
            assert(kind_named("delay"@) == Some(crate::ontology::EffectKind::Delay));
        },
        EffectNode::Compressor { threshold, ratio } => {
            assert(vals[0] == threshold);
            assert(dec(disp(vals[0])) == Ok::<u32, Seq<char>>(vals[0]));
            assert(ini_value(m, sec, "threshold"@) == Some(disp(threshold)));
            assert(param_number(m, sec, "threshold"@, crate::ontology::F32_MINUS_TWENTY, mode, dec) == Ok::<u32, Seq<char>>(threshold));
            assert(vals[1] == ratio);
            assert(dec(disp(vals[1])) == Ok::<u32, Seq<char>>(vals[1]));
            assert(ini_value(m, sec, "ratio"@) == Some(disp(ratio)));
            assert(param_number(m, sec, "ratio"@, crate::ontology::F32_FOUR, mode, dec) == Ok::<u32, Seq<char>>(ratio));
            assert(node_from(m, sec, crate::ontology::EffectKind::Compressor, mode, dec) == Ok::<EffectNode, Seq<char>>(n));
            assert(crate::text::lower_text("compressor"@) == "compressor"@);
            assert(m[sec]["type"@] == Some("compressor"@));
            assert(kind_named("compressor"@) == Some(crate::ontology::EffectKind::Compressor));
        },
        EffectNode::Gain { gain_db } => {
            assert(vals[0] == gain_db);
            assert(dec(disp(vals[0])) == Ok::<u32, Seq<char>>(vals[0]));
            assert(ini_value(m, sec, "gain_db"@) == Some(disp(gain_db)));
            assert(param_number(m, sec, "gain_db"@, crate::ontology::F32_ZERO, mode, dec) == Ok::<u32, Seq<char>>(gain_db));
            assert(node_from(m, sec, crate::ontology::EffectKind::Gain, mode, dec) == Ok::<EffectNode, Seq<char>>(n));
            assert(crate::text::lower_text("gain"@) == "gain"@);
            assert(m[sec]["type"@] == Some("gain"@));
            assert(kind_named("gain"@) == Some(crate::ontology::EffectKind::Gain));
        },
    }
}

/// Reading the sections of the first `k` effects, by position, gives those
/// effects.
proof fn lemma_sections_read_back(
    sc: Soundcourse,
    k: nat,
    mode: IniParseMode,
    disp: spec_fn(u32) -> Seq<char>,
    dec: spec_fn(Seq<char>) -> Result<u32, Seq<char>>,
)
    requires
        sc.sequence@.len() < u32::MAX,
        k <= sc.sequence@.len(),
        numbers_read_back(sc, disp, dec),
    ensures
        sections_outcome(serialized_contents(sc, disp), effect_names(k), mode, dec) == Ok::<
            Seq<EffectNode>,
            Seq<char>,
        >(sc.sequence@.take(k as int)),
    decreases k,
{
    let m = serialized_contents(sc, disp);
    if k == 0 {
        assert(sc.sequence@.take(0) =~= Seq::<EffectNode>::empty());
    } else {
        lemma_sections_read_back(sc, (k - 1) as nat, mode, disp, dec);
        assert(effect_names(k).drop_last() =~= effect_names((k - 1) as nat));
        lemma_serialized_shape(sc, disp);
        let j = (k - 1) as nat;
        lemma_effect_name(j);
        let n = sc.sequence@[j as int];
        assert forall|q: int| 0 <= q < node_values(n).len() implies dec(
            disp(#[trigger] node_values(n)[q]),
        ) == Ok::<u32, Seq<char>>(node_values(n)[q]) by {
            assert(node_values(sc.sequence@[j as int])[q] == node_values(n)[q]);
        }
        assert(m.contains_key(effect_section_name(j)));
        lemma_section_reads_back(m, effect_section_name(j), n, mode, disp, dec);
        assert(effect_names(k).last() == effect_section_name(j));
        assert(sc.sequence@.take(k as int) =~= sc.sequence@.take(j as int).push(n));
    }
}

/// Law: writing a Soundcourse as INI text (`serialize_to_ini`) and reading
/// that text back (`parse_ini`), in either mode, gives back its title,
/// description, sample rate and effects in order. It holds when the title
/// and description are plain values (single-line text of any characters
/// without `;` or `#` and without white space at either end), every number
/// is written as a plain value that the decoder reads back as the same bits,
/// and there are fewer than `u32::MAX` effects.
pub proof fn law_ini_round_trip(
    sc: Soundcourse,
    disp: spec_fn(u32) -> Seq<char>,
    dec: spec_fn(Seq<char>) -> Result<u32, Seq<char>>,
    path: Seq<char>,
    text: Seq<char>,
    mode: IniParseMode,
    r: Result<Soundcourse, AmiximaError>,
)
    requires
        sc.sequence@.len() < u32::MAX,
        texts_plain(sc),
        numbers_read_back(sc, disp, dec),
        is_plain_ini(serialized_contents(sc, disp)) ==> parses_to(text, serialized_contents(sc, disp)),
        parse_ini_admits(path, text, mode, dec, r),
    ensures
        r is Ok,
        soundcourse_carries(
            r->Ok_0,
            (opt_text(sc.title), opt_text(sc.description), sc.sample_rate, sc.sequence@),
        ),
{
    lemma_fixed_names();
    lemma_serialized_plain(sc, disp, dec);
    lemma_serialized_shape(sc, disp);
    let m = serialized_contents(sc, disp);
    let n = sc.sequence@.len();
    let order = choose|order: Seq<Seq<char>>|
        is_section_order(m, order, false) && parse_result_is(r, ini_outcome(m, order, mode, dec));
    assert forall|i: int| #![trigger order[i]] 0 <= i < order.len() implies exists|j: int|
        0 <= j < n && order[i] == #[trigger] effect_section_name(j as nat) by {
        assert(m.contains_key(order[i]));
        assert(order[i] != "metadata"@);
    }
    assert forall|j: int| 0 <= j < n implies m.contains_key(#[trigger] effect_section_name(j as nat)) by {}
    lemma_order_by_position(m, order, n);
    lemma_sections_read_back(sc, n, mode, disp, dec);
    assert(sc.sequence@.take(n as int) =~= sc.sequence@);
    reveal_strlit("title");
    reveal_strlit("description");
    reveal_strlit("sample_rate");
    assert("description"@[0] != "sample_rate"@[0]);
    assert("description"@[0] != "title"@[0]);
    assert("sample_rate"@[0] != "title"@[0]);
    let meta = metadata_entries(sc, disp);
    assert(m["metadata"@] == meta);
    assert(m.contains_key("metadata"@));
    match sc.sample_rate {
        Some(rate) => {
            assert(meta.contains_key("sample_rate"@));
            assert(optional_number(m, "metadata"@, "sample_rate"@, dec) == Ok::<Option<u32>, Seq<char>>(
                Some(rate),
            ));
        },
        None => {
            assert(!meta.contains_key("sample_rate"@));
        },
    }
    match sc.description {
        Some(d) => {
            assert(meta.contains_key("description"@));
        },
        None => {
            assert(!meta.contains_key("description"@));
        },
    }
    assert(meta.contains_key("title"@));
}


/// A section that strict parsing reads is read the same way by lenient
/// parsing.
proof fn lemma_section_strict_lenient(
    m: IniMap,
    sec: Seq<char>,
    dec: spec_fn(Seq<char>) -> Result<u32, Seq<char>>,
)
    requires
        section_outcome(m, sec, IniParseMode::Strict, dec) is Ok,
    ensures
        section_outcome(m, sec, IniParseMode::Lenient, dec) == section_outcome(
            m,
            sec,
            IniParseMode::Strict,
            dec,
        ),
{
}

/// Sections that strict parsing reads are read the same way by lenient
/// parsing.
proof fn lemma_sections_strict_lenient(
    m: IniMap,
    order: Seq<Seq<char>>,
    dec: spec_fn(Seq<char>) -> Result<u32, Seq<char>>,
)
    requires
        sections_outcome(m, order, IniParseMode::Strict, dec) is Ok,
    ensures
        sections_outcome(m, order, IniParseMode::Lenient, dec) == sections_outcome(
            m,
            order,
            IniParseMode::Strict,
            dec,
        ),
    decreases order.len(),
{
    if order.len() > 0 {
        lemma_sections_strict_lenient(m, order.drop_last(), dec);
        lemma_section_strict_lenient(m, order.last(), dec);
    }
}

/// Law: an INI document that strict parsing accepts is accepted by lenient
/// parsing too, with the same title, description, sample rate and effects
/// for every order of its sections.
pub proof fn law_strict_reads_as_lenient(
    m: IniMap,
    order: Seq<Seq<char>>,
    dec: spec_fn(Seq<char>) -> Result<u32, Seq<char>>,
)
    requires
        ini_outcome(m, order, IniParseMode::Strict, dec) is Ok,
    ensures
        ini_outcome(m, order, IniParseMode::Lenient, dec) == ini_outcome(
            m,
            order,
            IniParseMode::Strict,
            dec,
        ),
{
    lemma_sections_strict_lenient(m, order, dec);
}


/// A section that strict parsing reads as an effect is read as the same
/// effect by the legacy reader.
proof fn lemma_legacy_section_agrees(
    m: IniMap,
    sec: Seq<char>,
    dec: spec_fn(Seq<char>) -> Result<u32, Seq<char>>,
)
    requires
        section_outcome(m, sec, IniParseMode::Strict, dec) matches Ok(Some(_)),
    ensures
        legacy_section_outcome(m, sec, dec) == section_outcome(m, sec, IniParseMode::Strict, dec),
{
}

/// The legacy reading of `metadata` followed by the sections of the first
/// `k` effects gives those effects.
proof fn lemma_legacy_sections_read_back(
    sc: Soundcourse,
    k: nat,
    disp: spec_fn(u32) -> Seq<char>,
    dec: spec_fn(Seq<char>) -> Result<u32, Seq<char>>,
)
    requires
        sc.sequence@.len() < u32::MAX,
        k <= sc.sequence@.len(),
        numbers_read_back(sc, disp, dec),
    ensures
        legacy_sections_outcome(
            serialized_contents(sc, disp),
            seq!["metadata"@] + effect_names(k),
            dec,
        ) == Ok::<Seq<EffectNode>, Seq<char>>(sc.sequence@.take(k as int)),
    decreases k,
{
    let m = serialized_contents(sc, disp);
    let meta: Seq<Seq<char>> = seq!["metadata"@];
    lemma_fixed_names();
    lemma_serialized_shape(sc, disp);
    if k == 0 {
        reveal_strlit("type");
        reveal_strlit("title");
        reveal_strlit("description");
        reveal_strlit("sample_rate");
        assert("type"@[1] != "title"@[1]);
        assert("type"@[0] != "description"@[0]);
        assert("type"@[0] != "sample_rate"@[0]);
        assert(m["metadata"@] == metadata_entries(sc, disp));
        assert(!metadata_entries(sc, disp).contains_key("type"@));
        assert(crate::text::lower_text("type"@) == "type"@);
        assert(crate::text::lower_text("metadata"@) == "metadata"@);
        assert(ini_value(m, "metadata"@, "type"@) is None);
        assert(legacy_section_outcome(m, "metadata"@, dec) == Ok::<Option<EffectNode>, Seq<char>>(None));
        assert((meta + effect_names(0)).drop_last() =~= Seq::<Seq<char>>::empty());
        assert(legacy_sections_outcome(m, Seq::<Seq<char>>::empty(), dec) == Ok::<Seq<EffectNode>, Seq<char>>(
            Seq::empty(),
        ));
        assert(meta + effect_names(0) =~= meta);
        assert(sc.sequence@.take(0) =~= Seq::<EffectNode>::empty());
    } else {
        let j = (k - 1) as nat;
        lemma_legacy_sections_read_back(sc, j, disp, dec);
        assert((meta + effect_names(k)).drop_last() =~= meta + effect_names(j));
        assert((meta + effect_names(k)).last() == effect_section_name(j));
        lemma_effect_name(j);
        let n = sc.sequence@[j as int];
        assert forall|q: int| 0 <= q < node_values(n).len() implies dec(
            disp(#[trigger] node_values(n)[q]),
        ) == Ok::<u32, Seq<char>>(node_values(n)[q]) by {
            assert(node_values(sc.sequence@[j as int])[q] == node_values(n)[q]);
        }
        assert(m.contains_key(effect_section_name(j)));
        lemma_section_reads_back(m, effect_section_name(j), n, IniParseMode::Strict, disp, dec);
        lemma_legacy_section_agrees(m, effect_section_name(j), dec);
        assert(sc.sequence@.take(k as int) =~= sc.sequence@.take(j as int).push(n));
    }
}

/// Law: writing a Soundcourse as INI text (`serialize_to_ini`) and reading
/// that text back with the legacy reader (`SoundcourseParser::parse_ini`)
/// gives back its title, description and effects in order, and its sample
/// rate, or 44100 Hz when it had none. It holds under the same conditions
/// as `law_ini_round_trip`.
pub proof fn law_legacy_round_trip(
    sc: Soundcourse,
    disp: spec_fn(u32) -> Seq<char>,
    dec: spec_fn(Seq<char>) -> Result<u32, Seq<char>>,
    path: Seq<char>,
    text: Seq<char>,
    r: Result<Soundcourse, AmiximaError>,
)
    requires
        sc.sequence@.len() < u32::MAX,
        texts_plain(sc),
        numbers_read_back(sc, disp, dec),
        is_plain_ini(serialized_contents(sc, disp)) ==> parses_to(text, serialized_contents(sc, disp)),
        legacy_parse_admits(path, text, dec, r),
    ensures
        r is Ok,
        soundcourse_carries(
            r->Ok_0,
            (
                opt_text(sc.title),
                opt_text(sc.description),
                if sc.sample_rate is Some {
                    sc.sample_rate
                } else {
                    Some(F32_CD_RATE)
                },
                sc.sequence@,
            ),
        ),
{
    lemma_fixed_names();
    lemma_serialized_plain(sc, disp, dec);
    lemma_serialized_shape(sc, disp);
    let m = serialized_contents(sc, disp);
    let n = sc.sequence@.len();
    let meta = "metadata"@;
    let order = choose|order: Seq<Seq<char>>|
        is_section_order(m, order, true) && parse_result_is(r, legacy_outcome(m, order, dec));
    // Every listed section other than `metadata` is the section of an effect.
    assert forall|i: int| #![trigger order[i]] 0 <= i < order.len() && order[i] != meta implies exists|
        j: int,
    | 0 <= j < n && order[i] == #[trigger] effect_section_name(j as nat) by {
        assert(m.contains_key(order[i]));
    }
    assert(m.contains_key(meta));
    assert(order.contains(meta));
    let i0 = choose|i: int| 0 <= i < order.len() && order[i] == meta;
    // `metadata` has number 0 and every effect section a larger one, so it
    // comes first.
    assert(i0 == 0) by {
        if i0 > 0 {
            assert(section_number(order[0], true) <= section_number(order[i0], true));
            if order[0] != meta {
                let j = choose|j: int| 0 <= j < n && order[0] == #[trigger] effect_section_name(j as nat);
                lemma_effect_name(j as nat);
            }
        }
    }
    let rest = order.skip(1);
    assert(order =~= seq![meta] + rest);
    assert forall|i: int| #![trigger rest[i]] 0 <= i < rest.len() implies exists|j: int|
        0 <= j < n && rest[i] == #[trigger] effect_section_name(j as nat) by {
        assert(rest[i] == order[i + 1]);
        assert(order[i + 1] != order[0]);
    }
    assert forall|i: int| #![trigger rest[i]] 0 <= i < rest.len() implies section_number(rest[i], false)
        == section_number(rest[i], true) && is_effect_section(rest[i]) by {
        let j = choose|j: int| 0 <= j < n && rest[i] == #[trigger] effect_section_name(j as nat);
        lemma_effect_name(j as nat);
    }
    assert(is_section_order(m, rest, false)) by {
        assert forall|s: Seq<char>|
            #[trigger] m.contains_key(s) && crate::parser::ini::counts_as_section(s, false) implies rest.contains(s) by {
            assert(order.contains(s));
            let i = choose|i: int| 0 <= i < order.len() && order[i] == s;
            assert(i != 0);
            assert(rest[i - 1] == s);
        }
        assert forall|a: int, b: int| 0 <= a <= b < rest.len() implies section_number(
            #[trigger] rest[a],
            false,
        ) <= section_number(#[trigger] rest[b], false) by {
            assert(rest[a] == order[a + 1] && rest[b] == order[b + 1]);
        }
        assert forall|a: int, b: int| 0 <= a < b < rest.len() implies #[trigger] rest[a] != #[trigger] rest[b] by {
            assert(rest[a] == order[a + 1] && rest[b] == order[b + 1]);
        }
    }
    assert forall|j: int| 0 <= j < n implies m.contains_key(#[trigger] effect_section_name(j as nat)) by {}
    lemma_order_by_position(m, rest, n);
    lemma_legacy_sections_read_back(sc, n, disp, dec);
    assert(sc.sequence@.take(n as int) =~= sc.sequence@);
    reveal_strlit("title");
    reveal_strlit("description");
    reveal_strlit("sample_rate");
    assert("description"@[0] != "sample_rate"@[0]);
    assert("description"@[0] != "title"@[0]);
    assert("sample_rate"@[0] != "title"@[0]);
    let entries = metadata_entries(sc, disp);
    assert(m[meta] == entries);
    match sc.sample_rate {
        Some(rate) => {
            assert(entries.contains_key("sample_rate"@));
        },
        None => {
            assert(!entries.contains_key("sample_rate"@));
        },
    }
    match sc.description {
        Some(d) => {
            assert(entries.contains_key("description"@));
        },
        None => {
            assert(!entries.contains_key("description"@));
        },
    }
    assert(entries.contains_key("title"@));
}


/// The `type` names of the effect kinds are lower-case and different, and
/// each reads as its kind.
proof fn lemma_type_names(k: crate::ontology::EffectKind)
    ensures
        kind_named(effect_type_name(k)) == Some(k),
        legacy_kind_reads(k),
{
    reveal_strlit("reverb");
    reveal_strlit("eq");
    reveal_strlit("delay");
    reveal_strlit("compressor");
    reveal_strlit("gain");
    assert("eq"@[0] != "reverb"@[0]);
    assert("delay"@[0] != "reverb"@[0] && "delay"@[0] != "eq"@[0]);
    assert("compressor"@[0] != "reverb"@[0] && "compressor"@[0] != "eq"@[0] && "compressor"@[0]
        != "delay"@[0]);
    assert("gain"@[0] != "reverb"@[0] && "gain"@[0] != "eq"@[0] && "gain"@[0] != "delay"@[0]
        && "gain"@[0] != "compressor"@[0]);
}

/// `kind_named` of a kind's `type` name is that kind (as the legacy reader
/// uses it).
pub open spec fn legacy_kind_reads(k: crate::ontology::EffectKind) -> bool {
    kind_named(effect_type_name(k)) == Some(k)
}

/// Law: reading an effect section, strictly or leniently, whose `type`
/// names kind `k` (in any case) gives an effect of kind `k` in which every
/// parameter the section holds is that parameter's decoded value, and every
/// parameter it lacks (which only lenient reading allows) is the kind's
/// default. Parameters are named as in the parameter table.
pub proof fn law_section_parameters(
    m: IniMap,
    s: Seq<char>,
    mode: IniParseMode,
    dec: spec_fn(Seq<char>) -> Result<u32, Seq<char>>,
    k: crate::ontology::EffectKind,
    n: EffectNode,
    i: nat,
)
    requires
        ini_value(m, s, "type"@) matches Some(t) && crate::text::lower_text(t) == effect_type_name(k),
        section_outcome(m, s, mode, dec) == Ok::<Option<EffectNode>, Seq<char>>(Some(n)),
        i < param_count(k),
    ensures
        kind_of(n) == k,
        ini_value(m, s, param_name(k, i)) matches Some(v) ==> dec(v) == Ok::<u32, Seq<char>>(
            param_value(n, i),
        ),
        ini_value(m, s, param_name(k, i)) is None ==> mode == IniParseMode::Lenient && param_value(n, i)
            == param_value(default_node(k), i),
{
    lemma_type_names(k);
    reveal_strlit("gain_db");
    reveal_strlit("frequency");
    reveal_strlit("gain");
    reveal_strlit("delay_ms");
    reveal_strlit("feedback");
    reveal_strlit("room_size");
    reveal_strlit("dry_wet");
    reveal_strlit("threshold");
    reveal_strlit("ratio");
}

/// Law: the legacy reader reads a section whose `type` names kind `k` (in
/// any case) as an effect of kind `k` in which every parameter the section
/// holds is its decoded value and every parameter it lacks is the kind's
/// default.
pub proof fn law_legacy_section_parameters(
    m: IniMap,
    s: Seq<char>,
    dec: spec_fn(Seq<char>) -> Result<u32, Seq<char>>,
    k: crate::ontology::EffectKind,
    n: EffectNode,
    i: nat,
)
    requires
        ini_value(m, s, "type"@) matches Some(t) && crate::text::lower_text(t) == effect_type_name(k),
        legacy_section_outcome(m, s, dec) == Ok::<Option<EffectNode>, Seq<char>>(Some(n)),
        i < param_count(k),
    ensures
        kind_of(n) == k,
        ini_value(m, s, param_name(k, i)) matches Some(v) ==> dec(v) == Ok::<u32, Seq<char>>(
            param_value(n, i),
        ),
        ini_value(m, s, param_name(k, i)) is None ==> param_value(n, i) == param_value(
            default_node(k),
            i,
        ),
{
    lemma_type_names(k);
    reveal_strlit("gain_db");
    reveal_strlit("frequency");
    reveal_strlit("gain");
    reveal_strlit("delay_ms");
    reveal_strlit("feedback");
    reveal_strlit("room_size");
    reveal_strlit("dry_wet");
    reveal_strlit("threshold");
    reveal_strlit("ratio");
}


/// Law: an effect section without `type` is an error under strict reading
/// and is skipped under lenient reading; one whose `type` names no effect
/// kind (in any case) is an error in both modes; and under strict reading a
/// section whose `type` names kind `k` but lacks one of `k`'s parameters is
/// an error.
pub proof fn law_section_types(
    m: IniMap,
    s: Seq<char>,
    mode: IniParseMode,
    dec: spec_fn(Seq<char>) -> Result<u32, Seq<char>>,
    k: crate::ontology::EffectKind,
    i: nat,
)
    ensures
        ini_value(m, s, "type"@) is None ==> (if mode == IniParseMode::Strict {
            section_outcome(m, s, mode, dec) is Err
        } else {
            section_outcome(m, s, mode, dec) == Ok::<Option<EffectNode>, Seq<char>>(None)
        }),
        (ini_value(m, s, "type"@) matches Some(t) && forall|j: crate::ontology::EffectKind|
            crate::text::lower_text(t) != #[trigger] effect_type_name(j)) ==> section_outcome(
            m,
            s,
            mode,
            dec,
        ) is Err,
        (ini_value(m, s, "type"@) matches Some(t) && crate::text::lower_text(t) == effect_type_name(k)
            && i < param_count(k) && ini_value(m, s, param_name(k, i)) is None && mode
            == IniParseMode::Strict) ==> section_outcome(m, s, mode, dec) is Err,
{
    lemma_type_names(k);
    reveal_strlit("gain_db");
    reveal_strlit("frequency");
    reveal_strlit("gain");
    reveal_strlit("delay_ms");
    reveal_strlit("feedback");
    reveal_strlit("room_size");
    reveal_strlit("dry_wet");
    reveal_strlit("threshold");
    reveal_strlit("ratio");
    if ini_value(m, s, "type"@) is Some {
        let t = ini_value(m, s, "type"@)->0;
        let l = crate::text::lower_text(t);
        assert(effect_type_name(crate::ontology::EffectKind::Reverb) == "reverb"@);
        assert(effect_type_name(crate::ontology::EffectKind::EQ) == "eq"@);
        assert(effect_type_name(crate::ontology::EffectKind::Delay) == "delay"@);
        assert(effect_type_name(crate::ontology::EffectKind::Compressor) == "compressor"@);
        assert(effect_type_name(crate::ontology::EffectKind::Gain) == "gain"@);
    }
}

} // verus!
