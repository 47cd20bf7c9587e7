//! The first INI reader, kept for files written before the strict format.
//!
//! It reads every section, not only `effectN` ones, ordering them by the
//! number after `effect` with unnumbered sections first; it skips sections
//! without a known `type`, gives a missing parameter its default, and keeps
//! the default sample rate of 44100 Hz when the file has none.
use vstd::prelude::*;
use crate::error::{opt_text, AmiximaError};
use crate::floatbits::{decodes_as, decoder_total};
use crate::ini_config::{ini_document, ini_parse_text, ini_value};
use crate::ini_doc::{doc_well_formed, IniDoc};
use crate::ontology::{
    EffectKind, EffectNode, Soundcourse, F32_CD_RATE, F32_FOUR, F32_HALF, F32_HUNDRED,
    F32_MINUS_TWENTY, F32_POINT_THREE, F32_THOUSAND, F32_ZERO,
};
use crate::parser::ini::{
    as_outcome, cat2, is_section_order, reading_order, kind_named, names, parse_result_is, sorted_sections,
    text_is,
};
use crate::parser::SoundcourseParser;
use crate::text::{lower_text, lowercase};

verus! {

broadcast use crate::text::lemma_lower_text_fixed;

/// A parameter in the legacy reading: its decoded value (the decoder's
/// message on failure), or `default` when absent.
pub open spec fn legacy_number(
    m: Map<Seq<char>, Map<Seq<char>, Option<Seq<char>>>>,
    section: Seq<char>,
    key: Seq<char>,
    default: u32,
    dec: spec_fn(Seq<char>) -> Result<u32, Seq<char>>,
) -> Result<u32, Seq<char>> {
    match ini_value(m, section, key) {
        None => Ok(default),
        Some(t) => dec(t),
    }
}

/// The effect of kind `k` in the legacy reading of `section`.
pub open spec fn legacy_node(
    m: Map<Seq<char>, Map<Seq<char>, Option<Seq<char>>>>,
    section: Seq<char>,
    k: EffectKind,
    dec: spec_fn(Seq<char>) -> Result<u32, Seq<char>>,
) -> Result<EffectNode, Seq<char>> {
    match k {
        EffectKind::Reverb => match legacy_number(m, section, "room_size"@, F32_HALF, dec) {
            Err(e) => Err(e),
            Ok(a) => match legacy_number(m, section, "dry_wet"@, F32_POINT_THREE, dec) {
                Err(e) => Err(e),
                Ok(b) => Ok(EffectNode::Reverb { room_size: a, dry_wet: b }),
            },
        },
        EffectKind::EQ => match legacy_number(m, section, "frequency"@, F32_THOUSAND, dec) {
            Err(e) => Err(e),
            Ok(a) => match legacy_number(m, section, "gain"@, F32_ZERO, dec) {
                Err(e) => Err(e),
                Ok(b) => Ok(EffectNode::EQ { frequency: a, gain: b }),
            },
        },
        EffectKind::Delay => match legacy_number(m, section, "delay_ms"@, F32_HUNDRED, dec) {
            Err(e) => Err(e),
            Ok(a) => match legacy_number(m, section, "feedback"@, F32_HALF, dec) {
                Err(e) => Err(e),
                Ok(b) => Ok(EffectNode::Delay { delay_ms: a, feedback: b }),
            },
        },
        EffectKind::Compressor => match legacy_number(m, section, "threshold"@, F32_MINUS_TWENTY, dec) {
            Err(e) => Err(e),
            Ok(a) => match legacy_number(m, section, "ratio"@, F32_FOUR, dec) {
                Err(e) => Err(e),
                Ok(b) => Ok(EffectNode::Compressor { threshold: a, ratio: b }),
            },
        },
        EffectKind::Gain => match legacy_number(m, section, "gain_db"@, F32_ZERO, dec) {
            Err(e) => Err(e),
            Ok(a) => Ok(EffectNode::Gain { gain_db: a }),
        },
    }
}

/// What a section contributes in the legacy reading: an effect, or nothing
/// when it has no `type` or an unknown one.
pub open spec fn legacy_section_outcome(
    m: Map<Seq<char>, Map<Seq<char>, Option<Seq<char>>>>,
    section: Seq<char>,
    dec: spec_fn(Seq<char>) -> Result<u32, Seq<char>>,
) -> Result<Option<EffectNode>, Seq<char>> {
    match ini_value(m, section, "type"@) {
        None => Ok(None),
        Some(t) => match kind_named(lower_text(t)) {
            None => Ok(None),
            Some(k) => match legacy_node(m, section, k, dec) {
                Err(e) => Err(e),
                Ok(n) => Ok(Some(n)),
            },
        },
    }
}

/// The effects of the sections of `order` in the legacy reading.
pub open spec fn legacy_sections_outcome(
    m: Map<Seq<char>, Map<Seq<char>, Option<Seq<char>>>>,
    order: Seq<Seq<char>>,
    dec: spec_fn(Seq<char>) -> Result<u32, Seq<char>>,
) -> Result<Seq<EffectNode>, Seq<char>>
    decreases order.len(),
{
    if order.len() == 0 {
        Ok(Seq::empty())
    } else {
        match legacy_sections_outcome(m, order.drop_last(), dec) {
            Err(e) => Err(e),
            Ok(effects) => match legacy_section_outcome(m, order.last(), dec) {
                Err(e) => Err(e),
                Ok(None) => Ok(effects),
                Ok(Some(n)) => Ok(effects.push(n)),
            },
        }
    }
}

/// The legacy reading of the metadata and the sections in `order`; without
/// a sample rate in the file, the rate stays 44100 Hz.
pub open spec fn legacy_outcome(
    m: Map<Seq<char>, Map<Seq<char>, Option<Seq<char>>>>,
    order: Seq<Seq<char>>,
    dec: spec_fn(Seq<char>) -> Result<u32, Seq<char>>,
) -> Result<(Option<Seq<char>>, Option<Seq<char>>, Option<u32>, Seq<EffectNode>), Seq<char>> {
    let rate: Result<Option<u32>, Seq<char>> = match ini_value(m, "metadata"@, "sample_rate"@) {
        None => Ok(None),
        Some(t) => match dec(t) {
            Ok(b) => Ok(Some(b)),
            Err(e) => Err(e),
        },
    };
    match rate {
        Err(e) => Err(e),
        Ok(r) => match legacy_sections_outcome(m, order, dec) {
            Err(e) => Err(e),
            Ok(effects) => Ok(
                (
                    ini_value(m, "metadata"@, "title"@),
                    ini_value(m, "metadata"@, "description"@),
                    if r is Some {
                        r
                    } else {
                        Some(F32_CD_RATE)
                    },
                    effects,
                ),
            ),
        },
    }
}

/// A lookup followed by the decoder, keeping the decoder's message.
fn legacy_float<F: Fn(&str) -> Result<u32, String>>(
    config: &IniDoc,
    section: &str,
    key: &str,
    decode: &F,
) -> (r: Result<Option<u32>, AmiximaError>)
    requires
        doc_well_formed(*config),
        decoder_total(*decode),
    ensures
        r matches Err(e) ==> e is Parser,
        forall|dec: spec_fn(Seq<char>) -> Result<u32, Seq<char>>|
            #[trigger] decodes_as(*decode, dec) ==> as_outcome(r) == (match ini_value(
                config@,
                section@,
                key@,
            ) {
                None => Ok(None),
                Some(t) => match dec(t) {
                    Ok(b) => Ok(Some(b)),
                    Err(e) => Err(e),
                },
            }),
{
    match config.get(section, key) {
        None => Ok(None),
        Some(text) => {
            let t = text.as_str();
            let d = decode(t);
            let r = match d {
                Ok(b) => Ok(Some(b)),
                Err(why) => Err(AmiximaError::Parser(why)),
            };
            assert forall|dec: spec_fn(Seq<char>) -> Result<u32, Seq<char>>|
                #[trigger] decodes_as(*decode, dec) implies as_outcome(r) == (match ini_value(
                config@,
                section@,
                key@,
            ) {
                None => Ok(None),
                Some(t) => match dec(t) {
                    Ok(b) => Ok(Some(b)),
                    Err(e) => Err(e),
                },
            }) by {
                assert(call_ensures(*decode, (t,), d));
            }
            r
        },
    }
}

/// A parameter in the legacy reading (see `legacy_number`).
fn legacy_param<F: Fn(&str) -> Result<u32, String>>(
    config: &IniDoc,
    section: &str,
    key: &str,
    default: u32,
    decode: &F,
) -> (r: Result<u32, AmiximaError>)
    requires
        doc_well_formed(*config),
        decoder_total(*decode),
    ensures
        r matches Err(e) ==> e is Parser,
        forall|dec: spec_fn(Seq<char>) -> Result<u32, Seq<char>>|
            #[trigger] decodes_as(*decode, dec) ==> as_outcome(r) == legacy_number(
                config@,
                section@,
                key@,
                default,
                dec,
            ),
{
    match legacy_float(config, section, key, decode) {
        Err(e) => Err(e),
        Ok(Some(b)) => Ok(b),
        Ok(None) => Ok(default),
    }
}

/// What one section contributes in the legacy reading.
fn legacy_section<F: Fn(&str) -> Result<u32, String>>(
    config: &IniDoc,
    section: &str,
    decode: &F,
) -> (r: Result<Option<EffectNode>, AmiximaError>)
    requires
        doc_well_formed(*config),
        decoder_total(*decode),
    ensures
        r matches Err(e) ==> e is Parser,
        forall|dec: spec_fn(Seq<char>) -> Result<u32, Seq<char>>|
            #[trigger] decodes_as(*decode, dec) ==> as_outcome(r) == legacy_section_outcome(
                config@,
                section@,
                dec,
            ),
{
    proof {
        reveal_strlit("reverb");
        reveal_strlit("eq");
        reveal_strlit("delay");
        reveal_strlit("compressor");
        reveal_strlit("gain");
    }
    let effect_type = match config.get(section, "type") {
        None => {
            return Ok(None);
        },
        Some(t) => t,
    };
    let lower = lowercase(effect_type.as_str());
    if text_is(&lower, "reverb") {
        let a = legacy_param(config, section, "room_size", F32_HALF, decode)?;
        let b = legacy_param(config, section, "dry_wet", F32_POINT_THREE, decode)?;
        Ok(Some(EffectNode::Reverb { room_size: a, dry_wet: b }))
    } else if text_is(&lower, "eq") {
        let a = legacy_param(config, section, "frequency", F32_THOUSAND, decode)?;
        let b = legacy_param(config, section, "gain", F32_ZERO, decode)?;
        Ok(Some(EffectNode::EQ { frequency: a, gain: b }))
    } else if text_is(&lower, "delay") {
        let a = legacy_param(config, section, "delay_ms", F32_HUNDRED, decode)?;
        let b = legacy_param(config, section, "feedback", F32_HALF, decode)?;
        Ok(Some(EffectNode::Delay { delay_ms: a, feedback: b }))
    } else if text_is(&lower, "compressor") {
        let a = legacy_param(config, section, "threshold", F32_MINUS_TWENTY, decode)?;
        let b = legacy_param(config, section, "ratio", F32_FOUR, decode)?;
        Ok(Some(EffectNode::Compressor { threshold: a, ratio: b }))
    } else if text_is(&lower, "gain") {
        let a = legacy_param(config, section, "gain_db", F32_ZERO, decode)?;
        Ok(Some(EffectNode::Gain { gain_db: a }))
    } else {
        Ok(None)
    }
}

/// An error among the first `k` sections is the whole list's error.
proof fn lemma_legacy_error_prefix(
    m: Map<Seq<char>, Map<Seq<char>, Option<Seq<char>>>>,
    order: Seq<Seq<char>>,
    k: nat,
    dec: spec_fn(Seq<char>) -> Result<u32, Seq<char>>,
)
    requires
        k <= order.len(),
        legacy_sections_outcome(m, order.take(k as int), dec) is Err,
    ensures
        legacy_sections_outcome(m, order, dec) == legacy_sections_outcome(m, order.take(k as int), dec),
    decreases order.len() - k,
{
    if k < order.len() {
        let next = order.take(k as int + 1);
        assert(next.drop_last() =~= order.take(k as int));
        lemma_legacy_error_prefix(m, order, k + 1, dec);
    } else {
        assert(order.take(k as int) =~= order);
    }
}

/// What the legacy reader may return for the file `path` holding `text`.
pub open spec fn legacy_parse_admits(
    path: Seq<char>,
    text: Seq<char>,
    dec: spec_fn(Seq<char>) -> Result<u32, Seq<char>>,
    r: Result<Soundcourse, AmiximaError>,
) -> bool {
    match ini_parse_text(text) {
        Err(why) => r matches Err(AmiximaError::Parser(msg)) && msg@ == "couldn't read "@ + path
            + ": "@ + why,
        Ok(m) => exists|order: Seq<Seq<char>>|
            is_section_order(m, order, true) && parse_result_is(r, legacy_outcome(m, order, dec)),
    }
}

/// Reads a Soundcourse from a parsed INI document the legacy way (see the
/// module's description): every section, by number with unnumbered ones
/// first, and as the document lists them where numbers are equal.
pub fn read_legacy_document<F: Fn(&str) -> Result<u32, String>>(doc: &IniDoc, decode: &F) -> (r:
    Result<Soundcourse, AmiximaError>)
    requires
        doc_well_formed(*doc),
        decoder_total(*decode),
    ensures
        r matches Err(e) ==> e is Parser,
        exists|order: Seq<Seq<char>>|
            reading_order(*doc, order, true) && forall|
                dec: spec_fn(Seq<char>) -> Result<u32, Seq<char>>,
            |
                #[trigger] decodes_as(*decode, dec) ==> parse_result_is(r, legacy_outcome(doc@, order, dec)),
{
    proof {
        reveal_strlit("DefaultUser");
    }
    let ghost m = doc@;
    let title = doc.get("metadata", "title");
    let description = doc.get("metadata", "description");
    let rate = match legacy_float(doc, "metadata", "sample_rate", decode) {
        Ok(v) => v,
        Err(e) => {
            let r = Err(e);
            let order = sorted_sections(doc, true);
            assert(reading_order(*doc, names(order@), true));
            return r;
        },
    };
    let order = sorted_sections(doc, true);
    let ghost order_names = names(order@);
    let mut sequence: Vec<EffectNode> = Vec::new();
    let mut i: usize = 0;
    assert(order_names.take(0) =~= Seq::<Seq<char>>::empty());
    while i < order.len()
        invariant
            m == doc@,
            doc_well_formed(*doc),
            order_names == names(order@),
            i <= order@.len(),
            decoder_total(*decode),
            reading_order(*doc, order_names, true),
            opt_text(title) == ini_value(m, "metadata"@, "title"@),
            opt_text(description) == ini_value(m, "metadata"@, "description"@),
            forall|dec: spec_fn(Seq<char>) -> Result<u32, Seq<char>>|
                #[trigger] decodes_as(*decode, dec) ==> (match ini_value(
                    m,
                    "metadata"@,
                    "sample_rate"@,
                ) {
                    None => Ok(None),
                    Some(t) => match dec(t) {
                        Ok(b) => Ok(Some(b)),
                        Err(e) => Err(e),
                    },
                }) == Ok::<Option<u32>, Seq<char>>(rate),
            forall|dec: spec_fn(Seq<char>) -> Result<u32, Seq<char>>|
                #[trigger] decodes_as(*decode, dec) ==> legacy_sections_outcome(
                    m,
                    order_names.take(i as int),
                    dec,
                ) == Ok::<Seq<EffectNode>, Seq<char>>(sequence@),
        decreases order@.len() - i,
    {
        let o = legacy_section(doc, order[i].as_str(), decode);
        let ghost next = order_names.take(i as int + 1);
        assert(next.drop_last() =~= order_names.take(i as int));
        assert(next.last() == order@[i as int]@);
        match o {
            Ok(Some(n)) => {
                sequence.push(n);
            },
            Ok(None) => {},
            Err(e) => {
                let r = Err(e);
                assert forall|dec: spec_fn(Seq<char>) -> Result<u32, Seq<char>>|
                    #[trigger] decodes_as(*decode, dec) implies parse_result_is(
                    r,
                    legacy_outcome(m, order_names, dec),
                ) by {
                    lemma_legacy_error_prefix(m, order_names, (i + 1) as nat, dec);
                }
                return r;
            },
        }
        i = i + 1;
    }
    assert(order_names.take(order@.len() as int) =~= order_names);
    let mut sc = Soundcourse::new("DefaultUser");
    sc.title = title;
    sc.description = description;
    match rate {
        Some(b) => {
            sc.sample_rate = Some(b);
        },
        None => {},
    }
    sc.sequence = sequence;
    Ok(sc)
}

impl SoundcourseParser {
    /// Reads a Soundcourse from the INI text of the file `path` the legacy
    /// way (see `read_legacy_document`). A value that does not decode is an
    /// error carrying the decoder's message; `decode` turns a value's text
    /// into `f32` bits.
    pub fn parse_ini<F: Fn(&str) -> Result<u32, String>>(path: &str, text: String, decode: &F) -> (r:
        Result<Soundcourse, AmiximaError>)
        requires
            decoder_total(*decode),
        ensures
            r matches Err(e) ==> e is Parser,
            forall|dec: spec_fn(Seq<char>) -> Result<u32, Seq<char>>|
                #[trigger] decodes_as(*decode, dec) ==> legacy_parse_admits(path@, text@, dec, r),
    {
        let ghost t = text@;
        let mut config = crate::ini_config::ini_new();
        match crate::ini_config::ini_read(&mut config, text) {
            Err(why) => {
                let msg = cat2("couldn't read ", path).concat(": ").concat(why.as_str());
                return Err(AmiximaError::Parser(msg));
            },
            Ok(()) => {},
        }
        let doc = ini_document(&config);
        let r = read_legacy_document(&doc, decode);
        let ghost m = doc@;
        assert forall|dec: spec_fn(Seq<char>) -> Result<u32, Seq<char>>|
            #[trigger] decodes_as(*decode, dec) implies legacy_parse_admits(path@, t, dec, r) by {
            let order = choose|order: Seq<Seq<char>>|
                reading_order(doc, order, true) && forall|d: spec_fn(Seq<char>) -> Result<u32, Seq<char>>|
                    #[trigger] decodes_as(*decode, d) ==> parse_result_is(r, legacy_outcome(m, order, d));
            assert(parse_result_is(r, legacy_outcome(m, order, dec)));
        }
        r
    }
}

} // verus!
