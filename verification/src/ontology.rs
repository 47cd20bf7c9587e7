//! The Soundcourse model: an ordered chain of audio effects with metadata.
use vstd::prelude::*;
use crate::floatbits::{f32_is_finite, f32_in_range};

verus! {

/// One audio effect with its parameters. Each parameter is an `f32`,
/// carried as its IEEE-754 bits (`f32::to_bits`).
#[derive(Clone, Copy, Debug, PartialEq, Eq, Structural)]
pub enum EffectNode {
    Reverb { room_size: u32, dry_wet: u32 },
    EQ { frequency: u32, gain: u32 },
    Delay { delay_ms: u32, feedback: u32 },
    Compressor { threshold: u32, ratio: u32 },
    Gain { gain_db: u32 },
}

/// The five kinds of effect, without parameters.
#[derive(Clone, Copy, Debug, PartialEq, Eq, Structural)]
pub enum EffectKind {
    Reverb,
    EQ,
    Delay,
    Compressor,
    Gain,
}

/// Bits of `0.5`.
pub const F32_HALF: u32 = 0x3f00_0000;
/// Bits of `0.3`.
pub const F32_POINT_THREE: u32 = 0x3e99_999a;
/// Bits of `1000.0`.
pub const F32_THOUSAND: u32 = 0x447a_0000;
/// Bits of `0.0`.
pub const F32_ZERO: u32 = 0x0000_0000;
/// Bits of `100.0`.
pub const F32_HUNDRED: u32 = 0x42c8_0000;
/// Bits of `-20.0`.
pub const F32_MINUS_TWENTY: u32 = 0xc1a0_0000;
/// Bits of `4.0`.
pub const F32_FOUR: u32 = 0x4080_0000;
/// Bits of `44100.0`, the sample rate of a new Soundcourse.
pub const F32_CD_RATE: u32 = 0x472c_4400;

/// The kind of an effect.
pub open spec fn kind_of(n: EffectNode) -> EffectKind {
    match n {
        EffectNode::Reverb { .. } => EffectKind::Reverb,
        EffectNode::EQ { .. } => EffectKind::EQ,
        EffectNode::Delay { .. } => EffectKind::Delay,
        EffectNode::Compressor { .. } => EffectKind::Compressor,
        EffectNode::Gain { .. } => EffectKind::Gain,
    }
}

/// How many parameters an effect of kind `k` has.
pub open spec fn param_count(k: EffectKind) -> nat {
    match k {
        EffectKind::Gain => 1,
        _ => 2,
    }
}

/// The effect of kind `k` with its documented default parameters:
/// reverb 0.5 / 0.3, EQ 1000 Hz / 0 dB, delay 100 ms / 0.5,
/// compressor -20 dB / 4, gain 0 dB.
pub open spec fn default_node(k: EffectKind) -> EffectNode {
    match k {
        EffectKind::Reverb => EffectNode::Reverb { room_size: F32_HALF, dry_wet: F32_POINT_THREE },
        EffectKind::EQ => EffectNode::EQ { frequency: F32_THOUSAND, gain: F32_ZERO },
        EffectKind::Delay => EffectNode::Delay { delay_ms: F32_HUNDRED, feedback: F32_HALF },
        EffectKind::Compressor => EffectNode::Compressor {
            threshold: F32_MINUS_TWENTY,
            ratio: F32_FOUR,
        },
        EffectKind::Gain => EffectNode::Gain { gain_db: F32_ZERO },
    }
}

impl EffectNode {
    /// The kind of this effect.
    pub fn kind(&self) -> (k: EffectKind)
        ensures
            k == kind_of(*self),
    {
        match self {
            EffectNode::Reverb { .. } => EffectKind::Reverb,
            EffectNode::EQ { .. } => EffectKind::EQ,
            EffectNode::Delay { .. } => EffectKind::Delay,
            EffectNode::Compressor { .. } => EffectKind::Compressor,
            EffectNode::Gain { .. } => EffectKind::Gain,
        }
    }

    /// The effect of kind `k` with its default parameters.
    pub fn with_defaults(k: EffectKind) -> (n: EffectNode)
        ensures
            n == default_node(k),
    {
        match k {
            EffectKind::Reverb => EffectNode::Reverb { room_size: F32_HALF, dry_wet: F32_POINT_THREE },
            EffectKind::EQ => EffectNode::EQ { frequency: F32_THOUSAND, gain: F32_ZERO },
            EffectKind::Delay => EffectNode::Delay { delay_ms: F32_HUNDRED, feedback: F32_HALF },
            EffectKind::Compressor => EffectNode::Compressor {
                threshold: F32_MINUS_TWENTY,
                ratio: F32_FOUR,
            },
            EffectKind::Gain => EffectNode::Gain { gain_db: F32_ZERO },
        }
    }
}

impl EffectKind {
    /// How many parameters an effect of this kind has.
    pub fn param_count(&self) -> (n: usize)
        ensures
            n == param_count(*self),
    {
        match self {
            EffectKind::Gain => 1,
            _ => 2,
        }
    }
}

/// The JSON-LD `@context` of every Soundcourse, as JSON text.
pub const DEFAULT_CONTEXT_JSON: &'static str = "{\"Soundcourse\":\"mo:Workflow\",\"aufx\":\"http://purl.org/ontology/aufx-o/\",\"dc\":\"http://purl.org/dc/elements/1.1/\",\"mo\":\"http://purl.org/ontology/mo/\",\"mo:sampleRate\":{\"@type\":\"xsd:float\"},\"sequence\":{\"@container\":\"@list\",\"@id\":\"mo:workflow_step\"},\"xsd\":\"http://www.w3.org/2001/XMLSchema#\"}";

/// An effect chain with its JSON-LD identity and metadata. The `@context`
/// is kept as JSON text; the sample rate is an `f32`, carried as its bits.
#[derive(Debug, Clone)]
pub struct Soundcourse {
    pub context: String,
    pub id: String,
    pub rdf_type: String,
    pub title: Option<String>,
    pub description: Option<String>,
    pub sample_rate: Option<u32>,
    pub creator: String,
    pub sequence: Vec<EffectNode>,
}

/// Whether `c` is a lower-case hexadecimal digit.
pub open spec fn is_lower_hex(c: char) -> bool {
    ('0' <= c && c <= '9') || ('a' <= c && c <= 'f')
}

/// The shape of a random (version 4) UUID in hyphenated lower-case form:
/// 36 characters, hyphens at 8, 13, 18 and 23, the version digit `4` at 14,
/// lower-case hexadecimal digits elsewhere.
pub open spec fn is_uuid_v4_text(s: Seq<char>) -> bool {
    &&& s.len() == 36
    &&& forall|i: int|
        0 <= i < 36 ==> if i == 8 || i == 13 || i == 18 || i == 23 {
            #[trigger] s[i] == '-'
        } else {
            is_lower_hex(s[i])
        }
    &&& s[14] == '4'
}

/// `uuid::Uuid::new_v4`, written with `to_string`: a fresh random UUID in
/// its hyphenated lower-case form. Which UUID comes out is not stated.
#[verifier::external_body]
fn new_uuid_v4_text() -> (res: String)
    ensures
        is_uuid_v4_text(res@),
{
    uuid::Uuid::new_v4().to_string()
}

/// The prefix of every Soundcourse identifier.
pub open spec fn id_prefix() -> Seq<char> {
    "amixima:sc:"@
}

/// Whether `id` is a Soundcourse identifier: `amixima:sc:` followed by a
/// random UUID.
pub open spec fn is_soundcourse_id(id: Seq<char>) -> bool {
    &&& id.len() == id_prefix().len() + 36
    &&& id.subrange(0, id_prefix().len() as int) == id_prefix()
    &&& is_uuid_v4_text(id.skip(id_prefix().len() as int))
}

impl Soundcourse {
    /// A new, empty Soundcourse by `creator`: a fresh `amixima:sc:<uuid>`
    /// identifier, type `mo:Workflow`, no title or description, a sample
    /// rate of 44100 Hz and no effects.
    pub fn new(creator: &str) -> (sc: Self)
        ensures
            sc.context@ == DEFAULT_CONTEXT_JSON@,
            is_soundcourse_id(sc.id@),
            sc.rdf_type@ == "mo:Workflow"@,
            sc.title is None,
            sc.description is None,
            sc.sample_rate == Some(F32_CD_RATE),
            sc.creator@ == creator@,
            sc.sequence@.len() == 0,
    {
        let uuid = new_uuid_v4_text();
        let id = String::from_str("amixima:sc:").concat(uuid.as_str());
        proof {
            reveal_strlit("amixima:sc:");
            assert(id@.subrange(0, 11) =~= id_prefix());
            assert(id@.skip(11) =~= uuid@);
        }
        Soundcourse {
            context: Self::default_context(),
            id,
            rdf_type: String::from_str("mo:Workflow"),
            title: None,
            description: None,
            sample_rate: Some(F32_CD_RATE),
            creator: String::from_str(creator),
            sequence: Vec::new(),
        }
    }

    /// The JSON-LD `@context` of every Soundcourse, as JSON text: the `mo`,
    /// `aufx`, `dc` and `xsd` prefixes, `Soundcourse` as `mo:Workflow`,
    /// `sequence` as the ordered list `mo:workflow_step`, and
    /// `mo:sampleRate` typed `xsd:float`.
    pub fn default_context() -> (ctx: String)
        ensures
            ctx@ == DEFAULT_CONTEXT_JSON@,
    {
        String::from_str(DEFAULT_CONTEXT_JSON)
    }

    /// Whether the chain holds no effect.
    pub fn is_empty(&self) -> (r: bool)
        ensures
            r == (self.sequence@.len() == 0),
    {
        self.sequence.len() == 0
    }
}

} // verus!
