//! The library's error type.
use vstd::prelude::*;

verus! {

/// Everything that can go wrong while loading, checking or processing a
/// Soundcourse. Each variant carries the text that describes it.
#[derive(Debug, Clone)]
pub enum AmiximaError {
    /// An I/O failure, with the path it concerns where one is known and the
    /// text of the underlying error.
    Io { path: Option<String>, source: String },
    Parser(String),
    Validation(String),
    UnsupportedFormat(String),
    AudioDecode(String),
    AudioEncode(String),
    Processing(String),
    Batch(String),
    Path(String),
}

/// The text of an optional string.
pub open spec fn opt_text(o: Option<String>) -> Option<Seq<char>> {
    match o {
        Some(s) => Some(s@),
        None => None,
    }
}

/// The text that describes an error, as the program prints it.
pub open spec fn error_text(e: AmiximaError) -> Seq<char> {
    match e {
        AmiximaError::Io { path, source } => match path {
            Some(p) => "I/O error at "@ + p@ + ": "@ + source@,
            None => "I/O error: "@ + source@,
        },
        AmiximaError::Parser(m) => "parser error: "@ + m@,
        AmiximaError::Validation(m) => "validation error: "@ + m@,
        AmiximaError::UnsupportedFormat(m) => "unsupported format: "@ + m@,
        AmiximaError::AudioDecode(m) => "audio decode error: "@ + m@,
        AmiximaError::AudioEncode(m) => "audio encode error: "@ + m@,
        AmiximaError::Processing(m) => "processing error: "@ + m@,
        AmiximaError::Batch(m) => "batch error: "@ + m@,
        AmiximaError::Path(m) => "path error: "@ + m@,
    }
}

/// `prefix` followed by `rest`.
pub(crate) fn joined(prefix: &str, rest: &str) -> (s: String)
    ensures
        s@ == prefix@ + rest@,
{
    String::from_str(prefix).concat(rest)
}

impl AmiximaError {
    /// An I/O error at `path`, described by the text `source`.
    pub fn io(path: &str, source: &str) -> (e: Self)
        ensures
            e matches AmiximaError::Io { path: Some(p), source: s } && p@ == path@ && s@ == source@,
    {
        AmiximaError::Io { path: Some(String::from_str(path)), source: String::from_str(source) }
    }

    /// The text that describes this error.
    pub fn message(&self) -> (s: String)
        ensures
            s@ == error_text(*self),
    {
        match self {
            AmiximaError::Io { path, source } => match path {
                Some(p) => {
                    let head = joined("I/O error at ", p.as_str());
                    let head = head.concat(": ");
                    head.concat(source.as_str())
                },
                None => joined("I/O error: ", source.as_str()),
            },
            AmiximaError::Parser(m) => joined("parser error: ", m.as_str()),
            AmiximaError::Validation(m) => joined("validation error: ", m.as_str()),
            AmiximaError::UnsupportedFormat(m) => joined("unsupported format: ", m.as_str()),
            AmiximaError::AudioDecode(m) => joined("audio decode error: ", m.as_str()),
            AmiximaError::AudioEncode(m) => joined("audio encode error: ", m.as_str()),
            AmiximaError::Processing(m) => joined("processing error: ", m.as_str()),
            AmiximaError::Batch(m) => joined("batch error: ", m.as_str()),
            AmiximaError::Path(m) => joined("path error: ", m.as_str()),
        }
    }
}

} // verus!
