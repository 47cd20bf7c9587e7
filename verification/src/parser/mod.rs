//! Reading and writing Soundcourse files.
use vstd::prelude::*;
use crate::error::{opt_text, AmiximaError};
use crate::files::{path_extension, path_extension_of};
use crate::floatbits::{formatter_total, shows_as};
use crate::ontology::Soundcourse;
use crate::text::{ascii_lower, ascii_text, lemma_lower_text_idempotent, lower_text, lowercase};

pub mod ini;
pub mod ini_laws;
pub mod legacy;

verus! {

broadcast use crate::text::lemma_lower_text_fixed;

/// Entry points for reading and writing Soundcourse files.
pub struct SoundcourseParser;

/// The two file forms of a Soundcourse.
#[derive(Debug, Clone, Copy, PartialEq, Eq, Structural)]
pub enum SourceFormat {
    /// `.ini`
    Ini,
    /// `.json` or `.jsonld`
    JsonLd,
}

/// The form of a Soundcourse file with extension `ext`, in lower case:
/// `ini`, or `json` / `jsonld`; any other extension, or none, is an
/// unsupported format with the message naming it.
pub open spec fn format_of(ext: Option<Seq<char>>) -> Result<SourceFormat, Seq<char>> {
    match ext {
        Some(e) => {
            let lower = lower_text(e);
            if lower == "ini"@ {
                Ok(SourceFormat::Ini)
            } else if lower == "json"@ || lower == "jsonld"@ {
                Ok(SourceFormat::JsonLd)
            } else {
                Err(lower + " files are not supported Soundcourses"@)
            }
        },
        None => Err("Soundcourse path has no file extension"@),
    }
}

/// Law: the format of a file does not depend on the case of its (ASCII)
/// extension: it is the format of the extension in lower case. Whatever its
/// case, `ini` is INI, `json` and `jsonld` are JSON-LD, and any other
/// extension is unsupported.
pub proof fn law_format_ignores_case(e: Seq<char>)
    requires
        ascii_text(e),
    ensures
        format_of(Some(e)) == format_of(Some(ascii_lower(e))),
        ascii_lower(e) == "ini"@ ==> format_of(Some(e)) == Ok::<SourceFormat, Seq<char>>(
            SourceFormat::Ini,
        ),
        ascii_lower(e) == "json"@ || ascii_lower(e) == "jsonld"@ ==> format_of(Some(e)) == Ok::<
            SourceFormat,
            Seq<char>,
        >(SourceFormat::JsonLd),
        ascii_lower(e) != "ini"@ && ascii_lower(e) != "json"@ && ascii_lower(e) != "jsonld"@
            ==> format_of(Some(e)) is Err,
{
    lemma_lower_text_idempotent(e);
    reveal_strlit("ini");
    reveal_strlit("json");
    reveal_strlit("jsonld");
    assert("json"@[0] != "ini"@[0]);
    assert("jsonld"@[0] != "ini"@[0]);
}

/// The form of the Soundcourse file at `path`, told by its extension (see
/// `format_of`).
pub open spec fn source_format_of(path: Seq<char>) -> Result<SourceFormat, Seq<char>> {
    format_of(path_extension_of(path))
}

/// Whether a result is the format, or the unsupported-format error, of `o`.
pub open spec fn format_result_is(
    r: Result<SourceFormat, AmiximaError>,
    o: Result<SourceFormat, Seq<char>>,
) -> bool {
    match o {
        Ok(f) => r == Ok::<SourceFormat, AmiximaError>(f),
        Err(m) => r matches Err(AmiximaError::UnsupportedFormat(msg)) && msg@ == m,
    }
}

impl SoundcourseParser {
    /// Which reader a Soundcourse file with extension `ext` needs (see
    /// `format_of`).
    pub fn format_of_extension(ext: Option<String>) -> (r: Result<SourceFormat, AmiximaError>)
        ensures
            format_result_is(r, format_of(opt_text(ext))),
    {
        proof {
            reveal_strlit("ini");
            reveal_strlit("json");
            reveal_strlit("jsonld");
        }
        match ext {
            Some(e) => {
                let lower = lowercase(e.as_str());
                if lower == String::from_str("ini") {
                    Ok(SourceFormat::Ini)
                } else if lower == String::from_str("json") || lower == String::from_str("jsonld") {
                    Ok(SourceFormat::JsonLd)
                } else {
                    Err(
                        AmiximaError::UnsupportedFormat(
                            lower.concat(" files are not supported Soundcourses"),
                        ),
                    )
                }
            },
            None => Err(
                AmiximaError::UnsupportedFormat(
                    String::from_str("Soundcourse path has no file extension"),
                ),
            ),
        }
    }

    /// Which reader a Soundcourse file at `path` needs (see
    /// `source_format_of`).
    pub fn source_format(path: &str) -> (r: Result<SourceFormat, AmiximaError>)
        ensures
            format_result_is(r, source_format_of(path@)),
    {
        Self::format_of_extension(path_extension(path))
    }

    /// Writes a Soundcourse as INI text (see `ini::serialize_to_ini`).
    pub fn serialize_to_ini<G: Fn(u32) -> String>(soundcourse: &Soundcourse, show: &G) -> (r: String)
        requires
            formatter_total(*show),
        ensures
            forall|disp: spec_fn(u32) -> Seq<char>|
                #[trigger] crate::floatbits::shows_as(*show, disp) ==> crate::ini_config::written_form(
                    r@,
                    crate::parser::ini::serialized_contents(*soundcourse, disp),
                ),
            forall|disp: spec_fn(u32) -> Seq<char>|
                #[trigger] shows_as(*show, disp) ==> (crate::ini_config::is_plain_ini(
                    ini::serialized_contents(*soundcourse, disp),
                ) ==> crate::ini_config::parses_to(r@, ini::serialized_contents(*soundcourse, disp))),
    {
        ini::serialize_to_ini(soundcourse, show)
    }
}

} // verus!
