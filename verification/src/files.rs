//! File names: extensions, audio files, output names and the waveform.
use vstd::prelude::*;
use crate::error::opt_text;
use crate::text::{lower_text, lowercase};

verus! {

broadcast use crate::text::lemma_lower_text_fixed;

/// What `Path::extension` gives for the path written `path`: the part of
/// the file name after its last `.`, if the name has a `.` that does not
/// start it.
pub uninterp spec fn path_extension_of(path: Seq<char>) -> Option<Seq<char>>;

/// What `Path::file_stem` gives for the path written `path`: the file name
/// without its extension, if there is a file name.
pub uninterp spec fn path_stem_of(path: Seq<char>) -> Option<Seq<char>>;

/// `Path::extension` of the path written `path`, as text.
#[verifier::external_body]
pub(crate) fn path_extension(path: &str) -> (r: Option<String>)
    ensures
        opt_text(r) == path_extension_of(path@),
{
    match std::path::Path::new(path).extension() {
        Some(e) => e.to_str().map(String::from),
        None => None,
    }
}

/// `Path::file_stem` of the path written `path`, as text.
#[verifier::external_body]
pub(crate) fn path_stem(path: &str) -> (r: Option<String>)
    ensures
        opt_text(r) == path_stem_of(path@),
{
    match std::path::Path::new(path).file_stem() {
        Some(e) => e.to_str().map(String::from),
        None => None,
    }
}

/// Whether `ext` (already lower case) names an audio format the editor
/// lists: wav, mp3, flac, ogg, m4a or aiff.
pub open spec fn is_audio_extension(ext: Seq<char>) -> bool {
    ext == "wav"@ || ext == "mp3"@ || ext == "flac"@ || ext == "ogg"@ || ext == "m4a"@ || ext
        == "aiff"@
}

/// Whether `path` names an audio file: its extension, in lower case, is one
/// of the audio extensions.
pub open spec fn audio_file(path: Seq<char>) -> bool {
    path_extension_of(path) matches Some(e) && is_audio_extension(lower_text(e))
}

/// Whether the extension `ext`, as written, names an audio format: in lower
/// case it is one of the audio extensions.
pub fn audio_extension(ext: &str) -> (r: bool)
    ensures
        r == is_audio_extension(lower_text(ext@)),
{
    proof {
        reveal_strlit("wav");
        reveal_strlit("mp3");
        reveal_strlit("flac");
        reveal_strlit("ogg");
        reveal_strlit("m4a");
        reveal_strlit("aiff");
    }
    let e = lowercase(ext);
    e == String::from_str("wav") || e == String::from_str("mp3") || e == String::from_str("flac")
        || e == String::from_str("ogg") || e == String::from_str("m4a") || e == String::from_str(
        "aiff",
    )
}

/// Whether the path written `path` names an audio file by its extension.
pub fn is_audio_file(path: &str) -> (r: bool)
    ensures
        r == audio_file(path@),
{
    match path_extension(path) {
        Some(ext) => audio_extension(ext.as_str()),
        None => false,
    }
}

/// Whether `path` names a WAV file: its extension, in lower case, is `wav`.
pub open spec fn wav_file(path: Seq<char>) -> bool {
    path_extension_of(path) matches Some(e) && lower_text(e) == "wav"@
}

/// Whether the extension `ext`, as written, is `wav` in lower case.
pub fn wav_extension(ext: &str) -> (r: bool)
    ensures
        r == (lower_text(ext@) == "wav"@),
{
    let e = lowercase(ext);
    e == String::from_str("wav")
}

/// Whether the path written `path` names a WAV file by its extension.
pub fn is_wav_file(path: &str) -> (r: bool)
    ensures
        r == wav_file(path@),
{
    match path_extension(path) {
        Some(ext) => wav_extension(ext.as_str()),
        None => false,
    }
}

/// The name of the processed copy of the file `file_name`: its stem
/// followed by `_processed.wav`; none when it has no stem.
pub open spec fn processed_name(file_name: Seq<char>) -> Option<Seq<char>> {
    match path_stem_of(file_name) {
        Some(stem) => Some(stem + "_processed.wav"@),
        None => None,
    }
}

/// The name under which the processed copy of `file_name` is written.
pub fn processed_file_name(file_name: &str) -> (r: Option<String>)
    ensures
        opt_text(r) == processed_name(file_name@),
{
    match path_stem(file_name) {
        Some(stem) => Some(stem.concat("_processed.wav")),
        None => None,
    }
}

/// The number of bars in the waveform view.
pub const PEAK_BARS: usize = 60;

/// How many samples one waveform bar covers for `n` samples: a sixtieth of
/// them, at least one.
pub open spec fn peak_chunk(n: nat) -> nat {
    if n / 60 >= 1 {
        n / 60
    } else {
        1
    }
}

/// How many samples one waveform bar covers (see `peak_chunk`).
pub fn peak_chunk_size(n: usize) -> (r: usize)
    ensures
        r == peak_chunk(n as nat),
        r >= 1,
{
    let c = n / 60;
    if c >= 1 {
        c
    } else {
        1
    }
}

/// The waveform bars from the peaks of the chunks: the first sixty peaks,
/// padded with zeros to sixty bars.
pub open spec fn fitted_peaks(peaks: Seq<u64>) -> Seq<u64> {
    Seq::new(60, |i: int| if i < peaks.len() { peaks[i] } else { 0 })
}

/// Pads or cuts the chunk peaks to exactly sixty bars.
pub fn fit_peaks(peaks: Vec<u64>) -> (r: Vec<u64>)
    ensures
        r@ == fitted_peaks(peaks@),
{
    let mut out: Vec<u64> = Vec::new();
    let mut i: usize = 0;
    while i < PEAK_BARS
        invariant
            i <= PEAK_BARS,
            out@ == fitted_peaks(peaks@).take(i as int),
        decreases PEAK_BARS - i,
    {
        let v = if i < peaks.len() {
            peaks[i]
        } else {
            0
        };
        out.push(v);
        i = i + 1;
        assert(out@ =~= fitted_peaks(peaks@).take(i as int));
    }
    assert(out@ =~= fitted_peaks(peaks@));
    out
}

} // verus!
