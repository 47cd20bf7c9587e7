//! The parts of `configparser` that the INI reader and writer use.
//!
//! Every `Ini` in this library is made by `Ini::new()`, so it has the
//! default settings: case-insensitive names, `;` and `#` comments (also
//! inline), `=` and `:` delimiters, no multi-line values, no cascading to
//! the default section, whose name is `default`. These items stay inside the
//! library: no public function takes or returns an `Ini`.
use vstd::prelude::*;
use configparser::ini::Ini;
use crate::error::opt_text;
use crate::ini_doc::{doc_well_formed, IniDoc, IniSection};
use crate::text::lower_text;

verus! {

broadcast use crate::text::lemma_lower_text_fixed;

#[verifier::external_type_specification]
#[verifier::external_body]
pub struct ExIni(Ini);

/// What an `Ini` holds: each section name maps to its keys, and each key to
/// its value (`None` for a key written without a delimiter).
pub uninterp spec fn ini_contents(ini: Ini) -> Map<Seq<char>, Map<Seq<char>, Option<Seq<char>>>>;

/// What `Ini::read` makes of a text with the default settings: the parsed
/// sections, or the message of the first malformed line.
pub uninterp spec fn ini_parse_text(text: Seq<char>) -> Result<
    Map<Seq<char>, Map<Seq<char>, Option<Seq<char>>>>,
    Seq<char>,
>;

/// The value stored at `section` / `key`, looked up the way `Ini::get` does:
/// both names folded to lower case (`configparser`'s `casefold`), and a key
/// without a value read as absent.
pub open spec fn ini_value(
    m: Map<Seq<char>, Map<Seq<char>, Option<Seq<char>>>>,
    section: Seq<char>,
    key: Seq<char>,
) -> Option<Seq<char>> {
    let s = lower_text(section);
    let k = lower_text(key);
    if m.contains_key(s) && m[s].contains_key(k) {
        m[s][k]
    } else {
        None
    }
}

/// The contents after `Ini::set(section, key, value)`: the folded key of the
/// folded section holds `value`, the section being created if needed.
pub open spec fn ini_with(
    m: Map<Seq<char>, Map<Seq<char>, Option<Seq<char>>>>,
    section: Seq<char>,
    key: Seq<char>,
    value: Option<Seq<char>>,
) -> Map<Seq<char>, Map<Seq<char>, Option<Seq<char>>>> {
    let s = lower_text(section);
    let k = lower_text(key);
    let old_keys = if m.contains_key(s) {
        m[s]
    } else {
        Map::empty()
    };
    m.insert(s, old_keys.insert(k, value))
}

/// A character that may stand in a section or key name that survives a
/// write and a read unchanged: a lower-case ASCII letter, a digit, `_`, `.`
/// or `-`.
pub open spec fn is_plain_name_char(c: char) -> bool {
    ('a' <= c && c <= 'z') || ('0' <= c && c <= '9') || c == '_' || c == '.' || c == '-'
}

/// A non-empty name of plain name characters.
pub open spec fn is_plain_name(s: Seq<char>) -> bool {
    s.len() > 0 && forall|i: int| 0 <= i < s.len() ==> is_plain_name_char(#[trigger] s[i])
}

/// Whether `c` is white space as `str::trim` sees it (Unicode
/// `White_Space`).
pub open spec fn is_white_space(c: char) -> bool {
    ||| ('\u{9}' <= c && c <= '\u{d}')
    ||| c == ' '
    ||| c == '\u{85}'
    ||| c == '\u{a0}'
    ||| c == '\u{1680}'
    ||| ('\u{2000}' <= c && c <= '\u{200a}')
    ||| c == '\u{2028}'
    ||| c == '\u{2029}'
    ||| c == '\u{202f}'
    ||| c == '\u{205f}'
    ||| c == '\u{3000}'
}

/// A character that may stand in a value that survives a write and a read:
/// anything but a line break and the comment characters `;` and `#`.
pub open spec fn is_plain_value_char(c: char) -> bool {
    c != '\n' && c != '\r' && c != ';' && c != '#'
}

/// A single-line value without comment characters that neither starts nor
/// ends with white space.
pub open spec fn is_plain_value(v: Seq<char>) -> bool {
    &&& forall|i: int| 0 <= i < v.len() ==> is_plain_value_char(#[trigger] v[i])
    &&& v.len() > 0 ==> !is_white_space(v[0]) && !is_white_space(v.last())
}

/// Contents that `Ini::writes` followed by `Ini::read` give back unchanged:
/// no `default` section, plain names, plain values.
pub open spec fn is_plain_ini(m: Map<Seq<char>, Map<Seq<char>, Option<Seq<char>>>>) -> bool {
    &&& m.dom().finite()
    &&& !m.contains_key("default"@)
    &&& forall|s: Seq<char>|
        #[trigger] m.contains_key(s) ==> {
            &&& is_plain_name(s)
            &&& m[s].dom().finite()
            &&& forall|k: Seq<char>|
                #[trigger] m[s].contains_key(k) ==> is_plain_name(k) && (m[s][k] matches Some(v)
                    ==> is_plain_value(v))
        }
}

/// The line of a key: `key=value`, or the key alone when it has no value,
/// ended by `le`.
pub open spec fn key_line(k: Seq<char>, v: Option<Seq<char>>, le: Seq<char>) -> Seq<char> {
    match v {
        Some(x) => k + "="@ + x + le,
        None => k + le,
    }
}

/// The lines of the keys `keys` of a section, in that order.
pub open spec fn keys_text(
    entries: Map<Seq<char>, Option<Seq<char>>>,
    keys: Seq<Seq<char>>,
    le: Seq<char>,
) -> Seq<char>
    decreases keys.len(),
{
    if keys.len() == 0 {
        Seq::empty()
    } else {
        keys_text(entries, keys.drop_last(), le) + key_line(keys.last(), entries[keys.last()], le)
    }
}

/// The sections `order` of `m`, each as its `[name]` line followed by the
/// lines of its keys in the order `key_orders` gives.
pub open spec fn sections_text(
    m: Map<Seq<char>, Map<Seq<char>, Option<Seq<char>>>>,
    order: Seq<Seq<char>>,
    key_orders: Map<Seq<char>, Seq<Seq<char>>>,
    le: Seq<char>,
) -> Seq<char>
    decreases order.len(),
{
    if order.len() == 0 {
        Seq::empty()
    } else {
        let s = order.last();
        sections_text(m, order.drop_last(), key_orders, le) + "["@ + s + "]"@ + le + keys_text(
            m[s],
            key_orders[s],
            le,
        )
    }
}

/// Whether `order` lists every element of `names` exactly once.
pub open spec fn lists_once(order: Seq<Seq<char>>, names: Set<Seq<char>>) -> bool {
    &&& forall|i: int| 0 <= i < order.len() ==> names.contains(#[trigger] order[i])
    &&& forall|s: Seq<char>| #[trigger] names.contains(s) ==> order.contains(s)
    &&& forall|i: int, j: int| 0 <= i < j < order.len() ==> #[trigger] order[i] != #[trigger] order[j]
}

/// Whether `text` is how `Ini::writes` writes the contents `m`: the keys of
/// the `default` section without a header, then every other section with
/// its header and key lines, sections and keys in some order, every line
/// ended by the same line ending (`\n`, or `\r\n` on Windows).
pub open spec fn written_form(text: Seq<char>, m: Map<Seq<char>, Map<Seq<char>, Option<Seq<char>>>>) -> bool {
    exists|le: Seq<char>, order: Seq<Seq<char>>, key_orders: Map<Seq<char>, Seq<Seq<char>>>|
        {
            &&& (le == "\n"@ || le == "\r\n"@)
            &&& lists_once(order, m.dom().remove("default"@))
            &&& forall|s: Seq<char>|
                #[trigger] m.contains_key(s) ==> key_orders.contains_key(s) && lists_once(
                    key_orders[s],
                    m[s].dom(),
                )
            &&& text == (if m.contains_key("default"@) {
                keys_text(m["default"@], key_orders["default"@], le)
            } else {
                Seq::empty()
            }) + sections_text(m, order, key_orders, le)
        }
}

/// Contents without any section.
pub open spec fn no_sections() -> Map<Seq<char>, Map<Seq<char>, Option<Seq<char>>>> {
    Map::empty()
}

/// Whether `text` parses to the contents `m`.
pub open spec fn parses_to(text: Seq<char>, m: Map<Seq<char>, Map<Seq<char>, Option<Seq<char>>>>) -> bool {
    ini_parse_text(text) == Ok::<Map<Seq<char>, Map<Seq<char>, Option<Seq<char>>>>, Seq<char>>(m)
}

/// `Ini::new()`: an empty `Ini` with the default settings.
#[verifier::external_body]
pub(crate) fn ini_new() -> (ini: Ini)
    ensures
        ini_contents(ini) == no_sections(),
{
    Ini::new()
}

/// `Ini::read`: on success the contents become what the text parses to; on
/// failure the contents are kept and the parser's message is returned.
#[verifier::external_body]
pub(crate) fn ini_read(ini: &mut Ini, text: String) -> (r: Result<(), String>)
    ensures
        match ini_parse_text(text@) {
            Ok(m) => r is Ok && ini_contents(*final(ini)) == m,
            Err(e) => r matches Err(msg) && msg@ == e && ini_contents(*final(ini)) == ini_contents(
                *old(ini),
            ),
        },
{
    match ini.read(text) {
        Ok(_) => Ok(()),
        Err(e) => Err(e),
    }
}

/// `Ini::get_map_ref`: the sections with their keys and values, copied into
/// plain values. The order of sections and keys is that of the underlying
/// `HashMap`, which is not stated; names do not repeat, as `HashMap` keys.
#[verifier::external_body]
pub(crate) fn ini_document(ini: &Ini) -> (d: IniDoc)
    ensures
        doc_well_formed(d),
        d@ == ini_contents(*ini),
{
    let sections = ini.get_map_ref().iter().map(|(name, keys)| IniSection {
        name: name.clone(),
        entries: keys.iter().map(|(k, v)| (k.clone(), v.clone())).collect(),
    }).collect();
    IniDoc { sections }
}

/// `Ini::set`: stores `value` at `section` / `key`.
#[verifier::external_body]
pub(crate) fn ini_set(ini: &mut Ini, section: &str, key: &str, value: Option<String>)
    ensures
        ini_contents(*final(ini)) == ini_with(ini_contents(*old(ini)), section@, key@, opt_text(value)),
{
    ini.set(section, key, value);
}

/// `Ini::writes`: the contents as INI text, in the form `written_form`
/// describes. Sections and keys come in the order of the underlying
/// `HashMap`, which is not stated; plain contents (see `is_plain_ini`) read
/// back as the same contents.
#[verifier::external_body]
pub(crate) fn ini_writes(ini: &Ini) -> (r: String)
    ensures
        written_form(r@, ini_contents(*ini)),
        is_plain_ini(ini_contents(*ini)) ==> parses_to(r@, ini_contents(*ini)),
{
    ini.writes()
}

} // verus!
