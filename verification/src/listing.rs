//! The file list: the order of directory entries, the names that open as
//! INI Soundcourses or are shown as configuration files, and the WAV files
//! a batch run processes.
use vstd::prelude::*;
use crate::files::{is_wav_file, wav_file};
use crate::parser::SourceFormat;
use crate::text::{
    ascii_lower, ascii_text, ends_with, has_suffix, lemma_lower_text_idempotent, lower_text, lowercase,
};

verus! {

broadcast use crate::text::lemma_lower_text_fixed;

/// Whether the name `a` comes before the name `b` from position `i` on, in
/// the order of `String`'s `Ord`: the first differing character decides by
/// its code point, and a proper prefix comes first.
pub open spec fn name_before_from(a: Seq<char>, b: Seq<char>, i: nat) -> bool
    decreases a.len() - i,
{
    if i >= a.len() {
        i < b.len()
    } else if i >= b.len() {
        false
    } else if a[i as int] != b[i as int] {
        (a[i as int] as u32) < (b[i as int] as u32)
    } else {
        name_before_from(a, b, i + 1)
    }
}

/// Whether the name `a` comes before the name `b` (see `name_before_from`).
pub open spec fn name_before(a: Seq<char>, b: Seq<char>) -> bool {
    name_before_from(a, b, 0)
}

/// A listed entry as plain values: its name and whether it is a directory.
pub open spec fn entry_view(e: (String, bool)) -> (Seq<char>, bool) {
    (e.0@, e.1)
}

/// The entries as plain values.
pub open spec fn entry_views(s: Seq<(String, bool)>) -> Seq<(Seq<char>, bool)> {
    s.map_values(|e: (String, bool)| entry_view(e))
}

/// Whether entry `a` is listed before entry `b`: directories come before
/// files, and within each group names are in `String` order.
pub open spec fn entry_before(a: (Seq<char>, bool), b: (Seq<char>, bool)) -> bool {
    (a.1 && !b.1) || (a.1 == b.1 && name_before(a.0, b.0))
}

/// Whether no entry of `s` is listed before an entry that precedes it.
pub open spec fn entries_sorted(s: Seq<(Seq<char>, bool)>) -> bool {
    forall|i: int, j: int| 0 <= i < j < s.len() ==> !entry_before(#[trigger] s[j], #[trigger] s[i])
}

proof fn lemma_name_before_from_transitive(a: Seq<char>, b: Seq<char>, c: Seq<char>, i: nat)
    requires
        name_before_from(a, b, i),
        name_before_from(b, c, i),
    ensures
        name_before_from(a, c, i),
    decreases a.len() - i,
{
    if i < a.len() && i < b.len() && i < c.len() && a[i as int] == b[i as int] && b[i as int]
        == c[i as int] {
        lemma_name_before_from_transitive(a, b, c, i + 1);
    }
}

/// The order of entries is transitive.
proof fn lemma_entry_before_transitive(
    a: (Seq<char>, bool),
    b: (Seq<char>, bool),
    c: (Seq<char>, bool),
)
    requires
        entry_before(a, b),
        entry_before(b, c),
    ensures
        entry_before(a, c),
{
    if a.1 == b.1 && b.1 == c.1 {
        lemma_name_before_from_transitive(a.0, b.0, c.0, 0);
    }
}

/// Whether the name `a` comes before the name `b` in `String` order.
pub fn name_precedes(a: &str, b: &str) -> (r: bool)
    ensures
        r == name_before(a@, b@),
{
    let n = a.unicode_len();
    let m = b.unicode_len();
    let mut i: usize = 0;
    while i < n && i < m
        invariant
            n == a@.len(),
            m == b@.len(),
            i <= n,
            i <= m,
            name_before(a@, b@) == name_before_from(a@, b@, i as nat),
        decreases n - i,
    {
        let x = a.get_char(i);
        let y = b.get_char(i);
        if x != y {
            return (x as u32) < (y as u32);
        }
        i = i + 1;
    }
    i < m
}

/// Whether entry `a` is listed before entry `b` (see `entry_before`).
pub fn entry_precedes(a: &(String, bool), b: &(String, bool)) -> (r: bool)
    ensures
        r == entry_before(entry_view(*a), entry_view(*b)),
{
    if a.1 && !b.1 {
        true
    } else if a.1 == b.1 {
        name_precedes(a.0.as_str(), b.0.as_str())
    } else {
        false
    }
}

/// No name comes before itself.
proof fn lemma_name_before_from_irreflexive(a: Seq<char>, i: nat)
    ensures
        !name_before_from(a, a, i),
    decreases a.len() - i,
{
    if i < a.len() {
        lemma_name_before_from_irreflexive(a, i + 1);
    }
}

/// An empty sequence holds nothing.
proof fn lemma_empty_to_multiset<A>(s: Seq<A>)
    requires
        s.len() == 0,
    ensures
        s.to_multiset() =~= vstd::multiset::Multiset::<A>::empty(),
{
    broadcast use vstd::seq_lib::group_to_multiset_ensures;
    broadcast use vstd::multiset::group_multiset_axioms;

    assert forall|a: A| s.to_multiset().count(a) == vstd::multiset::Multiset::<A>::empty().count(a) by {
        assert(!s.contains(a));
    }
}

/// The entries of a directory in the order the file list shows them:
/// directories first, then files, each group by name in `String` order.
/// The result holds the same entries, each as often as the input does.
pub fn sort_entries(entries: Vec<(String, bool)>) -> (r: Vec<(String, bool)>)
    ensures
        entry_views(r@).to_multiset() == entry_views(entries@).to_multiset(),
        entries_sorted(entry_views(r@)),
{
    broadcast use vstd::multiset::group_multiset_axioms;

    let ghost all = entry_views(entries@);
    let mut rest = entries;
    let mut out: Vec<(String, bool)> = Vec::new();
    assert(entry_views(out@) =~= Seq::<(Seq<char>, bool)>::empty());
    proof {
        lemma_empty_to_multiset(entry_views(out@));
    }
    assert(entry_views(out@).to_multiset().add(entry_views(rest@).to_multiset()) =~= all.to_multiset());
    while rest.len() > 0
        invariant
            entry_views(out@).to_multiset().add(entry_views(rest@).to_multiset()) == all.to_multiset(),
            entries_sorted(entry_views(out@)),
        decreases rest.len(),
    {
        let ghost before_rest = rest@;
        let e = rest.pop().unwrap();
        let ghost x = entry_view(e);
        assert(entry_views(before_rest) =~= entry_views(rest@).push(x));
        let mut p: usize = 0;
        loop
            invariant
                p <= out.len(),
                x == entry_view(e),
                forall|k: int| 0 <= k < p ==> !entry_before(x, #[trigger] entry_view(out@[k])),
            ensures
                p <= out.len(),
                forall|k: int| 0 <= k < p ==> !entry_before(x, #[trigger] entry_view(out@[k])),
                p < out.len() ==> entry_before(x, entry_view(out@[p as int])),
            decreases out.len() - p,
        {
            if p >= out.len() {
                break;
            }
            if entry_precedes(&e, &out[p]) {
                break;
            }
            p = p + 1;
        }
        let ghost old_out = out@;
        let ghost w = entry_views(old_out);
        out.insert(p, e);
        let ghost v = entry_views(out@);
        assert(v =~= w.insert(p as int, x));
        proof {
            vstd::seq_lib::to_multiset_insert(w, p as int, x);
            vstd::seq_lib::to_multiset_build(entry_views(rest@), x);
            assert(v.to_multiset().add(entry_views(rest@).to_multiset()) =~= w.to_multiset().add(
                entry_views(before_rest).to_multiset(),
            ));
        }
        assert forall|i: int, j: int| 0 <= i < j < v.len() implies !entry_before(
            #[trigger] v[j],
            #[trigger] v[i],
        ) by {
            if i < p && j == p {
                assert(v[i] == entry_view(old_out[i]));
            } else if i == p && j > p {
                // `x` is listed before the entry that followed its place, and
                // no later entry was listed before that one.
                assert(v[j] == w[j - 1]);
                assert(entry_before(x, w[p as int]));
                if entry_before(v[j], x) {
                    lemma_entry_before_transitive(w[j - 1], x, w[p as int]);
                    if j - 1 == p {
                        lemma_name_before_from_irreflexive(w[p as int].0, 0);
                    }
                }
            } else if j < p {
                assert(v[i] == w[i] && v[j] == w[j]);
            } else if i < p {
                assert(v[i] == w[i] && v[j] == w[j - 1]);
            } else {
                assert(v[i] == w[i - 1] && v[j] == w[j - 1]);
            }
        }
    }
    assert(entry_views(rest@) =~= Seq::<(Seq<char>, bool)>::empty());
    proof {
        lemma_empty_to_multiset(entry_views(rest@));
        assert(entry_views(out@).to_multiset().add(entry_views(rest@).to_multiset())
            =~= entry_views(out@).to_multiset());
    }
    out
}

/// The names of `s`.
pub open spec fn name_views(s: Seq<String>) -> Seq<Seq<char>> {
    s.map_values(|n: String| n@)
}

/// The names among `names` that are WAV file names, in their order.
pub open spec fn wav_only(names: Seq<Seq<char>>) -> Seq<Seq<char>> {
    names.filter(|n: Seq<char>| wav_file(n))
}

/// The names of the top-level files of a directory that a batch run
/// processes: those of WAV files, in list order.
pub fn wav_names(names: &Vec<String>) -> (r: Vec<String>)
    ensures
        name_views(r@) == wav_only(name_views(names@)),
{
    let mut out: Vec<String> = Vec::new();
    let mut i: usize = 0;
    proof {
        reveal(Seq::filter);
    }
    assert(name_views(names@).take(0) =~= Seq::<Seq<char>>::empty());
    assert(name_views(out@) =~= wav_only(name_views(names@).take(0)));
    while i < names.len()
        invariant
            i <= names.len(),
            name_views(out@) == wav_only(name_views(names@).take(i as int)),
        decreases names.len() - i,
    {
        let ghost prefix = name_views(names@).take(i as int + 1);
        assert(prefix.drop_last() =~= name_views(names@).take(i as int));
        assert(prefix.last() == names@[i as int]@);
        proof {
            reveal(Seq::filter);
        }
        let keep = is_wav_file(names[i].as_str());
        let ghost before = out@;
        if keep {
            out.push(names[i].clone());
            assert(name_views(out@) =~= name_views(before).push(names@[i as int]@));
        }
        assert(name_views(out@) == wav_only(prefix));
        i = i + 1;
    }
    assert(name_views(names@).take(names.len() as int) =~= name_views(names@));
    out
}

/// The form of the Soundcourse file named `name`, told by its name in lower
/// case: ending in `.ini`, or in `.json` / `.jsonld`; none otherwise.
pub open spec fn soundcourse_form(name: Seq<char>) -> Option<SourceFormat> {
    let lower = lower_text(name);
    if has_suffix(lower, ".ini"@) {
        Some(SourceFormat::Ini)
    } else if has_suffix(lower, ".json"@) || has_suffix(lower, ".jsonld"@) {
        Some(SourceFormat::JsonLd)
    } else {
        None
    }
}

/// Law: whether and how a file loads as a Soundcourse does not depend on
/// the case of its (ASCII) name: a name ending in `.ini` in any case loads
/// as INI, one ending in `.json` or `.jsonld` in any case as JSON-LD.
pub proof fn law_soundcourse_form_ignores_case(name: Seq<char>)
    requires
        ascii_text(name),
    ensures
        soundcourse_form(name) == soundcourse_form(ascii_lower(name)),
        has_suffix(ascii_lower(name), ".ini"@) ==> soundcourse_form(name) == Some(SourceFormat::Ini),
        has_suffix(ascii_lower(name), ".json"@) || has_suffix(ascii_lower(name), ".jsonld"@)
            ==> soundcourse_form(name) == Some(SourceFormat::JsonLd),
{
    lemma_lower_text_idempotent(name);
    reveal_strlit(".ini");
    reveal_strlit(".json");
    reveal_strlit(".jsonld");
    let l = ascii_lower(name);
    if has_suffix(l, ".ini"@) && (has_suffix(l, ".json"@) || has_suffix(l, ".jsonld"@)) {
        assert(l[l.len() - 1] == ".ini"@[3]);
        if has_suffix(l, ".json"@) {
            assert(l[l.len() - 1] == ".json"@[4]);
        } else {
            assert(l[l.len() - 1] == ".jsonld"@[6]);
        }
    }
}

/// What Enter does on an entry of the file list.
#[derive(Debug, Clone, Copy, PartialEq, Eq, Structural)]
pub enum EntryAction {
    /// Open the parent directory (the entry `..`).
    OpenParent,
    /// Open the directory.
    OpenDirectory,
    /// Load the file as a Soundcourse in the given form, keeping the current
    /// one if it does not read.
    LoadSoundcourse(SourceFormat),
    /// Nothing: a file that is no Soundcourse.
    Nothing,
}

/// What Enter does on the entry `name`, a directory when `is_dir`.
pub open spec fn entry_action_of(name: Seq<char>, is_dir: bool) -> EntryAction {
    if name == ".."@ {
        EntryAction::OpenParent
    } else if is_dir {
        EntryAction::OpenDirectory
    } else {
        match soundcourse_form(name) {
            Some(f) => EntryAction::LoadSoundcourse(f),
            None => EntryAction::Nothing,
        }
    }
}

/// What Enter does on the entry `name`, a directory when `is_dir` (see
/// `entry_action_of`).
pub fn entry_action(name: &str, is_dir: bool) -> (r: EntryAction)
    ensures
        r == entry_action_of(name@, is_dir),
{
    proof {
        reveal_strlit(".ini");
        reveal_strlit(".json");
        reveal_strlit(".jsonld");
    }
    if String::from_str(name) == String::from_str("..") {
        return EntryAction::OpenParent;
    }
    if is_dir {
        return EntryAction::OpenDirectory;
    }
    let lower = lowercase(name);
    if ends_with(lower.as_str(), ".ini") {
        EntryAction::LoadSoundcourse(SourceFormat::Ini)
    } else if ends_with(lower.as_str(), ".json") || ends_with(lower.as_str(), ".jsonld") {
        EntryAction::LoadSoundcourse(SourceFormat::JsonLd)
    } else {
        EntryAction::Nothing
    }
}

/// Whether the entry named `name` is shown as a configuration file: its
/// name ends in `.ini` or `.json`, as written.
pub open spec fn names_config(name: Seq<char>) -> bool {
    has_suffix(name, ".ini"@) || has_suffix(name, ".json"@)
}

/// Whether the entry named `name` is shown as a configuration file.
pub fn is_config_name(name: &str) -> (r: bool)
    ensures
        r == names_config(name@),
{
    ends_with(name, ".ini") || ends_with(name, ".json")
}

} // verus!
