//! A parsed INI document as plain values, and the lookups the readers make
//! in it.
use vstd::prelude::*;
use crate::error::opt_text;
use crate::ini_config::ini_value;
use crate::text::lowercase;

verus! {

/// One section of an INI document: its name and its keys, each with its
/// value (`None` for a key written without a delimiter).
#[derive(Debug, Clone)]
pub struct IniSection {
    pub name: String,
    pub entries: Vec<(String, Option<String>)>,
}

/// An INI document: its sections, in no particular order.
#[derive(Debug, Clone)]
pub struct IniDoc {
    pub sections: Vec<IniSection>,
}

/// Whether section `sec` has the key `k`.
pub open spec fn has_key(sec: IniSection, k: Seq<char>) -> bool {
    exists|j: int| 0 <= j < sec.entries@.len() && #[trigger] sec.entries@[j].0@ == k
}

/// The position of the key `k` in section `sec`.
pub open spec fn key_index(sec: IniSection, k: Seq<char>) -> int {
    choose|j: int| 0 <= j < sec.entries@.len() && #[trigger] sec.entries@[j].0@ == k
}

/// The keys of a section with their values.
pub open spec fn section_map(sec: IniSection) -> Map<Seq<char>, Option<Seq<char>>> {
    Map::new(|k: Seq<char>| has_key(sec, k), |k: Seq<char>| opt_text(sec.entries@[key_index(sec, k)].1))
}

/// Whether the document has a section named `s`.
pub open spec fn has_section(d: IniDoc, s: Seq<char>) -> bool {
    exists|i: int| 0 <= i < d.sections@.len() && #[trigger] d.sections@[i].name@ == s
}

/// The position of the section named `s`.
pub open spec fn section_index(d: IniDoc, s: Seq<char>) -> int {
    choose|i: int| 0 <= i < d.sections@.len() && #[trigger] d.sections@[i].name@ == s
}

impl View for IniDoc {
    type V = Map<Seq<char>, Map<Seq<char>, Option<Seq<char>>>>;

    /// Each section name maps to its keys and their values.
    open spec fn view(&self) -> Map<Seq<char>, Map<Seq<char>, Option<Seq<char>>>> {
        Map::new(
            |s: Seq<char>| has_section(*self, s),
            |s: Seq<char>| section_map(self.sections@[section_index(*self, s)]),
        )
    }
}

/// Whether no key occurs twice in a section.
pub open spec fn keys_distinct(sec: IniSection) -> bool {
    forall|a: int, b: int|
        0 <= a < b < sec.entries@.len() ==> #[trigger] sec.entries@[a].0@ != #[trigger] sec.entries@[b].0@
}

/// Whether no section name occurs twice and no key twice in a section, as
/// in every document an INI parser makes.
pub open spec fn doc_well_formed(d: IniDoc) -> bool {
    &&& forall|a: int, b: int|
        0 <= a < b < d.sections@.len() ==> #[trigger] d.sections@[a].name@
            != #[trigger] d.sections@[b].name@
    &&& forall|i: int| 0 <= i < d.sections@.len() ==> keys_distinct(#[trigger] d.sections@[i])
}

/// The position of the section named `name`, if there is one.
fn find_section(doc: &IniDoc, name: &String) -> (r: Option<usize>)
    ensures
        match r {
            Some(i) => i < doc.sections@.len() && doc.sections@[i as int].name@ == name@,
            None => !has_section(*doc, name@),
        },
{
    let mut i: usize = 0;
    while i < doc.sections.len()
        invariant
            i <= doc.sections@.len(),
            forall|j: int| 0 <= j < i ==> #[trigger] doc.sections@[j].name@ != name@,
        decreases doc.sections@.len() - i,
    {
        if doc.sections[i].name == *name {
            return Some(i);
        }
        i = i + 1;
    }
    None
}

/// The position of the key `key` in `sec`, if there is one.
fn find_key(sec: &IniSection, key: &String) -> (r: Option<usize>)
    ensures
        match r {
            Some(j) => j < sec.entries@.len() && sec.entries@[j as int].0@ == key@,
            None => !has_key(*sec, key@),
        },
{
    let mut j: usize = 0;
    while j < sec.entries.len()
        invariant
            j <= sec.entries@.len(),
            forall|q: int| 0 <= q < j ==> #[trigger] sec.entries@[q].0@ != key@,
        decreases sec.entries@.len() - j,
    {
        if sec.entries[j].0 == *key {
            return Some(j);
        }
        j = j + 1;
    }
    None
}

impl IniDoc {
    /// The value at `section` / `key`, looked up as `Ini::get` does (see
    /// `ini_value`).
    pub fn get(&self, section: &str, key: &str) -> (r: Option<String>)
        requires
            doc_well_formed(*self),
        ensures
            opt_text(r) == ini_value(self@, section@, key@),
    {
        let s = lowercase(section);
        let k = lowercase(key);
        match find_section(self, &s) {
            None => None,
            Some(i) => {
                let sec = &self.sections[i];
                proof {
                    assert(has_section(*self, s@));
                    let c = section_index(*self, s@);
                    assert(self.sections@[c].name@ == s@);
                    assert(c == i);
                }
                match find_key(sec, &k) {
                    None => None,
                    Some(j) => {
                        proof {
                            assert(keys_distinct(self.sections@[i as int]));
                            assert(has_key(*sec, k@));
                            let c = key_index(*sec, k@);
                            assert(sec.entries@[c].0@ == k@);
                            assert(c == j);
                        }
                        match &sec.entries[j].1 {
                            Some(v) => Some(v.clone()),
                            None => None,
                        }
                    },
                }
            },
        }
    }

    /// The section names, in the order of `sections`.
    pub fn section_names(&self) -> (r: Vec<String>)
        ensures
            r@.len() == self.sections@.len(),
            forall|i: int| 0 <= i < r@.len() ==> #[trigger] r@[i]@ == self.sections@[i].name@,
    {
        let mut r: Vec<String> = Vec::new();
        let mut i: usize = 0;
        while i < self.sections.len()
            invariant
                i <= self.sections@.len(),
                r@.len() == i,
                forall|j: int| 0 <= j < i ==> #[trigger] r@[j]@ == self.sections@[j].name@,
            decreases self.sections@.len() - i,
        {
            r.push(self.sections[i].name.clone());
            i = i + 1;
        }
        r
    }

    /// Whether no section name occurs twice and no key twice in a section
    /// (see `doc_well_formed`).
    pub fn is_well_formed(&self) -> (r: bool)
        ensures
            r == doc_well_formed(*self),
    {
        let n = self.sections.len();
        let mut a: usize = 0;
        while a < n
            invariant
                n == self.sections@.len(),
                a <= n,
                forall|x: int, y: int|
                    0 <= x < a && x < y < n ==> #[trigger] self.sections@[x].name@
                        != #[trigger] self.sections@[y].name@,
                forall|i: int| 0 <= i < a ==> keys_distinct(#[trigger] self.sections@[i]),
            decreases n - a,
        {
            let mut b: usize = a + 1;
            while b < n
                invariant
                    n == self.sections@.len(),
                    a < n,
                    a < b <= n,
                    forall|y: int| a < y < b ==> self.sections@[a as int].name@
                        != #[trigger] self.sections@[y].name@,
                decreases n - b,
            {
                if self.sections[a].name == self.sections[b].name {
                    return false;
                }
                b = b + 1;
            }
            let sec = &self.sections[a];
            let m = sec.entries.len();
            let mut p: usize = 0;
            while p < m
                invariant
                    n == self.sections@.len(),
                    a < n,
                    *sec == self.sections@[a as int],
                    m == sec.entries@.len(),
                    p <= m,
                    forall|x: int, y: int|
                        0 <= x < p && x < y < m ==> #[trigger] sec.entries@[x].0@
                            != #[trigger] sec.entries@[y].0@,
                decreases m - p,
            {
                let mut q: usize = p + 1;
                while q < m
                    invariant
                        n == self.sections@.len(),
                        a < n,
                        *sec == self.sections@[a as int],
                        m == sec.entries@.len(),
                        p < m,
                        p < q <= m,
                        forall|y: int| p < y < q ==> sec.entries@[p as int].0@
                            != #[trigger] sec.entries@[y].0@,
                    decreases m - q,
                {
                    if sec.entries[p].0 == sec.entries[q].0 {
                        proof {
                            assert(!keys_distinct(self.sections@[a as int]));
                        }
                        return false;
                    }
                    q = q + 1;
                }
                p = p + 1;
            }
            a = a + 1;
        }
        true
    }
}

} // verus!
