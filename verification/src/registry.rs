//! The font registry: a mapping from font name to loaded font.
//!
//! The registry's view is a map from name (as a character sequence) to the
//! bytes the registered font was parsed from.  Inserting under an existing
//! name overwrites the earlier entry — last write wins — and a failed load
//! leaves the registry unchanged.  The host keeps one registry for the whole
//! process, behind whatever mutual exclusion it uses around these calls; the
//! registry itself is plain data.

use crate::errors::FontError;
use crate::fonts::{font_parses, parse_font_bytes, FontHandle};
use crate::name::{derive_font_name, spec_font_name};
use vstd::prelude::*;

verus! {

struct Entry {
    name: String,
    font: FontHandle,
}

/// The loaded fonts of the process, keyed by derived font name.
pub struct FontsState {
    entries: Vec<Entry>,
}

/// The mapping a sequence of entries denotes: later entries win.
spec fn entry_map(s: Seq<Entry>) -> Map<Seq<char>, Seq<u8>>
    decreases s.len(),
{
    if s.len() == 0 {
        Map::empty()
    } else {
        entry_map(s.drop_last()).insert(s.last().name@, s.last().font@)
    }
}

spec fn unique_names(s: Seq<Entry>) -> bool {
    forall|i: int, j: int| 0 <= i < j < s.len() ==> s[i].name@ != s[j].name@
}

/// An entry's name is a key of the map, bound to that entry's font bytes.
proof fn lemma_entry_map_index(s: Seq<Entry>, i: int)
    requires
        unique_names(s),
        0 <= i < s.len(),
    ensures
        entry_map(s).contains_key(s[i].name@),
        entry_map(s)[s[i].name@] == s[i].font@,
    decreases s.len(),
{
    if i < s.len() - 1 {
        assert(unique_names(s.drop_last()));
        lemma_entry_map_index(s.drop_last(), i);
        assert(s[i].name@ != s.last().name@);
    }
}

/// A name that no entry carries is not a key of the map.
proof fn lemma_entry_map_absent(s: Seq<Entry>, n: Seq<char>)
    requires
        forall|i: int| 0 <= i < s.len() ==> s[i].name@ != n,
    ensures
        !entry_map(s).contains_key(n),
    decreases s.len(),
{
    if s.len() > 0 {
        lemma_entry_map_absent(s.drop_last(), n);
    }
}

/// Replacing the entry that carries name `n` updates the map at `n` alone.
proof fn lemma_entry_map_update(s: Seq<Entry>, i: int, e: Entry)
    requires
        unique_names(s),
        0 <= i < s.len(),
        s[i].name@ == e.name@,
    ensures
        entry_map(s.update(i, e)) =~= entry_map(s).insert(e.name@, e.font@),
    decreases s.len(),
{
    let t = s.update(i, e);
    assert(t.last() == if i == s.len() - 1 {
        e
    } else {
        s.last()
    });
    if i == s.len() - 1 {
        assert(t.drop_last() =~= s.drop_last());
    } else {
        assert(t.drop_last() =~= s.drop_last().update(i, e));
        assert(unique_names(s.drop_last()));
        lemma_entry_map_update(s.drop_last(), i, e);
        assert(s[i].name@ != s.last().name@);
    }
}

impl View for FontsState {
    type V = Map<Seq<char>, Seq<u8>>;

    closed spec fn view(&self) -> Map<Seq<char>, Seq<u8>> {
        entry_map(self.entries@)
    }
}

impl FontsState {
    /// The registry's names are pairwise distinct; constructors establish
    /// this and every method preserves it.
    pub closed spec fn wf(&self) -> bool {
        unique_names(self.entries@)
    }

    /// Creates an empty registry.
    pub fn new() -> (r: FontsState)
        ensures
            r.wf(),
            r@ == Map::<Seq<char>, Seq<u8>>::empty(),
    {
        FontsState { entries: Vec::new() }
    }

    /// The position of the entry named `name`, if any.
    fn find_index(&self, name: &str) -> (r: Option<usize>)
        ensures
            r matches Some(i) ==> i < self.entries@.len() && self.entries@[i as int].name@
                == name@,
            r is None ==> forall|j: int|
                0 <= j < self.entries@.len() ==> self.entries@[j].name@ != name@,
    {
        let key = name.to_owned();
        let mut i: usize = 0;
        while i < self.entries.len()
            invariant
                key@ == name@,
                i <= self.entries@.len(),
                forall|j: int| 0 <= j < i ==> self.entries@[j].name@ != name@,
            decreases self.entries@.len() - i,
        {
            if self.entries[i].name == key {
                return Some(i);
            }
            i += 1;
        }
        None
    }

    /// The font registered under `name`, if any.
    pub fn lookup<'a>(&'a self, name: &str) -> (r: Option<&'a FontHandle>)
        requires
            self.wf(),
        ensures
            r is Some <==> self@.contains_key(name@),
            r matches Some(h) ==> h@ == self@[name@],
    {
        match self.find_index(name) {
            Some(i) => {
                proof {
                    lemma_entry_map_index(self.entries@, i as int);
                }
                Some(&self.entries[i].font)
            },
            None => {
                proof {
                    lemma_entry_map_absent(self.entries@, name@);
                }
                None
            },
        }
    }

    /// Registers `font` under `name`, overwriting any font already there.
    fn insert_entry(&mut self, name: String, font: FontHandle)
        requires
            old(self).wf(),
        ensures
            final(self).wf(),
            final(self)@ == old(self)@.insert(name@, font@),
    {
        match self.find_index(name.as_str()) {
            Some(i) => {
                let e = Entry { name, font };
                proof {
                    lemma_entry_map_update(self.entries@, i as int, e);
                    assert(unique_names(self.entries@.update(i as int, e)));
                }
                self.entries.set(i, e);
                assert(self@ =~= old(self)@.insert(name@, font@));
            },
            None => {
                let e = Entry { name, font };
                proof {
                    assert(unique_names(self.entries@.push(e)));
                    assert(self.entries@.push(e).drop_last() =~= self.entries@);
                }
                self.entries.push(e);
            },
        }
    }

    /// Loads a font from the bytes read at `path`: parses them, derives the
    /// registry key from the path's file stem and registers the font under
    /// it, overwriting any earlier font of that name.  Returns the derived
    /// name, or a parse error naming the path; a failed load leaves the
    /// registry unchanged.
    pub fn load_font(&mut self, path: &str, data: Vec<u8>) -> (r: Result<String, FontError>)
        requires
            old(self).wf(),
        ensures
            final(self).wf(),
            r is Ok <==> font_parses(data@),
            r matches Ok(n) ==> n@ == spec_font_name(path@) && final(self)@ == old(self)@.insert(
                spec_font_name(path@),
                data@,
            ),
            r matches Err(e) ==> final(self)@ == old(self)@ && (e matches FontError::ParseError {
                path: p } && p@ == path@),
    {
        match parse_font_bytes(data) {
            None => Err(FontError::ParseError { path: path.to_owned() }),
            Some(font) => {
                let name = derive_font_name(path);
                let returned = name.clone();
                self.insert_entry(name, font);
                Ok(returned)
            },
        }
    }
}

impl Default for FontsState {
    /// Creates an empty registry.
    fn default() -> (r: FontsState)
        ensures
            r.wf(),
            r@ == Map::<Seq<char>, Seq<u8>>::empty(),
    {
        FontsState::new()
    }
}

/// After a load registers a font's bytes under a name, a lookup of that name
/// finds exactly those bytes: loading makes the font usable.
pub proof fn lemma_load_then_lookup(m: Map<Seq<char>, Seq<u8>>, n: Seq<char>, d: Seq<u8>)
    ensures
        m.insert(n, d).contains_key(n),
        m.insert(n, d)[n] == d,
{
}

/// Two loads that derive the same name leave only the second font in the
/// registry: last write wins.
pub proof fn lemma_last_write_wins(
    m: Map<Seq<char>, Seq<u8>>,
    n: Seq<char>,
    d1: Seq<u8>,
    d2: Seq<u8>,
)
    ensures
        m.insert(n, d1).insert(n, d2) == m.insert(n, d2),
{
    assert(m.insert(n, d1).insert(n, d2) =~= m.insert(n, d2));
}

} // verus!
