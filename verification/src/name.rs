//! Derivation of a registry key from the path a font was loaded from.
//!
//! The key is the path's file stem: the final path component, without its
//! extension.  As in std's path handling, trailing `/` separators and
//! trailing lone-`.` components are ignored, and a path whose final
//! component is `..` — or that has no component at all — has no usable file
//! name; such a path falls back to the literal name `"Unknown Font"`, a
//! deliberate permissive default rather than a failure.

use vstd::prelude::*;
use vstd::std_specs::iter::IteratorSpec;

verus! {

broadcast use vstd::string::next_postcondition;

/// The largest index at which `c` occurs in `s`, or -1 when it does not.
pub open spec fn last_index_of(s: Seq<char>, c: char) -> int
    decreases s.len(),
{
    if s.len() == 0 {
        -1
    } else if s[s.len() - 1] == c {
        s.len() - 1
    } else {
        last_index_of(s.drop_last(), c)
    }
}

/// The file name of `path`, as std's path handling finds it: trailing `/`
/// separators and trailing lone-`.` components are dropped; what remains
/// after the last `/` is the file name, unless it is `..` or nothing
/// remains.
pub open spec fn spec_file_name(path: Seq<char>) -> Option<Seq<char>>
    decreases path.len(),
{
    if path.len() == 0 {
        None
    } else if path.last() == '/' {
        spec_file_name(path.drop_last())
    } else if path.last() == '.' && (path.len() == 1 || path[path.len() - 2] == '/') {
        spec_file_name(path.drop_last())
    } else {
        let name = path.subrange(last_index_of(path, '/') + 1, path.len() as int);
        if name == seq!['.', '.'] {
            None
        } else {
            Some(name)
        }
    }
}

/// The stem of the file name `name`: the part before the final `.`, or the
/// whole name when it has no `.` past its first character (a leading dot, as
/// in a hidden file, starts the name rather than an extension).
pub open spec fn spec_stem(name: Seq<char>) -> Seq<char> {
    let d = last_index_of(name, '.');
    if d <= 0 {
        name
    } else {
        name.subrange(0, d)
    }
}

/// The registry key derived from `path`: the file stem, or `"Unknown Font"`
/// when the path has no usable file name.
pub open spec fn spec_font_name(path: Seq<char>) -> Seq<char> {
    match spec_file_name(path) {
        None => "Unknown Font"@,
        Some(name) => spec_stem(name),
    }
}

/// Collects the characters of `s`, in order.
fn str_chars(s: &str) -> (r: Vec<char>)
    ensures
        r@ == s@,
{
    let mut it = s.chars();
    let ghost all = IteratorSpec::remaining(&it);
    let mut v: Vec<char> = Vec::new();
    loop
        invariant
            IteratorSpec::obeys_prophetic_iter_laws(&it),
            IteratorSpec::decrease(&it) is Some,
            all == s@,
            v@ + IteratorSpec::remaining(&it) == all,
        ensures
            v@ == s@,
        decreases IteratorSpec::decrease(&it)->0,
    {
        let ghost before = IteratorSpec::remaining(&it);
        match it.next() {
            Some(c) => {
                assert(v@.push(c) + IteratorSpec::remaining(&it) =~= v@ + before);
                v.push(c);
            },
            None => {
                assert(IteratorSpec::remaining(&it).len() == 0);
                assert(v@ + IteratorSpec::remaining(&it) =~= v@);
                break ;
            },
        }
    }
    v
}

/// Relies on `String`'s `FromIterator<char>`: the string of exactly the
/// given characters, in order.
#[verifier::external_body]
fn string_from_chars(v: &Vec<char>) -> (r: String)
    ensures
        r@ == v@,
{
    v.iter().collect()
}

/// Extends `last_index_of` by one element: the last occurrence in `s.take(i + 1)`
/// is `i` when `s[i]` matches, and the last occurrence in `s.take(i)` otherwise.
proof fn lemma_last_index_step(s: Seq<char>, c: char, i: int)
    requires
        0 <= i < s.len(),
    ensures
        last_index_of(s.take(i + 1), c) == if s[i] == c {
            i
        } else {
            last_index_of(s.take(i), c)
        },
{
    assert(s.take(i + 1).drop_last() =~= s.take(i));
    assert(s.take(i + 1).last() == s[i]);
}

/// The largest index below `upto` at which `c` occurs in `v`, or `None`.
fn find_last_within(v: &Vec<char>, c: char, upto: usize) -> (r: Option<usize>)
    requires
        upto <= v@.len(),
    ensures
        r matches Some(k) ==> k < upto && last_index_of(v@.take(upto as int), c) == k as int,
        r is None ==> last_index_of(v@.take(upto as int), c) == -1,
{
    let mut best: Option<usize> = None;
    let mut i: usize = 0;
    while i < upto
        invariant
            i <= upto <= v@.len(),
            best matches Some(k) ==> k < i && last_index_of(v@.take(i as int), c) == k as int,
            best is None ==> last_index_of(v@.take(i as int), c) == -1,
        decreases upto - i,
    {
        proof {
            lemma_last_index_step(v@, c, i as int);
            assert(v@.take(i + 1).take(i as int) =~= v@.take(i as int));
            assert(v@.take(upto as int).take(i + 1) =~= v@.take(i + 1));
        }
        if v[i] == c {
            best = Some(i);
        }
        i += 1;
    }
    best
}

/// Copies `v[from..to]` into a fresh vector.
fn copy_range(v: &Vec<char>, from: usize, to: usize) -> (r: Vec<char>)
    requires
        from <= to <= v@.len(),
    ensures
        r@ == v@.subrange(from as int, to as int),
{
    let mut r: Vec<char> = Vec::new();
    let mut i: usize = from;
    while i < to
        invariant
            from <= i <= to <= v@.len(),
            r@ =~= v@.subrange(from as int, i as int),
        decreases to - i,
    {
        r.push(v[i]);
        assert(r@ =~= v@.subrange(from as int, i + 1 as int));
        i += 1;
    }
    r
}

/// Derives the registry key for a font loaded from `path`: the path's file
/// stem, or `"Unknown Font"` when the path has no usable file name.
pub fn derive_font_name(path: &str) -> (r: String)
    ensures
        r@ == spec_font_name(path@),
{
    let cs = str_chars(path);
    let mut n: usize = cs.len();
    assert(cs@.take(n as int) =~= cs@);
    // drop trailing separators and trailing lone-dot components, one
    // character at a time, as the recursion of `spec_file_name` does
    while n > 0 && (cs[n - 1] == '/' || (cs[n - 1] == '.' && (n == 1 || cs[n - 2] == '/')))
        invariant
            n <= cs@.len(),
            spec_file_name(cs@.take(n as int)) == spec_file_name(cs@),
        decreases n,
    {
        assert(cs@.take(n as int).drop_last() =~= cs@.take(n - 1));
        n -= 1;
    }
    if n == 0 {
        return "Unknown Font".to_owned();
    }
    let name_start: usize = match find_last_within(&cs, '/', n) {
        Some(k) => k + 1,
        None => 0,
    };
    let name = copy_range(&cs, name_start, n);
    assert(name@ =~= cs@.take(n as int).subrange(
        last_index_of(cs@.take(n as int), '/') + 1,
        n as int,
    ));
    if name.len() == 2 && name[0] == '.' && name[1] == '.' {
        assert(name@ =~= seq!['.', '.']);
        return "Unknown Font".to_owned();
    }
    proof {
        assert(name@ != seq!['.', '.']) by {
            if name@ == seq!['.', '.'] {
                assert(name@.len() == 2 && name@[0] == '.' && name@[1] == '.');
            }
        }
    }
    let stem_end: usize = match find_last_within(&name, '.', name.len()) {
        Some(k) => if k == 0 {
            name.len()
        } else {
            k
        },
        None => name.len(),
    };
    let stem = copy_range(&name, 0, stem_end);
    proof {
        assert(name@.take(name@.len() as int) =~= name@);
        if last_index_of(name@, '.') <= 0 {
            assert(name@.subrange(0, name@.len() as int) =~= name@);
        }
    }
    string_from_chars(&stem)
}

} // verus!
