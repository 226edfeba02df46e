//! String primitives the rest of the crate builds on: path joining, locating
//! the last occurrence of a separator, and the suffix/prefix around it.
//!
//! Paths are held as plain strings; a directory separator is `'/'`. The spec
//! functions here are the vocabulary of every path-related contract.

use vstd::prelude::*;
use vstd::string::*;

verus! {

/// What joining `child` onto the directory `base` yields: an absolute child
/// replaces the base, and exactly one separator stands between a base not
/// already ending in one and a relative child.
pub open spec fn spec_join(base: Seq<char>, child: Seq<char>) -> Seq<char> {
    if child.len() > 0 && child[0] == '/' {
        child
    } else if base.len() > 0 && base[base.len() - 1] == '/' {
        base + child
    } else {
        base + seq!['/'] + child
    }
}

/// The suffix of `s` after the last occurrence of `c`; all of `s` when `c`
/// does not occur.
pub open spec fn after_last(s: Seq<char>, c: char) -> Seq<char>
    decreases s.len(),
{
    if s.len() == 0 {
        s
    } else if s.last() == c {
        Seq::empty()
    } else {
        after_last(s.drop_last(), c).push(s.last())
    }
}

/// The prefix of `s` before the last occurrence of `c`; all of `s` when `c`
/// does not occur.
pub open spec fn before_last(s: Seq<char>, c: char) -> Seq<char>
    decreases s.len(),
{
    if s.len() == 0 {
        s
    } else if s.last() == c {
        s.drop_last()
    } else {
        before_last(s.drop_last(), c)
    }
}

/// When `c` stands at `i` and nowhere later, `after_last` is the suffix
/// beyond `i` and `before_last` the prefix up to `i`.
pub proof fn lemma_last_occurrence(s: Seq<char>, c: char, i: int)
    requires
        0 <= i < s.len(),
        s[i] == c,
        forall|j: int| i < j < s.len() ==> s[j] != c,
    ensures
        after_last(s, c) =~= s.subrange(i + 1, s.len() as int),
        before_last(s, c) =~= s.subrange(0, i),
    decreases s.len(),
{
    if i == s.len() - 1 {
        assert(s.last() == c);
    } else {
        assert(s.last() != c);
        lemma_last_occurrence(s.drop_last(), c, i);
        assert(s.drop_last().subrange(i + 1, s.drop_last().len() as int) =~= s.subrange(
            i + 1,
            s.len() - 1,
        ));
        assert(after_last(s, c) =~= s.subrange(i + 1, s.len() - 1).push(s.last()));
        assert(s.drop_last().subrange(0, i) =~= s.subrange(0, i));
    }
}

/// When `c` does not occur in `s`, `after_last` is `s` itself (and nothing
/// stands before a missing occurrence).
pub proof fn lemma_no_occurrence(s: Seq<char>, c: char)
    requires
        forall|j: int| 0 <= j < s.len() ==> s[j] != c,
    ensures
        after_last(s, c) =~= s,
        before_last(s, c) =~= Seq::<char>::empty(),
    decreases s.len(),
{
    if s.len() > 0 {
        lemma_no_occurrence(s.drop_last(), c);
    }
}

/// A sequence of strings as the sequence of their character sequences.
pub open spec fn strs_view(v: Seq<String>) -> Seq<Seq<char>> {
    v.map_values(|s: String| s@)
}

/// Whether some string in `names` holds the same characters as `name`.
pub fn names_contain(names: &Vec<String>, name: &str) -> (r: bool)
    ensures
        r == strs_view(names@).contains(name@),
{
    let n = names.len();
    let mut i: usize = 0;
    while i < n
        invariant
            i <= n,
            n == names@.len(),
            forall|j: int| 0 <= j < i ==> strs_view(names@)[j] != name@,
        decreases n - i,
    {
        if str_eq(names[i].as_str(), name) {
            proof {
                assert(strs_view(names@)[i as int] == name@);
            }
            return true;
        }
        i = i + 1;
    }
    proof {
        if strs_view(names@).contains(name@) {
            let j = choose|j: int|
                0 <= j < strs_view(names@).len() && strs_view(names@)[j] == name@;
            assert(false);
        }
    }
    false
}

/// Whether two string slices hold the same characters.
pub fn str_eq(a: &str, b: &str) -> (r: bool)
    ensures
        r == (a@ == b@),
{
    let x = a.to_owned();
    let y = b.to_owned();
    x == y
}

/// The index of the last occurrence of `c` in `s`, if any.
pub fn rfind_char(s: &str, c: char) -> (r: Option<usize>)
    ensures
        match r {
            Some(i) => i < s@.len() && s@[i as int] == c && (forall|j: int|
                i < j < s@.len() ==> s@[j] != c),
            None => forall|j: int| 0 <= j < s@.len() ==> s@[j] != c,
        },
{
    let n = s.unicode_len();
    let mut i: usize = n;
    while i > 0
        invariant
            i <= n,
            n == s@.len(),
            forall|j: int| i <= j < s@.len() ==> s@[j] != c,
        decreases i,
    {
        i = i - 1;
        if s.get_char(i) == c {
            return Some(i);
        }
    }
    None
}

/// Joins a child path onto a base directory the way `Path::join` does on
/// Unix path strings.
pub fn path_join(base: &str, child: &str) -> (r: String)
    ensures
        r@ == spec_join(base@, child@),
{
    let child_len = child.unicode_len();
    if child_len > 0 && child.get_char(0) == '/' {
        return child.to_owned();
    }
    let base_len = base.unicode_len();
    let mut r = base.to_owned();
    if base_len > 0 && base.get_char(base_len - 1) == '/' {
        r.append(child);
        r
    } else {
        proof {
            reveal_strlit("/");
        }
        r.append("/");
        r.append(child);
        proof {
            assert(r@ =~= base@ + seq!['/'] + child@);
        }
        r
    }
}

/// The extension of a file name: what stands after the last dot, provided
/// something stands before it. A name without a dot, or with nothing before
/// its only dot, has none.
pub open spec fn spec_extension(file_name: Seq<char>) -> Option<Seq<char>> {
    if file_name.contains('.') && before_last(file_name, '.').len() > 0 {
        Some(after_last(file_name, '.'))
    } else {
        None
    }
}

/// The extension of a file name, as a fresh string.
pub fn extension_of(file_name: &str) -> (r: Option<String>)
    ensures
        match r {
            Some(e) => spec_extension(file_name@) == Some(e@),
            None => spec_extension(file_name@) is None,
        },
{
    match rfind_char(file_name, '.') {
        Some(i) => {
            proof {
                lemma_last_occurrence(file_name@, '.', i as int);
                assert(file_name@.contains('.'));
            }
            if i > 0 {
                let n = file_name.unicode_len();
                let part = file_name.substring_char(i + 1, n);
                Some(part.to_owned())
            } else {
                None
            }
        },
        None => {
            proof {
                lemma_no_occurrence(file_name@, '.');
                if file_name@.contains('.') {
                    let j = choose|j: int|
                        0 <= j < file_name@.len() && file_name@[j] == '.';
                    assert(false);
                }
            }
            None
        },
    }
}

/// The suffix of `s` after the last occurrence of `c`, as a fresh string;
/// `s` itself when `c` does not occur.
pub fn suffix_after_last(s: &str, c: char) -> (r: String)
    ensures
        r@ == after_last(s@, c),
{
    match rfind_char(s, c) {
        Some(i) => {
            let n = s.unicode_len();
            let part = s.substring_char(i + 1, n);
            proof {
                lemma_last_occurrence(s@, c, i as int);
            }
            part.to_owned()
        },
        None => {
            proof {
                lemma_no_occurrence(s@, c);
            }
            s.to_owned()
        },
    }
}

} // verus!
