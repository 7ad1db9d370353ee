//! Glob-style route patterns: `*` stands for any run of characters.
use vstd::prelude::*;
use crate::text::{chars_of, has_prefix, has_suffix, occurs_at, occurs_at_exec, ends_with, starts_with, slice, split, split_exec, lemma_split_len};

verus! {

/// The first index at or after `pos` where `part` occurs in `s`.
pub open spec fn find_from(s: Seq<char>, part: Seq<char>, pos: int) -> Option<int>
    decreases s.len() + 1 - pos,
{
    if pos < 0 || pos + part.len() > s.len() {
        None
    } else if occurs_at(s, part, pos) {
        Some(pos)
    } else {
        find_from(s, part, pos + 1)
    }
}

/// Finds each of `parts` in `s` in turn, each at its first occurrence after the
/// previous one; the position just past the last one found.
pub open spec fn scan(s: Seq<char>, parts: Seq<Seq<char>>, pos: int) -> Option<int>
    decreases parts.len(),
{
    if parts.len() == 0 {
        Some(pos)
    } else {
        match find_from(s, parts[0], pos) {
            Some(i) => scan(s, parts.drop_first(), i + parts[0].len()),
            None => None,
        }
    }
}

/// Whether `path` matches `pattern`: without `*`, the two are equal; with it,
/// `path` starts with the first fragment, holds the interior fragments in order
/// (each at its first occurrence after the one before), and what remains ends
/// with the last fragment.
pub open spec fn glob_matches(pattern: Seq<char>, path: Seq<char>) -> bool {
    if !pattern.contains('*') {
        path == pattern
    } else {
        let f = split(pattern, '*');
        starts_with(path, f[0]) && match scan(path, f.subrange(1, f.len() - 1), f[0].len() as int) {
            Some(q) => ends_with(path.subrange(q, path.len() as int), f.last()),
            None => false,
        }
    }
}

/// The first index at or after `pos` where `part` occurs in `s`.
fn find_from_exec(s: &Vec<char>, part: &Vec<char>, pos: usize) -> (r: Option<usize>)
    ensures
        r matches Some(i) ==> find_from(s@, part@, pos as int) == Some(i as int),
        r is None ==> find_from(s@, part@, pos as int) is None,
{
    if part.len() > s.len() || pos > s.len() - part.len() {
        return None;
    }
    let mut i: usize = pos;
    while i <= s.len() - part.len()
        invariant
            pos <= i <= s.len() - part.len() + 1,
            part.len() <= s.len(),
            find_from(s@, part@, pos as int) == find_from(s@, part@, i as int),
        decreases s.len() - part.len() + 1 - i,
    {
        if occurs_at_exec(s, part, i) {
            return Some(i);
        }
        assert(find_from(s@, part@, i as int) == find_from(s@, part@, i + 1));
        if i == s.len() - part.len() {
            assert(find_from(s@, part@, i + 1) is None);
            return None;
        }
        i = i + 1;
    }
    None
}

/// Whether `path` matches the wildcard `pattern` (see `glob_matches`).
pub fn matches_pattern(pattern: &str, path: &str) -> (r: bool)
    ensures
        r == glob_matches(pattern@, path@),
{
    let p = chars_of(pattern);
    let s = chars_of(path);
    let parts = split_exec(&p, '*');
    proof {
        lemma_split_len(p@, '*');
    }
    if parts.len() == 1 {
        assert(parts@[0]@ == p@);
        let eq = p.len() == s.len() && occurs_at_exec(&s, &p, 0);
        assert(eq ==> s@ =~= p@) by {
            if eq {
                assert(s@.subrange(0, p.len() as int) =~= s@);
            }
        }
        assert(s@ == p@ ==> eq) by {
            if s@ == p@ {
                assert(s@.subrange(0, p.len() as int) =~= s@);
            }
        }
        return eq;
    }
    let ghost f = split(p@, '*');
    assert(p@.contains('*'));
    if !has_prefix(&s, &parts[0]) {
        return false;
    }
    let mut position: usize = parts[0].len();
    let last = parts.len() - 1;
    let mut k: usize = 1;
    while k < last
        invariant
            1 <= k <= last,
            last == parts.len() - 1,
            parts.len() == f.len(),
            f == split(p@, '*'),
            forall|i: int| 0 <= i < parts.len() ==> #[trigger] parts@[i]@ == f[i],
            position <= s.len(),
            starts_with(s@, f[0]),
            p@.contains('*'),
            p@ == pattern@,
            s@ == path@,
            scan(s@, f.subrange(1, f.len() - 1), f[0].len() as int)
                == scan(s@, f.subrange(k as int, f.len() - 1), position as int),
        decreases last - k,
    {
        assert(parts@[k as int]@ == f[k as int]);
        let ghost rest = f.subrange(k as int, f.len() - 1);
        assert(rest[0] == f[k as int]);
        assert(rest.drop_first() =~= f.subrange(k + 1, f.len() - 1));
        match find_from_exec(&s, &parts[k], position) {
            Some(found) => {
                proof { lemma_find_bounds(s@, f[k as int], position as int); }
                position = found + parts[k].len();
            },
            None => {
                assert(rest.len() > 0);
                assert(scan(s@, rest, position as int) is None);
                assert(starts_with(s@, f[0]));
                return false;
            },
        }
        k = k + 1;
    }
    assert(f.subrange(k as int, f.len() - 1).len() == 0);
    let tail = slice(&s, position, s.len());
    assert(parts@[last as int]@ == f.last());
    has_suffix(&tail, &parts[last])
}

/// Where `find_from` succeeds, the fragment found lies within `s`.
proof fn lemma_find_bounds(s: Seq<char>, part: Seq<char>, pos: int)
    ensures
        find_from(s, part, pos) matches Some(i) ==> pos <= i && i + part.len() <= s.len(),
    decreases s.len() + 1 - pos,
{
    if pos >= 0 && pos + part.len() <= s.len() && !occurs_at(s, part, pos) {
        assert(s.subrange(pos, pos + part.len()).len() == part.len());
        lemma_find_bounds(s, part, pos + 1);
    }
}

} // verus!
