//! Substring search over character sequences: first occurrence, greedy
//! non-overlapping occurrence counts and first-occurrence replacement, with
//! the meaning that `str::find`, `str::matches(..).count()` and
//! `str::replacen(.., 1)` give them on valid UTF-8 text.

use vstd::prelude::*;

verus! {

/// `p` occurs in `s` starting at character index `i`.
pub open spec fn matches_at(s: Seq<char>, p: Seq<char>, i: int) -> bool {
    &&& 0 <= i
    &&& i + p.len() <= s.len()
    &&& s.subrange(i, i + p.len()) == p
}

/// `p` occurs somewhere in `s`.
pub open spec fn contains_seq(s: Seq<char>, p: Seq<char>) -> bool {
    exists|i: int| matches_at(s, p, i)
}

/// Leftmost occurrence of `p` in `s` at or after `start`.
pub open spec fn first_match_from(s: Seq<char>, p: Seq<char>, start: int) -> Option<int>
    decreases s.len() + 1 - start,
{
    if start < 0 || start + p.len() > s.len() {
        None
    } else if matches_at(s, p, start) {
        Some(start)
    } else {
        first_match_from(s, p, start + 1)
    }
}

/// Number of occurrences that a left-to-right scan finds when it resumes
/// after the end of each occurrence (non-overlapping, leftmost first).
pub open spec fn count_from(s: Seq<char>, p: Seq<char>, start: int) -> nat
    decreases s.len() + 1 - start,
{
    if p.len() == 0 || start < 0 || start + p.len() > s.len() {
        0
    } else if matches_at(s, p, start) {
        1 + count_from(s, p, start + p.len())
    } else {
        count_from(s, p, start + 1)
    }
}

/// Greedy non-overlapping occurrence count over the whole of `s`.
pub open spec fn count_matches_spec(s: Seq<char>, p: Seq<char>) -> nat {
    count_from(s, p, 0)
}

/// `s` with its leftmost occurrence of `old` replaced by `new` (unchanged
/// when there is none).
pub open spec fn replace_first_spec(s: Seq<char>, old: Seq<char>, new: Seq<char>) -> Seq<char> {
    match first_match_from(s, old, 0) {
        Some(i) => s.subrange(0, i) + new + s.subrange(i + old.len(), s.len() as int),
        None => s,
    }
}

/// A leftmost search result is a real occurrence, and nothing earlier is.
pub proof fn lemma_first_match_from(s: Seq<char>, p: Seq<char>, start: int)
    requires
        0 <= start,
    ensures
        match first_match_from(s, p, start) {
            Some(i) => start <= i && matches_at(s, p, i) && forall|j: int|
                start <= j < i ==> !matches_at(s, p, j),
            None => forall|j: int| start <= j ==> !matches_at(s, p, j),
        },
    decreases s.len() + 1 - start,
{
    if start + p.len() > s.len() {
    } else if matches_at(s, p, start) {
    } else {
        lemma_first_match_from(s, p, start + 1);
    }
}

/// The count restarts at the leftmost occurrence.
proof fn lemma_count_step(s: Seq<char>, p: Seq<char>, start: int)
    requires
        0 <= start,
        p.len() > 0,
    ensures
        count_from(s, p, start) == match first_match_from(s, p, start) {
            Some(i) => 1 + count_from(s, p, i + p.len()),
            None => 0,
        },
    decreases s.len() + 1 - start,
{
    if start + p.len() > s.len() {
    } else if matches_at(s, p, start) {
    } else {
        lemma_count_step(s, p, start + 1);
    }
}

/// The count never exceeds the number of positions left to scan.
proof fn lemma_count_bound(s: Seq<char>, p: Seq<char>, start: int)
    requires
        0 <= start <= s.len(),
    ensures
        count_from(s, p, start) <= s.len() - start,
    decreases s.len() + 1 - start,
{
    if p.len() == 0 || start + p.len() > s.len() {
    } else if matches_at(s, p, start) {
        lemma_count_bound(s, p, start + p.len());
    } else {
        lemma_count_bound(s, p, start + 1);
    }
}

/// Does `p` occur in `s` at `i`?
pub fn matches_at_exec(s: &Vec<char>, p: &Vec<char>, i: usize) -> (b: bool)
    ensures
        b == matches_at(s@, p@, i as int),
{
    if i > s.len() || p.len() > s.len() - i {
        return false;
    }
    let mut j: usize = 0;
    while j < p.len()
        invariant
            i + p.len() <= s.len(),
            j <= p.len(),
            forall|k: int| 0 <= k < j ==> s@[i + k] == p@[k],
        decreases p.len() - j,
    {
        if s[i + j] != p[j] {
            assert(s@.subrange(i as int, i + p.len())[j as int] != p@[j as int]);
            return false;
        }
        j = j + 1;
    }
    assert(s@.subrange(i as int, i + p.len()) =~= p@);
    true
}

/// Leftmost occurrence of `p` in `s` at or after `start` (`str::find` on the tail).
pub fn find_from(s: &Vec<char>, p: &Vec<char>, start: usize) -> (r: Option<usize>)
    ensures
        match r {
            Some(i) => first_match_from(s@, p@, start as int) == Some(i as int),
            None => first_match_from(s@, p@, start as int) is None,
        },
{
    let mut i = start;
    while i <= s.len() && p.len() <= s.len() - i
        invariant
            start <= i,
            first_match_from(s@, p@, start as int) == first_match_from(s@, p@, i as int),
        decreases s.len() + 1 - i,
    {
        if matches_at_exec(s, p, i) {
            return Some(i);
        }
        assert(p@.len() > 0) by {
            if p@.len() == 0 {
                assert(s@.subrange(i as int, i as int) =~= p@);
            }
        }
        i = i + 1;
    }
    None
}

/// `s` contains `p`.
pub fn contains_exec(s: &Vec<char>, p: &Vec<char>) -> (b: bool)
    ensures
        b == contains_seq(s@, p@),
{
    proof {
        lemma_first_match_from(s@, p@, 0);
    }
    match find_from(s, p, 0) {
        Some(_) => true,
        None => false,
    }
}

/// `s.matches(p).count()` for a non-empty pattern.
pub fn count_matches(s: &Vec<char>, p: &Vec<char>) -> (n: usize)
    requires
        p@.len() > 0,
    ensures
        n == count_matches_spec(s@, p@),
{
    let mut n: usize = 0;
    let mut i: usize = 0;
    proof {
        lemma_count_bound(s@, p@, 0);
    }
    loop
        invariant
            p@.len() > 0,
            i <= s.len(),
            n + count_from(s@, p@, i as int) == count_from(s@, p@, 0),
            count_from(s@, p@, 0) <= s.len(),
        decreases s.len() - i,
    {
        proof {
            lemma_count_step(s@, p@, i as int);
            lemma_first_match_from(s@, p@, i as int);
        }
        match find_from(s, p, i) {
            None => {
                return n;
            },
            Some(j) => {
                proof {
                    lemma_count_bound(s@, p@, j + p.len());
                }
                n = n + 1;
                i = j + p.len();
            },
        }
    }
}

/// `s.replacen(old, new, 1)`.
pub fn replace_first(s: &Vec<char>, old: &Vec<char>, new: &Vec<char>) -> (r: Vec<char>)
    ensures
        r@ == replace_first_spec(s@, old@, new@),
{
    proof {
        lemma_first_match_from(s@, old@, 0);
    }
    match find_from(s, old, 0) {
        None => s.clone(),
        Some(i) => {
            let mut r: Vec<char> = Vec::new();
            let mut k: usize = 0;
            while k < i
                invariant
                    i + old.len() <= s.len(),
                    k <= i,
                    r@ == s@.subrange(0, k as int),
                decreases i - k,
            {
                r.push(s[k]);
                k = k + 1;
                assert(r@ =~= s@.subrange(0, k as int));
            }
            let mut k: usize = 0;
            while k < new.len()
                invariant
                    k <= new.len(),
                    r@ == s@.subrange(0, i as int) + new@.take(k as int),
                decreases new.len() - k,
            {
                r.push(new[k]);
                k = k + 1;
                assert(r@ =~= s@.subrange(0, i as int) + new@.take(k as int));
            }
            assert(new@.take(new.len() as int) =~= new@);
            let mut k: usize = i + old.len();
            let ghost mid = r@;
            while k < s.len()
                invariant
                    i + old.len() <= k <= s.len(),
                    r@ == mid + s@.subrange(i + old.len(), k as int),
                decreases s.len() - k,
            {
                r.push(s[k]);
                k = k + 1;
                assert(r@ =~= mid + s@.subrange(i + old.len(), k as int));
            }
            r
        },
    }
}

/// Replacing the first occurrence splices `new` in place of the leftmost
/// occurrence of `old`, at `i`: what stands before it and what follows it
/// are kept as they were, so the length changes by |new| - |old|.
pub proof fn law_replace_first_splices(s: Seq<char>, old: Seq<char>, new: Seq<char>, i: int)
    requires
        0 <= i,
        i + old.len() <= s.len(),
        s.subrange(i, i + old.len()) == old,
        forall|j: int| 0 <= j < i ==> #[trigger] s.subrange(j, j + old.len()) != old,
    ensures
        replace_first_spec(s, old, new).len() == s.len() - old.len() + new.len(),
        replace_first_spec(s, old, new).subrange(0, i) == s.subrange(0, i),
        replace_first_spec(s, old, new).subrange(i, i + new.len()) == new,
        replace_first_spec(s, old, new).subrange(i + new.len(), s.len() - old.len() + new.len())
            == s.subrange(i + old.len(), s.len() as int),
{
    lemma_first_match_from(s, old, 0);
    assert(matches_at(s, old, i));
    match first_match_from(s, old, 0) {
        Some(k) => {
            if k < i {
                assert(s.subrange(k, k + old.len()) != old);
            }
            assert(k == i);
            let r = s.subrange(0, i) + new + s.subrange(i + old.len(), s.len() as int);
            assert(r.subrange(0, i) =~= s.subrange(0, i));
            assert(r.subrange(i, i + new.len()) =~= new);
            assert(r.subrange(i + new.len(), r.len() as int) =~= s.subrange(i + old.len(), s.len() as int));
        },
        None => {},
    }
}

/// A text in which `old` does not occur is left as it is.
pub proof fn law_replace_first_without_occurrence(s: Seq<char>, old: Seq<char>, new: Seq<char>)
    requires
        forall|j: int| 0 <= j && j + old.len() <= s.len() ==> #[trigger] s.subrange(j, j + old.len()) != old,
    ensures
        replace_first_spec(s, old, new) == s,
{
    lemma_first_match_from(s, old, 0);
    match first_match_from(s, old, 0) {
        Some(k) => {
            assert(s.subrange(k, k + old.len()) != old);
        },
        None => {},
    }
}

/// A line without the '\r' of a "\r\n" ending.
pub open spec fn strip_cr(l: Seq<char>) -> Seq<char> {
    if l.len() > 0 && l.last() == '\r' { l.drop_last() } else { l }
}

/// The lines of `s` from index `start` on, as `str::lines` gives them: split
/// after each '\n', the '\n' and a '\r' just before it removed, and no empty
/// line after a final '\n'.
pub open spec fn lines_from(s: Seq<char>, start: int) -> Seq<Seq<char>>
    decreases s.len() - start,
{
    if start < 0 || start >= s.len() {
        Seq::empty()
    } else {
        match first_match_from(s, seq!['\n'], start) {
            Some(i) => {
                proof {
                    lemma_first_match_from(s, seq!['\n'], start);
                }
                seq![strip_cr(s.subrange(start, i))] + lines_from(s, i + 1)
            },
            None => seq![s.subrange(start, s.len() as int)],
        }
    }
}

/// `str::lines`.
pub open spec fn lines_spec(s: Seq<char>) -> Seq<Seq<char>> {
    lines_from(s, 0)
}

/// `s.lines()`, collected.
pub fn lines_of(s: &Vec<char>) -> (ls: Vec<Vec<char>>)
    ensures
        ls@.map_values(|l: Vec<char>| l@) == lines_spec(s@),
{
    let nl: Vec<char> = vec!['\n'];
    assert(nl@ =~= seq!['\n']);
    let mut ls: Vec<Vec<char>> = Vec::new();
    let mut pos: usize = 0;
    while pos < s.len()
        invariant
            nl@ == seq!['\n'],
            pos <= s@.len(),
            lines_spec(s@) == ls@.map_values(|l: Vec<char>| l@) + lines_from(s@, pos as int),
        decreases s.len() - pos,
    {
        let ghost before = ls@.map_values(|l: Vec<char>| l@);
        proof {
            lemma_first_match_from(s@, nl@, pos as int);
        }
        match find_from(s, &nl, pos) {
            Some(i) => {
                let mut end = i;
                if end > pos && s[end - 1] == '\r' {
                    end = end - 1;
                }
                let mut line: Vec<char> = Vec::new();
                let mut k = pos;
                while k < end
                    invariant
                        pos <= k <= end <= s@.len(),
                        line@ == s@.subrange(pos as int, k as int),
                    decreases end - k,
                {
                    line.push(s[k]);
                    k = k + 1;
                    assert(line@ =~= s@.subrange(pos as int, k as int));
                }
                assert(line@ =~= strip_cr(s@.subrange(pos as int, i as int)));
                ls.push(line);
                assert(ls@.map_values(|l: Vec<char>| l@) =~= before.push(
                    strip_cr(s@.subrange(pos as int, i as int)),
                ));
                assert(before + lines_from(s@, pos as int) =~= before.push(
                    strip_cr(s@.subrange(pos as int, i as int)),
                ) + lines_from(s@, i + 1));
                pos = i + 1;
            },
            None => {
                let mut line: Vec<char> = Vec::new();
                let mut k = pos;
                while k < s.len()
                    invariant
                        pos <= k <= s@.len(),
                        line@ == s@.subrange(pos as int, k as int),
                    decreases s.len() - k,
                {
                    line.push(s[k]);
                    k = k + 1;
                    assert(line@ =~= s@.subrange(pos as int, k as int));
                }
                ls.push(line);
                assert(ls@.map_values(|l: Vec<char>| l@) =~= before.push(
                    s@.subrange(pos as int, s@.len() as int),
                ));
                assert(lines_from(s@, s@.len() as int) =~= Seq::<Seq<char>>::empty());
                assert(before + lines_from(s@, pos as int) =~= before.push(
                    s@.subrange(pos as int, s@.len() as int),
                ) + lines_from(s@, s@.len() as int));
                pos = s.len();
            },
        }
    }
    assert(lines_from(s@, pos as int) =~= Seq::<Seq<char>>::empty());
    assert(lines_spec(s@) =~= ls@.map_values(|l: Vec<char>| l@));
    ls
}

} // verus!
