//! Directory listings: the entries of a folder, folders first and then by
//! case-insensitive name (a stable order), cut to a limit with a marker
//! saying how many entries were left out.

use vstd::prelude::*;
use crate::text::{chars_of, decimal, decimal_usize, push_str, spec_to_lowercase, to_lowercase};

verus! {

/// An entry of a listing (file, folder, or the "more entries" marker).
pub struct TreeEntry {
    pub name: String,
    pub path: String,
    pub is_dir: bool,
    pub size: u64,
    /// The marker that stands for the entries left out.
    pub truncated: bool,
}

/// Abstract entry.
pub struct TreeEntryView {
    pub name: Seq<char>,
    pub path: Seq<char>,
    pub is_dir: bool,
    pub size: u64,
    pub truncated: bool,
}

impl View for TreeEntry {
    type V = TreeEntryView;

    open spec fn view(&self) -> TreeEntryView {
        TreeEntryView {
            name: self.name@,
            path: self.path@,
            is_dir: self.is_dir,
            size: self.size,
            truncated: self.truncated,
        }
    }
}

/// `a` comes strictly before `b` in the order of `String` comparison
/// (lexicographic by character code).
pub open spec fn lex_lt(a: Seq<char>, b: Seq<char>) -> bool
    decreases a.len(),
{
    if a.len() == 0 {
        b.len() > 0
    } else if b.len() == 0 {
        false
    } else if (a[0] as u32) < (b[0] as u32) {
        true
    } else if (a[0] as u32) > (b[0] as u32) {
        false
    } else {
        lex_lt(a.drop_first(), b.drop_first())
    }
}

/// Sort key of an entry: folders first, then lowercased name.
pub open spec fn entry_key(e: TreeEntryView) -> (bool, Seq<char>) {
    (e.is_dir, spec_to_lowercase(e.name))
}

/// Strict order on sort keys.
pub open spec fn key_lt(a: (bool, Seq<char>), b: (bool, Seq<char>)) -> bool {
    (a.0 && !b.0) || (a.0 == b.0 && lex_lt(a.1, b.1))
}

proof fn lemma_lex_irreflexive(a: Seq<char>)
    ensures
        !lex_lt(a, a),
    decreases a.len(),
{
    if a.len() > 0 {
        lemma_lex_irreflexive(a.drop_first());
    }
}

proof fn lemma_lex_trans(a: Seq<char>, b: Seq<char>, c: Seq<char>)
    requires
        lex_lt(a, b),
        lex_lt(b, c),
    ensures
        lex_lt(a, c),
    decreases a.len(),
{
    if a.len() > 0 && b.len() > 0 && c.len() > 0 {
        if (a[0] as u32) == (b[0] as u32) && (b[0] as u32) == (c[0] as u32) {
            lemma_lex_trans(a.drop_first(), b.drop_first(), c.drop_first());
        }
    }
}

proof fn lemma_lex_total(a: Seq<char>, b: Seq<char>)
    ensures
        lex_lt(a, b) || lex_lt(b, a) || a == b,
    decreases a.len(),
{
    if a.len() > 0 && b.len() > 0 {
        if (a[0] as u32) == (b[0] as u32) {
            lemma_lex_total(a.drop_first(), b.drop_first());
            vstd::utf8::char_u32_cast(a[0], a[0] as u32);
            vstd::utf8::char_u32_cast(b[0], b[0] as u32);
            if a.drop_first() == b.drop_first() {
                assert(a =~= seq![a[0]] + a.drop_first());
                assert(b =~= seq![b[0]] + b.drop_first());
            }
        }
    } else if a.len() == 0 && b.len() == 0 {
        assert(a =~= b);
    }
}

/// `p` lists each of `0..n` exactly once.
pub open spec fn is_permutation(p: Seq<usize>, n: nat) -> bool {
    &&& p.len() == n
    &&& forall|i: int| 0 <= i < p.len() ==> p[i] < n
    &&& forall|i: int, j: int| 0 <= i < j < p.len() ==> p[i] != p[j]
}

/// Keys taken in order `p` never decrease, and entries with equal keys keep
/// their input order.
pub open spec fn stably_sorted(keys: Seq<(bool, Seq<char>)>, p: Seq<usize>) -> bool {
    forall|i: int, j: int|
        0 <= i < j < p.len() ==> !key_lt(keys[p[j] as int], keys[p[i] as int]) && (keys[p[i] as int]
            == keys[p[j] as int] ==> p[i] < p[j])
}

/// `b` comes before `a` strictly.
fn key_lt_exec(a_dir: bool, a: &Vec<char>, b_dir: bool, b: &Vec<char>) -> (r: bool)
    ensures
        r == key_lt((a_dir, a@), (b_dir, b@)),
{
    if a_dir && !b_dir {
        return true;
    }
    if a_dir != b_dir {
        return false;
    }
    let mut i: usize = 0;
    assert(a@.skip(0) =~= a@);
    assert(b@.skip(0) =~= b@);
    while i < a.len() && i < b.len()
        invariant
            a_dir == b_dir,
            i <= a@.len(),
            i <= b@.len(),
            lex_lt(a@, b@) == lex_lt(a@.skip(i as int), b@.skip(i as int)),
        decreases a.len() - i,
    {
        let ca = a[i] as u32;
        let cb = b[i] as u32;
        assert(a@.skip(i as int)[0] == a@[i as int]);
        assert(b@.skip(i as int)[0] == b@[i as int]);
        if ca < cb {
            return true;
        }
        if ca > cb {
            return false;
        }
        assert(a@.skip(i as int).drop_first() =~= a@.skip(i + 1));
        assert(b@.skip(i as int).drop_first() =~= b@.skip(i + 1));
        i = i + 1;
    }
    assert(a@.skip(i as int).len() == 0 || b@.skip(i as int).len() == 0);
    b.len() > i
}

/// The stable order of `keys`: positions sorted by key, equal keys in their
/// input order.
#[verifier::rlimit(40)]
fn stable_order(dirs: &Vec<bool>, names: &Vec<Vec<char>>) -> (p: Vec<usize>)
    requires
        dirs@.len() == names@.len(),
    ensures
        is_permutation(p@, dirs@.len()),
        stably_sorted(Seq::new(dirs@.len(), |i: int| (dirs@[i], names@[i]@)), p@),
{
    let ghost keys = Seq::new(dirs@.len(), |i: int| (dirs@[i], names@[i]@));
    let mut p: Vec<usize> = Vec::new();
    let mut k: usize = 0;
    while k < dirs.len()
        invariant
            dirs@.len() == names@.len(),
            keys == Seq::new(dirs@.len(), |i: int| (dirs@[i], names@[i]@)),
            k <= dirs@.len(),
            is_permutation(p@, k as nat),
            stably_sorted(keys, p@),
        decreases dirs.len() - k,
    {
        // insert k after every position whose key is not greater
        let mut j: usize = 0;
        while j < p.len() && !key_lt_exec(dirs[k], &names[k], dirs[p[j]], &names[p[j]])
            invariant
                dirs@.len() == names@.len(),
                keys == Seq::new(dirs@.len(), |i: int| (dirs@[i], names@[i]@)),
                k < dirs@.len(),
                is_permutation(p@, k as nat),
                j <= p@.len(),
                forall|t: int| 0 <= t < j ==> !key_lt(keys[k as int], keys[p@[t] as int]),
            decreases p.len() - j,
        {
            j = j + 1;
        }
        proof {
            assert forall|t: int| j <= t < p@.len() implies key_lt(keys[k as int], keys[p@[t] as int]) by {
                if j < p@.len() {
                    // keys after position j are at least the key at j
                    if t > j {
                        assert(!key_lt(keys[p@[t] as int], keys[p@[j as int] as int]));
                        lemma_key_lt_le(keys[k as int], keys[p@[j as int] as int], keys[p@[t] as int]);
                    }
                }
            }
        }
        let ghost old_p = p@;
        p.insert(j, k);
        proof {
            assert forall|a: int, b: int| 0 <= a < b < p@.len() implies !key_lt(keys[p@[b] as int], keys[p@[a] as int])
                && (keys[p@[a] as int] == keys[p@[b] as int] ==> p@[a] < p@[b]) by {
                if a < j && b == j {
                    assert(p@[a] == old_p[a] && p@[b] == k);
                    assert(old_p[a] < k);
                    assert(!key_lt(keys[k as int], keys[old_p[a] as int]));
                } else if a == j && b > j {
                    assert(p@[a] == k && p@[b] == old_p[b - 1]);
                    assert(key_lt(keys[k as int], keys[old_p[b - 1] as int]));
                    lemma_key_lt_asym(keys[k as int], keys[old_p[b - 1] as int]);
                } else if a < j && b > j {
                    assert(old_p[a] == p@[a] && old_p[b - 1] == p@[b]);
                } else if a > j {
                    assert(old_p[a - 1] == p@[a] && old_p[b - 1] == p@[b]);
                } else {
                    assert(a < j && b < j);
                    assert(old_p[a] == p@[a] && old_p[b] == p@[b]);
                }
            }
        }
        k = k + 1;
    }
    p
}

proof fn lemma_key_lt_asym(a: (bool, Seq<char>), b: (bool, Seq<char>))
    requires
        key_lt(a, b),
    ensures
        !key_lt(b, a),
        a != b,
{
    if a.0 == b.0 && lex_lt(a.1, b.1) {
        if lex_lt(b.1, a.1) {
            lemma_lex_trans(a.1, b.1, a.1);
        }
        lemma_lex_irreflexive(a.1);
    }
}

proof fn lemma_key_not_lt_symm(a: (bool, Seq<char>), b: (bool, Seq<char>))
    requires
        !key_lt(a, b),
    ensures
        !key_lt(b, a) ==> a == b,
        key_lt(b, a) || a == b,
{
    lemma_lex_total(a.1, b.1);
}

proof fn lemma_key_lt_le(a: (bool, Seq<char>), b: (bool, Seq<char>), c: (bool, Seq<char>))
    requires
        key_lt(a, b),
        !key_lt(c, b),
    ensures
        key_lt(a, c),
{
    lemma_key_not_lt_symm(c, b);
    if key_lt(b, c) {
        if a.0 == b.0 && b.0 == c.0 {
            lemma_lex_trans(a.1, b.1, c.1);
        }
    }
}

/// The marker standing for the `left_out` entries not listed.
pub open spec fn marker_view(dir: Seq<char>, left_out: nat) -> TreeEntryView {
    TreeEntryView {
        name: "… ("@ + decimal(left_out) + " autres)"@,
        path: dir,
        is_dir: false,
        size: 0,
        truncated: true,
    }
}

/// Sort keys of a sequence of entries.
pub open spec fn keys_of(es: Seq<TreeEntryView>) -> Seq<(bool, Seq<char>)> {
    es.map_values(|e: TreeEntryView| entry_key(e))
}

/// A copy of an entry.
pub fn clone_entry(e: &TreeEntry) -> (c: TreeEntry)
    ensures
        c@ == e@,
{
    TreeEntry {
        name: e.name.clone(),
        path: e.path.clone(),
        is_dir: e.is_dir,
        size: e.size,
        truncated: e.truncated,
    }
}

/// The entries `entries` (read first among the `total` entries of folder
/// `dir`, at most `limit` of them) in listing order, followed by a marker
/// when `total` exceeds `limit`.
pub fn finish_listing(entries: &Vec<TreeEntry>, total: usize, limit: usize, dir: &str) -> (out: Vec<TreeEntry>)
    requires
        entries@.len() <= limit,
        entries@.len() <= total,
    ensures
        ({
            let ins = entries@.map_values(|e: TreeEntry| e@);
            let n = ins.len();
            &&& out@.len() == if total > limit { n + 1 } else { n }
            &&& exists|p: Seq<usize>|
                is_permutation(p, n) && stably_sorted(keys_of(ins), p) && forall|i: int|
                    0 <= i < n ==> out@[i]@ == ins[p[i] as int]
            &&& total > limit ==> out@[n as int]@ == marker_view(dir@, (total - limit) as nat)
        }),
{
    let ghost ins = entries@.map_values(|e: TreeEntry| e@);
    let mut dirs: Vec<bool> = Vec::new();
    let mut names: Vec<Vec<char>> = Vec::new();
    let mut i: usize = 0;
    while i < entries.len()
        invariant
            i <= entries@.len(),
            ins == entries@.map_values(|e: TreeEntry| e@),
            dirs@.len() == i,
            names@.len() == i,
            forall|k: int| 0 <= k < i ==> #[trigger] dirs@[k] == ins[k].is_dir,
            forall|k: int| 0 <= k < i ==> #[trigger] names@[k]@ == spec_to_lowercase(ins[k].name),
        decreases entries.len() - i,
    {
        assert(ins[i as int] == entries@[i as int]@);
        dirs.push(entries[i].is_dir);
        let lower = to_lowercase(entries[i].name.as_str());
        names.push(chars_of(lower.as_str()));
        i = i + 1;
    }
    let p = stable_order(&dirs, &names);
    assert(Seq::new(dirs@.len(), |k: int| (dirs@[k], names@[k]@)) =~= keys_of(ins));
    let mut out: Vec<TreeEntry> = Vec::new();
    let mut j: usize = 0;
    while j < p.len()
        invariant
            ins == entries@.map_values(|e: TreeEntry| e@),
            is_permutation(p@, entries@.len() as nat),
            j <= p@.len(),
            out@.len() == j,
            forall|k: int| 0 <= k < j ==> out@[k]@ == ins[p@[k] as int],
        decreases p.len() - j,
    {
        out.push(clone_entry(&entries[p[j]]));
        j = j + 1;
    }
    if total > limit {
        let mut name = "… (".to_owned();
        let digits = decimal_usize(total - limit);
        push_str(&mut name, digits.as_str());
        push_str(&mut name, " autres)");
        out.push(TreeEntry { name, path: dir.to_owned(), is_dir: false, size: 0, truncated: true });
    }
    out
}

} // verus!
