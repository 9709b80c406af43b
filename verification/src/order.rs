//! The order in which converted files are listed: `Path`'s order, which
//! compares paths component by component (a prefix before a root, a root
//! before `.`, `.` before `..`, `..` before names, and names by their
//! characters), a path before any longer path that starts with it.
//!
//! Each path is given a key, a sequence of integers, whose lexicographic
//! order is that order: each component becomes its rank, then (for prefixes
//! and names) its character codes, then -1, which sorts below every code.

use vstd::prelude::*;
use crate::paths::{PathModel, PathView};
use crate::text::{chars_are, chars_of};

verus! {

/// Lexicographic comparison: -1, 0 or 1.
pub open spec fn lex_order(a: Seq<i64>, b: Seq<i64>) -> int
    decreases a.len(),
{
    if a.len() == 0 {
        if b.len() == 0 {
            0
        } else {
            -1
        }
    } else if b.len() == 0 {
        1
    } else if a[0] < b[0] {
        -1
    } else if a[0] > b[0] {
        1
    } else {
        lex_order(a.drop_first(), b.drop_first())
    }
}

/// The rank of an anchor component: a root (a separator) is 1, a prefix 0.
pub open spec fn anchor_rank(t: Seq<char>) -> i64 {
    if t == "/"@ || t == "\\"@ {
        1
    } else {
        0
    }
}

/// The rank of a name component: `.` is 2, `..` is 3, a name 4.
pub open spec fn name_rank(t: Seq<char>) -> i64 {
    if t == "."@ {
        2
    } else if t == ".."@ {
        3
    } else {
        4
    }
}

pub open spec fn char_codes(t: Seq<char>) -> Seq<i64> {
    Seq::new(t.len(), |i: int| (t[i] as u32) as i64)
}

/// The key of one component.
pub open spec fn component_key(rank: i64, t: Seq<char>) -> Seq<i64> {
    if rank == 0 || rank == 4 {
        seq![rank] + char_codes(t) + seq![-1i64]
    } else {
        seq![rank, -1i64]
    }
}

pub open spec fn anchor_keys(a: Seq<Seq<char>>) -> Seq<i64>
    decreases a.len(),
{
    if a.len() == 0 {
        Seq::empty()
    } else {
        anchor_keys(a.drop_last()) + component_key(anchor_rank(a.last()), a.last())
    }
}

pub open spec fn name_keys(a: Seq<Seq<char>>) -> Seq<i64>
    decreases a.len(),
{
    if a.len() == 0 {
        Seq::empty()
    } else {
        name_keys(a.drop_last()) + component_key(name_rank(a.last()), a.last())
    }
}

/// The key of a path.
pub open spec fn path_key(p: PathView) -> Seq<i64> {
    anchor_keys(p.anchor) + name_keys(p.names)
}

/// `p` is listed no later than `q`.
pub open spec fn listed_before(p: PathView, q: PathView) -> bool {
    lex_order(path_key(p), path_key(q)) <= 0
}

proof fn lemma_lex_antisymmetric(a: Seq<i64>, b: Seq<i64>)
    ensures
        lex_order(a, b) == -lex_order(b, a),
        -1 <= lex_order(a, b) <= 1,
    decreases a.len(),
{
    if a.len() > 0 && b.len() > 0 && a[0] == b[0] {
        lemma_lex_antisymmetric(a.drop_first(), b.drop_first());
    }
}

proof fn lemma_lex_transitive(a: Seq<i64>, b: Seq<i64>, c: Seq<i64>)
    requires
        lex_order(a, b) <= 0,
        lex_order(b, c) <= 0,
    ensures
        lex_order(a, c) <= 0,
        lex_order(a, c) == 0 ==> lex_order(a, b) == 0 && lex_order(b, c) == 0,
    decreases a.len(),
{
    if a.len() > 0 && b.len() > 0 && c.len() > 0 && a[0] == b[0] && b[0] == c[0] {
        lemma_lex_transitive(a.drop_first(), b.drop_first(), c.drop_first());
    }
}

/// The listing order is a total preorder: any two paths compare, the
/// comparison reverses when they are swapped, and it is transitive.
pub proof fn law_listing_order_is_total(p: PathView, q: PathView, r: PathView)
    ensures
        listed_before(p, q) || listed_before(q, p),
        lex_order(path_key(p), path_key(q)) == -lex_order(path_key(q), path_key(p)),
        listed_before(p, q) && listed_before(q, r) ==> listed_before(p, r),
{
    lemma_lex_antisymmetric(path_key(p), path_key(q));
    if listed_before(p, q) && listed_before(q, r) {
        lemma_lex_transitive(path_key(p), path_key(q), path_key(r));
    }
}

/// Compares two keys lexicographically.
pub fn compare_keys(a: &Vec<i64>, b: &Vec<i64>) -> (r: i8)
    ensures
        r as int == lex_order(a@, b@),
{
    let mut i: usize = 0;
    assert(a@.skip(0) =~= a@);
    assert(b@.skip(0) =~= b@);
    while i < a.len() && i < b.len() && a[i] == b[i]
        invariant
            i <= a@.len(),
            i <= b@.len(),
            lex_order(a@, b@) == lex_order(a@.skip(i as int), b@.skip(i as int)),
        decreases a.len() - i,
    {
        assert(a@.skip(i as int).drop_first() =~= a@.skip(i + 1));
        assert(b@.skip(i as int).drop_first() =~= b@.skip(i + 1));
        i += 1;
    }
    if i == a.len() {
        if i == b.len() {
            0
        } else {
            -1
        }
    } else if i == b.len() {
        1
    } else if a[i] < b[i] {
        -1
    } else {
        1
    }
}

fn push_component_key(key: &mut Vec<i64>, rank: i64, t: &String)
    ensures
        final(key)@ == old(key)@ + component_key(rank, t@),
{
    let ghost before = key@;
    key.push(rank);
    if rank == 0 || rank == 4 {
        let cs = chars_of(t.as_str());
        let mut i: usize = 0;
        while i < cs.len()
            invariant
                i <= cs@.len(),
                cs@ == t@,
                key@ == before + seq![rank] + char_codes(t@).take(i as int),
            decreases cs.len() - i,
        {
            key.push((cs[i] as u32) as i64);
            assert(char_codes(t@).take(i + 1) =~= char_codes(t@).take(i as int).push(
                (cs@[i as int] as u32) as i64,
            ));
            i += 1;
        }
        assert(char_codes(t@).take(cs@.len() as int) =~= char_codes(t@));
    }
    key.push(-1);
    assert(key@ =~= before + component_key(rank, t@));
}

/// The key of a path (see `path_key`).
pub fn key_of(p: &PathModel) -> (r: Vec<i64>)
    ensures
        r@ == path_key(p@),
{
    let mut key: Vec<i64> = Vec::new();
    let mut i: usize = 0;
    while i < p.anchor.len()
        invariant
            i <= p.anchor@.len(),
            key@ == anchor_keys(p@.anchor.take(i as int)),
        decreases p.anchor.len() - i,
    {
        let t = &p.anchor[i];
        let v = chars_of(t.as_str());
        let rank: i64 = if chars_are(&v, "/") || chars_are(&v, "\\") { 1 } else { 0 };
        push_component_key(&mut key, rank, t);
        assert(p@.anchor.take(i + 1).drop_last() =~= p@.anchor.take(i as int));
        i += 1;
    }
    assert(p@.anchor.take(p.anchor@.len() as int) =~= p@.anchor);
    let ghost front = key@;
    let mut j: usize = 0;
    while j < p.names.len()
        invariant
            j <= p.names@.len(),
            front == anchor_keys(p@.anchor),
            key@ == front + name_keys(p@.names.take(j as int)),
        decreases p.names.len() - j,
    {
        let t = &p.names[j];
        let v = chars_of(t.as_str());
        let rank: i64 = if chars_are(&v, ".") {
            2
        } else if chars_are(&v, "..") {
            3
        } else {
            4
        };
        push_component_key(&mut key, rank, t);
        assert(p@.names.take(j + 1).drop_last() =~= p@.names.take(j as int));
        assert(key@ =~= front + name_keys(p@.names.take(j + 1)));
        j += 1;
    }
    assert(p@.names.take(p.names@.len() as int) =~= p@.names);
    key
}

pub open spec fn count_true(s: Seq<bool>) -> nat
    decreases s.len(),
{
    if s.len() == 0 {
        0
    } else {
        count_true(s.drop_last()) + if s.last() { 1nat } else { 0nat }
    }
}

proof fn lemma_count_bound(s: Seq<bool>)
    ensures
        count_true(s) <= s.len(),
        count_true(s) < s.len() ==> exists|i: int| 0 <= i < s.len() && !s[i],
    decreases s.len(),
{
    if s.len() > 0 {
        lemma_count_bound(s.drop_last());
        if count_true(s) < s.len() && s.last() {
            let i = choose|i: int| 0 <= i < s.drop_last().len() && !s.drop_last()[i];
            assert(!s[i]);
        }
    }
}

proof fn lemma_count_set(s: Seq<bool>, k: int)
    requires
        0 <= k < s.len(),
        !s[k],
    ensures
        count_true(s.update(k, true)) == count_true(s) + 1,
    decreases s.len(),
{
    if k < s.len() - 1 {
        assert(s.update(k, true).drop_last() =~= s.drop_last().update(k, true));
        lemma_count_set(s.drop_last(), k);
    } else {
        assert(s.update(k, true).drop_last() =~= s.drop_last());
    }
}

/// The listing order of a batch's results: the indices of `paths` such
/// that each path is listed no later than the next, paths that compare
/// equal keeping their given order. Every index appears exactly once.
pub fn listing_order(paths: &Vec<PathModel>) -> (r: Vec<usize>)
    ensures
        r@.len() == paths@.len(),
        forall|i: int| 0 <= i < r@.len() ==> r@[i] < paths@.len(),
        forall|i: int, j: int| 0 <= i < j < r@.len() ==> r@[i] != r@[j],
        forall|i: int|
            0 <= i < r@.len() - 1 ==> listed_before(paths@[r@[i] as int]@, #[trigger] paths@[r@[i + 1] as int]@),
        forall|i: int|
            0 <= i < r@.len() - 1 && lex_order(
                path_key(paths@[r@[i] as int]@),
                path_key(#[trigger] paths@[r@[i + 1] as int]@),
            ) == 0 ==> r@[i] < r@[i + 1],
{
    let n = paths.len();
    let mut keys: Vec<Vec<i64>> = Vec::new();
    let mut k: usize = 0;
    while k < n
        invariant
            n == paths@.len(),
            k <= n,
            keys@.len() == k,
            forall|m: int| 0 <= m < k ==> (#[trigger] keys@[m])@ == path_key(paths@[m]@),
        decreases n - k,
    {
        keys.push(key_of(&paths[k]));
        k += 1;
    }
    let mut used: Vec<bool> = Vec::new();
    let mut u: usize = 0;
    while u < n
        invariant
            u <= n,
            used@.len() == u,
            forall|m: int| 0 <= m < u ==> !used@[m],
            count_true(used@) == 0,
        decreases n - u,
    {
        let ghost before = used@;
        used.push(false);
        assert(used@.drop_last() =~= before);
        u += 1;
    }
    let mut order: Vec<usize> = Vec::new();
    while order.len() < n
        invariant
            n == paths@.len(),
            keys@.len() == n,
            forall|m: int| 0 <= m < n ==> (#[trigger] keys@[m])@ == path_key(paths@[m]@),
            used@.len() == n,
            order@.len() <= n,
            count_true(used@) == order@.len(),
            forall|i: int| 0 <= i < order@.len() ==> order@[i] < n && used@[order@[i] as int],
            forall|i: int, j: int| 0 <= i < j < order@.len() ==> order@[i] != order@[j],
            forall|i: int|
                0 <= i < order@.len() - 1 ==> lex_order(
                    keys@[order@[i] as int]@,
                    #[trigger] keys@[order@[i + 1] as int]@,
                ) <= 0,
            forall|i: int|
                0 <= i < order@.len() - 1 && lex_order(
                    keys@[order@[i] as int]@,
                    #[trigger] keys@[order@[i + 1] as int]@,
                ) == 0 ==> order@[i] < order@[i + 1],
            order@.len() > 0 ==> forall|j: int|
                0 <= j < n && !used@[j] ==> lex_order(
                    keys@[order@.last() as int]@,
                    #[trigger] keys@[j]@,
                ) <= 0 && (lex_order(keys@[order@.last() as int]@, keys@[j]@) == 0 ==> order@.last() < j),
        decreases n - order@.len(),
    {
        proof {
            lemma_count_bound(used@);
        }
        let mut best: usize = n;
        let mut j: usize = 0;
        while j < n
            invariant
                n == paths@.len(),
                keys@.len() == n,
                used@.len() == n,
                j <= n,
                best == n || (best < j && !used@[best as int]),
                best == n ==> forall|m: int| 0 <= m < j ==> used@[m],
                best < n ==> forall|m: int|
                    0 <= m < j && !used@[m] ==> lex_order(keys@[best as int]@, #[trigger] keys@[m]@) <= 0
                        && (lex_order(keys@[best as int]@, keys@[m]@) == 0 ==> best <= m),
            decreases n - j,
        {
            if !used[j] {
                if best == n {
                    best = j;
                } else {
                    let c = compare_keys(&keys[j], &keys[best]);
                    if c < 0 {
                        proof {
                            let old_best = best as int;
                            assert forall|m: int|
                                0 <= m < j && !used@[m] implies lex_order(keys@[j as int]@, #[trigger] keys@[m]@) <= 0
                                && (lex_order(keys@[j as int]@, keys@[m]@) == 0 ==> j <= m) by {
                                lemma_lex_transitive(keys@[j as int]@, keys@[old_best]@, keys@[m]@);
                            }
                            lemma_lex_antisymmetric(keys@[j as int]@, keys@[j as int]@);
                        }
                        best = j;
                    } else {
                        proof {
                            lemma_lex_antisymmetric(keys@[j as int]@, keys@[best as int]@);
                        }
                    }
                }
            }
            if best == j {
                proof {
                    lemma_lex_antisymmetric(keys@[j as int]@, keys@[j as int]@);
                }
            }
            j += 1;
        }
        // some index is still unused, so one was found
        assert(best < n) by {
            let w = choose|i: int| 0 <= i < used@.len() && !used@[i];
        }
        let ghost old_used = used@;
        let ghost old_order = order@;
        proof {
            lemma_count_set(used@, best as int);
        }
        used.set(best, true);
        order.push(best);
        proof {
            assert forall|i: int| 0 <= i < order@.len() implies order@[i] < n && used@[order@[i] as int] by {
                if i < old_order.len() {
                    assert(order@[i] == old_order[i]);
                }
            }
            assert forall|i: int, j2: int| 0 <= i < j2 < order@.len() implies order@[i] != order@[j2] by {
                if j2 == old_order.len() {
                    assert(old_used[order@[i] as int]);
                }
            }
        }
    }
    assert forall|i: int|
        0 <= i < order@.len() - 1 implies listed_before(paths@[order@[i] as int]@, #[trigger] paths@[order@[i + 1] as int]@) by {
        assert(keys@[order@[i] as int]@ == path_key(paths@[order@[i] as int]@));
        assert(keys@[order@[i + 1] as int]@ == path_key(paths@[order@[i + 1] as int]@));
    }
    assert forall|i: int|
        0 <= i < order@.len() - 1 && lex_order(
            path_key(paths@[order@[i] as int]@),
            path_key(#[trigger] paths@[order@[i + 1] as int]@),
        ) == 0 implies order@[i] < order@[i + 1] by {
        assert(keys@[order@[i] as int]@ == path_key(paths@[order@[i] as int]@));
        assert(keys@[order@[i + 1] as int]@ == path_key(paths@[order@[i + 1] as int]@));
    }
    order
}

} // verus!
