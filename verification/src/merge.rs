//! The merge policy of the synchronization path, the single source of truth
//! for both list stores: attendance indices merge as a grow-only union kept
//! in ascending order, on-the-day identifiers merge as a grow-only union kept
//! in first-seen order. Both are instances of one append-without-duplicates
//! operation; the attendance instance additionally sorts.

use vstd::prelude::*;
use vstd::relations::total_ordering;
use vstd::relations::sorted_by;
use vstd::seq_lib::lemma_sorted_unique;
use vstd::seq_lib::group_seq_properties;
use crate::session::clone_string_vec;
use crate::store::clone_i32_vec;
use crate::trusted::str_eq;

verus! {

/// Ascending numeric order.
pub open spec fn sorted(s: Seq<i32>) -> bool {
    forall|i: int, j: int| 0 <= i < j < s.len() ==> s[i] <= s[j]
}

/// `cur` followed by those elements of `inc` that are not yet present, first
/// occurrence only, in first-seen order.
pub open spec fn dedup_append<A>(cur: Seq<A>, inc: Seq<A>) -> Seq<A>
    decreases inc.len(),
{
    if inc.len() == 0 {
        cur
    } else {
        let rest = dedup_append(cur, inc.drop_last());
        if rest.contains(inc.last()) {
            rest
        } else {
            rest.push(inc.last())
        }
    }
}

/// An element is in the merged sequence exactly when it is in one of the two
/// inputs.
pub proof fn lemma_dedup_append_contains<A>(cur: Seq<A>, inc: Seq<A>, x: A)
    ensures
        dedup_append(cur, inc).contains(x) <==> (cur.contains(x) || inc.contains(x)),
    decreases inc.len(),
{
    broadcast use group_seq_properties;

    if inc.len() > 0 {
        lemma_dedup_append_contains(cur, inc.drop_last(), x);
        assert(inc.contains(x) <==> (inc.drop_last().contains(x) || inc.last() == x)) by {
            if inc.contains(x) {
                let i = choose|i: int| 0 <= i < inc.len() && inc[i] == x;
                if i < inc.len() - 1 {
                    assert(inc.drop_last()[i] == x);
                }
            }
            if inc.drop_last().contains(x) {
                let i = choose|i: int| 0 <= i < inc.drop_last().len() && inc.drop_last()[i] == x;
                assert(inc[i] == x);
            }
            if inc.last() == x {
                assert(inc[inc.len() - 1] == x);
            }
        }
    }
}

/// Merging does not disturb what is already stored: the merged sequence
/// starts with `cur`, unchanged.
pub proof fn lemma_dedup_append_prefix<A>(cur: Seq<A>, inc: Seq<A>)
    ensures
        dedup_append(cur, inc).len() >= cur.len(),
        dedup_append(cur, inc).take(cur.len() as int) == cur,
    decreases inc.len(),
{
    if inc.len() == 0 {
        assert(cur.take(cur.len() as int) =~= cur);
    } else {
        lemma_dedup_append_prefix(cur, inc.drop_last());
        let rest = dedup_append(cur, inc.drop_last());
        if !rest.contains(inc.last()) {
            assert(rest.push(inc.last()).take(cur.len() as int) =~= rest.take(cur.len() as int));
        }
    }
}

/// Merging never introduces a duplicate.
pub proof fn lemma_dedup_append_no_duplicates<A>(cur: Seq<A>, inc: Seq<A>)
    requires
        cur.no_duplicates(),
    ensures
        dedup_append(cur, inc).no_duplicates(),
    decreases inc.len(),
{
    broadcast use group_seq_properties;

    if inc.len() > 0 {
        lemma_dedup_append_no_duplicates(cur, inc.drop_last());
        let rest = dedup_append(cur, inc.drop_last());
        if !rest.contains(inc.last()) {
            assert(rest.push(inc.last()).no_duplicates()) by {
                let t = rest.push(inc.last());
                assert forall|i: int, j: int| 0 <= i < j < t.len() implies t[i] != t[j] by {
                    if j < t.len() - 1 {
                        assert(rest[i] != rest[j]);
                    } else {
                        assert(rest.contains(rest[i]));
                    }
                }
            }
        }
    }
}

/// When everything submitted is already present, merging changes nothing.
pub proof fn lemma_dedup_append_absorbed<A>(cur: Seq<A>, inc: Seq<A>)
    requires
        forall|x: A| inc.contains(x) ==> cur.contains(x),
    ensures
        dedup_append(cur, inc) == cur,
    decreases inc.len(),
{
    broadcast use group_seq_properties;

    if inc.len() > 0 {
        assert(forall|x: A| inc.drop_last().contains(x) ==> inc.contains(x)) by {
            assert forall|x: A| inc.drop_last().contains(x) implies inc.contains(x) by {
                let i = choose|i: int|
                    0 <= i < inc.drop_last().len() && inc.drop_last()[i] == x;
                assert(inc[i] == x);
            }
        }
        lemma_dedup_append_absorbed(cur, inc.drop_last());
        assert(inc.contains(inc.last())) by {
            assert(inc[inc.len() - 1] == inc.last());
        }
    }
}

/// Whether `x` occurs in `v`.
pub fn contains_i32(v: &Vec<i32>, x: i32) -> (r: bool)
    ensures
        r == v@.contains(x),
{
    let n = v.len();
    for i in 0..n
        invariant
            n == v.len(),
            forall|j: int| 0 <= j < i ==> v@[j] != x,
    {
        if v[i] == x {
            return true;
        }
    }
    false
}

/// Whether an identifier with the contents of `x` occurs in `v`.
pub fn contains_string(v: &Vec<String>, x: &str) -> (r: bool)
    ensures
        r == v.deep_view().contains(x@),
{
    let n = v.len();
    for i in 0..n
        invariant
            n == v.len(),
            forall|j: int| 0 <= j < i ==> v.deep_view()[j] != x@,
    {
        if str_eq(v[i].as_str(), x) {
            assert(v.deep_view()[i as int] == x@);
            return true;
        }
        assert(v.deep_view()[i as int] == v@[i as int]@);
    }
    false
}

/// Appends to a copy of `cur` each element of `inc` that is not yet present,
/// first occurrence only, in first-seen order.
pub fn dedup_append_i32(cur: &Vec<i32>, inc: &Vec<i32>) -> (r: Vec<i32>)
    ensures
        r@ == dedup_append(cur@, inc@),
{
    let mut r = clone_i32_vec(cur);
    let n = inc.len();
    for k in 0..n
        invariant
            n == inc.len(),
            r@ == dedup_append(cur@, inc@.take(k as int)),
    {
        proof {
            assert(inc@.take(k + 1).drop_last() =~= inc@.take(k as int));
            assert(inc@.take(k + 1).last() == inc@[k as int]);
        }
        if !contains_i32(&r, inc[k]) {
            r.push(inc[k]);
        }
        assert(r@ == dedup_append(cur@, inc@.take(k + 1)));
    }
    assert(inc@.take(n as int) =~= inc@);
    r
}

/// Appends to a copy of `cur` each identifier of `inc` that is not yet
/// present, first occurrence only, in first-seen order.
pub fn dedup_append_string(cur: &Vec<String>, inc: &Vec<String>) -> (r: Vec<String>)
    ensures
        r.deep_view() == dedup_append(cur.deep_view(), inc.deep_view()),
{
    let mut r = clone_string_vec(cur);
    let n = inc.len();
    for k in 0..n
        invariant
            n == inc.len(),
            r.deep_view() == dedup_append(cur.deep_view(), inc.deep_view().take(k as int)),
    {
        proof {
            assert(inc.deep_view().take(k + 1).drop_last() =~= inc.deep_view().take(k as int));
            assert(inc.deep_view().take(k + 1).last() == inc.deep_view()[k as int]);
            assert(inc.deep_view()[k as int] == inc@[k as int]@);
        }
        if !contains_string(&r, inc[k].as_str()) {
            let ghost prev = r.deep_view();
            r.push(inc[k].clone());
            assert(r.deep_view() =~= prev.push(inc@[k as int]@));
        }
        assert(r.deep_view() == dedup_append(cur.deep_view(), inc.deep_view().take(k + 1)));
    }
    assert(inc.deep_view().take(n as int) =~= inc.deep_view());
    r
}

/// The position where `x` belongs in the ascending sequence `v`: every
/// element before it is at most `x`, every element from it on is greater.
fn insert_position(v: &Vec<i32>, x: i32) -> (pos: usize)
    requires
        sorted(v@),
    ensures
        pos <= v@.len(),
        forall|j: int| 0 <= j < pos ==> v@[j] <= x,
        forall|j: int| pos <= j < v@.len() ==> x < v@[j],
{
    let n = v.len();
    for i in 0..n
        invariant
            n == v.len(),
            sorted(v@),
            forall|j: int| 0 <= j < i ==> v@[j] <= x,
    {
        if v[i] > x {
            return i;
        }
    }
    n
}

/// A copy of `v` rearranged into ascending order.
pub fn sort_i32_vec(v: &Vec<i32>) -> (r: Vec<i32>)
    ensures
        sorted(r@),
        r@.to_multiset() == v@.to_multiset(),
{
    broadcast use group_seq_properties;

    let mut r: Vec<i32> = Vec::new();
    let n = v.len();
    for i in 0..n
        invariant
            n == v.len(),
            sorted(r@),
            r@.to_multiset() == v@.take(i as int).to_multiset(),
    {
        let x = v[i];
        let pos = insert_position(&r, x);
        let ghost prev = r@;
        r.insert(pos, x);
        proof {
            assert(r@ == prev.insert(pos as int, x));
            assert(sorted(r@)) by {
                assert forall|a: int, b: int| 0 <= a < b < r@.len() implies r@[a] <= r@[b] by {
                    if b < pos {
                        assert(r@[a] == prev[a] && r@[b] == prev[b]);
                    } else if a > pos {
                        assert(r@[a] == prev[a - 1] && r@[b] == prev[b - 1]);
                    } else if a < pos && b == pos {
                        assert(r@[a] == prev[a] && r@[b] == x);
                    } else if a == pos && b > pos {
                        assert(r@[a] == x && r@[b] == prev[b - 1]);
                    } else if a < pos && b > pos {
                        assert(r@[a] == prev[a] && r@[b] == prev[b - 1]);
                    }
                }
            }
            vstd::seq_lib::to_multiset_insert(prev, pos as int, x);
            vstd::seq_lib::to_multiset_build(v@.take(i as int), x);
            assert(v@.take(i + 1) =~= v@.take(i as int).push(x));
            assert(r@.to_multiset() == v@.take(i + 1).to_multiset());
        }
    }
    assert(v@.take(n as int) =~= v@);
    r
}

/// The ascending order on attendance indices.
pub open spec fn le_i32() -> spec_fn(i32, i32) -> bool {
    |x: i32, y: i32| x <= y
}

/// The canonical attendance set after merging a submission `inc` into the
/// stored set `cur`: their union, in ascending order, a duplicate only where
/// `cur` already held one.
pub open spec fn merged_attendance(cur: Seq<i32>, inc: Seq<i32>) -> Seq<i32> {
    dedup_append(cur, inc).sort_by(le_i32())
}

proof fn lemma_le_i32_total()
    ensures
        total_ordering(le_i32()),
{
}

/// Bridges the two renderings of ascending order.
proof fn lemma_sorted_is_sorted_by(s: Seq<i32>)
    ensures
        sorted(s) <==> sorted_by(s, le_i32()),
{
    if sorted(s) {
        assert forall|i: int, j: int| 0 <= i < j < s.len() implies le_i32()(s[i], s[j]) by {
            assert(s[i] <= s[j]);
        }
    }
    if sorted_by(s, le_i32()) {
        assert forall|i: int, j: int| 0 <= i < j < s.len() implies s[i] <= s[j] by {
            assert(le_i32()(s[i], s[j]));
        }
    }
}

/// Merges an attendance submission into the stored attendance set: the
/// union of the two, canonicalized by ascending sort.
pub fn merge_attendees(cur: &Vec<i32>, inc: &Vec<i32>) -> (r: Vec<i32>)
    ensures
        r@ == merged_attendance(cur@, inc@),
        sorted(r@),
{
    let combined = dedup_append_i32(cur, inc);
    let r = sort_i32_vec(&combined);
    proof {
        lemma_le_i32_total();
        combined@.lemma_sort_by_ensures(le_i32());
        lemma_sorted_is_sorted_by(r@);
        lemma_sorted_is_sorted_by(combined@.sort_by(le_i32()));
        lemma_sorted_unique(r@, combined@.sort_by(le_i32()), le_i32());
    }
    r
}

/// The merged on-the-day set after a submission `inc` joins the stored set
/// `cur`: `cur` unchanged, followed by the not-yet-present identifiers of
/// `inc` in first-seen order.
pub open spec fn merged_ontheday(cur: Seq<Seq<char>>, inc: Seq<Seq<char>>) -> Seq<Seq<char>> {
    dedup_append(cur, inc)
}

/// Merges an on-the-day submission into the stored on-the-day set.
pub fn merge_ontheday(cur: &Vec<String>, inc: &Vec<String>) -> (r: Vec<String>)
    ensures
        r.deep_view() == merged_ontheday(cur.deep_view(), inc.deep_view()),
{
    dedup_append_string(cur, inc)
}

/// Law: submitting the same attendance indices again changes nothing; the
/// stored set after any number of identical submissions equals the set after
/// the first.
pub proof fn lemma_attendance_idempotent(cur: Seq<i32>, inc: Seq<i32>)
    ensures
        merged_attendance(merged_attendance(cur, inc), inc) == merged_attendance(cur, inc),
{
    broadcast use group_seq_properties;

    lemma_le_i32_total();
    let combined = dedup_append(cur, inc);
    let m = merged_attendance(cur, inc);
    combined.lemma_sort_by_ensures(le_i32());
    assert(forall|x: i32| inc.contains(x) ==> m.contains(x)) by {
        assert forall|x: i32| inc.contains(x) implies m.contains(x) by {
            lemma_dedup_append_contains(cur, inc, x);
            vstd::seq_lib::to_multiset_contains(combined, x);
            vstd::seq_lib::to_multiset_contains(m, x);
        }
    }
    lemma_dedup_append_absorbed(m, inc);
    m.lemma_sort_by_ensures(le_i32());
    lemma_sorted_unique(m.sort_by(le_i32()), m, le_i32());
}

/// Law: the merged attendance set is in ascending order, and keeps freedom
/// from duplicates: if the stored set had none, the merged set has none.
pub proof fn lemma_attendance_canonical(cur: Seq<i32>, inc: Seq<i32>)
    ensures
        sorted(merged_attendance(cur, inc)),
        cur.no_duplicates() ==> merged_attendance(cur, inc).no_duplicates(),
{
    broadcast use group_seq_properties;

    lemma_le_i32_total();
    let combined = dedup_append(cur, inc);
    let m = merged_attendance(cur, inc);
    combined.lemma_sort_by_ensures(le_i32());
    lemma_sorted_is_sorted_by(m);
    if cur.no_duplicates() {
        lemma_dedup_append_no_duplicates(cur, inc);
        combined.lemma_multiset_has_no_duplicates();
        m.lemma_multiset_has_no_duplicates_conv();
    }
}

/// Law: the merged attendance set holds exactly the union of the stored set
/// and the submission.
pub proof fn lemma_attendance_membership(cur: Seq<i32>, inc: Seq<i32>, x: i32)
    ensures
        merged_attendance(cur, inc).contains(x) <==> (cur.contains(x) || inc.contains(x)),
{
    broadcast use group_seq_properties;

    lemma_le_i32_total();
    let combined = dedup_append(cur, inc);
    combined.lemma_sort_by_ensures(le_i32());
    lemma_dedup_append_contains(cur, inc, x);
    vstd::seq_lib::to_multiset_contains(combined, x);
    vstd::seq_lib::to_multiset_contains(merged_attendance(cur, inc), x);
}

/// Law: merging an on-the-day submission preserves the stored identifiers in
/// their first-seen order, and introduces no duplicate.
pub proof fn lemma_ontheday_canonical(cur: Seq<Seq<char>>, inc: Seq<Seq<char>>)
    ensures
        merged_ontheday(cur, inc).len() >= cur.len(),
        merged_ontheday(cur, inc).take(cur.len() as int) == cur,
        cur.no_duplicates() ==> merged_ontheday(cur, inc).no_duplicates(),
    {
    lemma_dedup_append_prefix(cur, inc);
    if cur.no_duplicates() {
        lemma_dedup_append_no_duplicates(cur, inc);
    }
}

/// Law: the merged on-the-day set holds exactly the union of the stored set
/// and the submission.
pub proof fn lemma_ontheday_membership(cur: Seq<Seq<char>>, inc: Seq<Seq<char>>, x: Seq<char>)
    ensures
        merged_ontheday(cur, inc).contains(x) <==> (cur.contains(x) || inc.contains(x)),
{
    lemma_dedup_append_contains(cur, inc, x);
}

/// The elements of a submission not yet present in the stored set: the
/// log-worthy delta.
pub open spec fn not_in<A>(cur: Seq<A>) -> spec_fn(A) -> bool {
    |x: A| !cur.contains(x)
}

/// The log-worthy delta of a submission against the stored set.
pub open spec fn new_entries<A>(cur: Seq<A>, inc: Seq<A>) -> Seq<A> {
    inc.filter(not_in(cur))
}

/// The attendance indices of `inc` not yet present in `cur`, in submission
/// order.
pub fn new_attendees(cur: &Vec<i32>, inc: &Vec<i32>) -> (r: Vec<i32>)
    ensures
        r@ == new_entries(cur@, inc@),
{
    let mut r: Vec<i32> = Vec::new();
    let n = inc.len();
    proof {
        reveal(Seq::filter);
    }
    for k in 0..n
        invariant
            n == inc.len(),
            r@ == inc@.take(k as int).filter(not_in(cur@)),
    {
        proof {
            reveal(Seq::filter);
            assert(inc@.take(k + 1).drop_last() =~= inc@.take(k as int));
            assert(inc@.take(k + 1).last() == inc@[k as int]);
        }
        if !contains_i32(cur, inc[k]) {
            r.push(inc[k]);
        }
        assert(r@ == inc@.take(k + 1).filter(not_in(cur@)));
    }
    assert(inc@.take(n as int) =~= inc@);
    r
}

/// The on-the-day identifiers of `inc` not yet present in `cur`, in
/// submission order.
pub fn new_ontheday(cur: &Vec<String>, inc: &Vec<String>) -> (r: Vec<String>)
    ensures
        r.deep_view() == new_entries(cur.deep_view(), inc.deep_view()),
{
    let mut r: Vec<String> = Vec::new();
    let n = inc.len();
    proof {
        reveal(Seq::filter);
    }
    for k in 0..n
        invariant
            n == inc.len(),
            r.deep_view() == inc.deep_view().take(k as int).filter(not_in(cur.deep_view())),
    {
        proof {
            reveal(Seq::filter);
            assert(inc.deep_view().take(k + 1).drop_last() =~= inc.deep_view().take(k as int));
            assert(inc.deep_view().take(k + 1).last() == inc.deep_view()[k as int]);
            assert(inc.deep_view()[k as int] == inc@[k as int]@);
        }
        if !contains_string(cur, inc[k].as_str()) {
            let ghost prev = r.deep_view();
            r.push(inc[k].clone());
            assert(r.deep_view() =~= prev.push(inc@[k as int]@));
        }
        assert(r.deep_view() == inc.deep_view().take(k + 1).filter(not_in(cur.deep_view())));
    }
    assert(inc.deep_view().take(n as int) =~= inc.deep_view());
    r
}

} // verus!
