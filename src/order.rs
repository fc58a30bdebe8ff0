//! Orders used for deterministic output: lexicographic order on text and a
//! stable insertion sort, specified for any total preorder.
use vstd::prelude::*;

verus! {

/// Three-way lexicographic comparison of two texts by code point: negative,
/// zero or positive as `a` sorts before, equal to, or after `b`.
pub open spec fn cmp_text(a: Seq<char>, b: Seq<char>) -> int
    decreases a.len(),
{
    if a.len() == 0 && b.len() == 0 {
        0
    } else if a.len() == 0 {
        -1
    } else if b.len() == 0 {
        1
    } else if a[0] < b[0] {
        -1
    } else if a[0] > b[0] {
        1
    } else {
        cmp_text(a.drop_first(), b.drop_first())
    }
}

pub proof fn lemma_cmp_text_facts(a: Seq<char>, b: Seq<char>)
    ensures
        -1 <= cmp_text(a, b) <= 1,
        cmp_text(a, b) == -cmp_text(b, a),
        cmp_text(a, b) == 0 <==> a == b,
    decreases a.len(),
{
    if a.len() > 0 && b.len() > 0 {
        lemma_cmp_text_facts(a.drop_first(), b.drop_first());
        if a[0] == b[0] && a.drop_first() == b.drop_first() {
            assert(a =~= seq![a[0]] + a.drop_first());
            assert(b =~= seq![b[0]] + b.drop_first());
        }
        if a == b {
            assert(a.drop_first() == b.drop_first());
        }
        if !(a[0] < b[0]) && !(a[0] > b[0]) {
            assert(a[0] == b[0]);
        }
    } else if a.len() == 0 && b.len() == 0 {
        assert(a =~= b);
    }
}

pub proof fn lemma_cmp_text_trans(a: Seq<char>, b: Seq<char>, c: Seq<char>)
    requires
        cmp_text(a, b) <= 0,
        cmp_text(b, c) <= 0,
    ensures
        cmp_text(a, c) <= 0,
        cmp_text(a, b) < 0 || cmp_text(b, c) < 0 ==> cmp_text(a, c) < 0,
    decreases a.len(),
{
    if a.len() > 0 && b.len() > 0 && c.len() > 0 {
        if a[0] == b[0] && b[0] == c[0] {
            lemma_cmp_text_trans(a.drop_first(), b.drop_first(), c.drop_first());
        }
    }
}

/// Three-way lexicographic comparison of `a` and `b`.
pub fn cmp_text_exec(a: &Vec<char>, b: &Vec<char>) -> (r: i8)
    ensures
        r as int == cmp_text(a@, b@),
{
    let mut i: usize = 0;
    assert(a@.subrange(0, a@.len() as int) == a@);
    assert(b@.subrange(0, b@.len() as int) == b@);
    while i < a.len() && i < b.len() && a[i] == b[i]
        invariant
            i <= a@.len(),
            i <= b@.len(),
            cmp_text(a@, b@) == cmp_text(a@.subrange(i as int, a@.len() as int), b@.subrange(i as int, b@.len() as int)),
        decreases a@.len() - i,
    {
        assert(a@.subrange(i as int, a@.len() as int).drop_first() == a@.subrange(i + 1, a@.len() as int));
        assert(b@.subrange(i as int, b@.len() as int).drop_first() == b@.subrange(i + 1, b@.len() as int));
        i = i + 1;
    }
    let ghost sa = a@.subrange(i as int, a@.len() as int);
    let ghost sb = b@.subrange(i as int, b@.len() as int);
    if i == a.len() && i == b.len() {
        0
    } else if i == a.len() {
        -1
    } else if i == b.len() {
        1
    } else {
        assert(sa[0] == a@[i as int] && sb[0] == b@[i as int]);
        if a[i] < b[i] {
            -1
        } else {
            1
        }
    }
}

/// `le` is a total preorder.
pub open spec fn total_preorder<A>(le: spec_fn(A, A) -> bool) -> bool {
    &&& forall|x: A, y: A| #[trigger] le(x, y) || le(y, x)
    &&& forall|x: A, y: A, z: A| #[trigger] le(x, y) && #[trigger] le(y, z) ==> le(x, z)
}

/// Every element is in order with every later one.
pub open spec fn sorted_by<A>(s: Seq<A>, le: spec_fn(A, A) -> bool) -> bool {
    forall|i: int, j: int| 0 <= i < j < s.len() ==> le(#[trigger] s[i], #[trigger] s[j])
}

/// `x` placed into `s` after every element that is in order with it,
/// scanning from the back: the step of a stable insertion sort.
pub open spec fn insert_by<A>(s: Seq<A>, x: A, le: spec_fn(A, A) -> bool) -> Seq<A>
    decreases s.len(),
{
    if s.len() == 0 || le(s.last(), x) {
        s.push(x)
    } else {
        insert_by(s.drop_last(), x, le).push(s.last())
    }
}

/// The stable sort of `s` by `le`: each element in turn is inserted into the
/// sorted prefix, after the elements it does not precede.
pub open spec fn sort_by<A>(s: Seq<A>, le: spec_fn(A, A) -> bool) -> Seq<A>
    decreases s.len(),
{
    if s.len() == 0 {
        s
    } else {
        insert_by(sort_by(s.drop_last(), le), s.last(), le)
    }
}

/// Where the back-to-front scan stops, `insert_by` places `x`.
pub proof fn lemma_insert_at<A>(s: Seq<A>, x: A, le: spec_fn(A, A) -> bool, j: int)
    requires
        0 <= j <= s.len(),
        j == 0 || le(s[j - 1], x),
        forall|k: int| j <= k < s.len() ==> !le(#[trigger] s[k], x),
    ensures
        insert_by(s, x, le) == s.insert(j, x),
    decreases s.len(),
{
    if j == s.len() {
        assert(s.insert(j, x) =~= s.push(x));
    } else {
        assert(!le(s[s.len() - 1], x));
        lemma_insert_at(s.drop_last(), x, le, j);
        assert(s.drop_last().insert(j, x).push(s.last()) =~= s.insert(j, x));
    }
}

pub proof fn lemma_sort_by_step<A>(s: Seq<A>, i: int, le: spec_fn(A, A) -> bool)
    requires
        0 <= i < s.len(),
    ensures
        sort_by(s.subrange(0, i + 1), le) == insert_by(sort_by(s.subrange(0, i), le), s[i], le),
{
    assert(s.subrange(0, i + 1).drop_last() == s.subrange(0, i));
}

pub proof fn lemma_insert_by_len<A>(s: Seq<A>, x: A, le: spec_fn(A, A) -> bool)
    ensures
        insert_by(s, x, le).len() == s.len() + 1,
    decreases s.len(),
{
    if s.len() > 0 && !le(s.last(), x) {
        lemma_insert_by_len(s.drop_last(), x, le);
    }
}

pub proof fn lemma_sort_by_len<A>(s: Seq<A>, le: spec_fn(A, A) -> bool)
    ensures
        sort_by(s, le).len() == s.len(),
    decreases s.len(),
{
    if s.len() > 0 {
        lemma_sort_by_len(s.drop_last(), le);
        lemma_insert_by_len(sort_by(s.drop_last(), le), s.last(), le);
    }
}

/// If every element of `s` and `x` precede `y`, so does every element of the insertion.
proof fn lemma_insert_by_bounded<A>(s: Seq<A>, x: A, y: A, le: spec_fn(A, A) -> bool)
    requires
        forall|k: int| 0 <= k < s.len() ==> le(#[trigger] s[k], y),
        le(x, y),
    ensures
        forall|k: int|
            0 <= k < insert_by(s, x, le).len() ==> le(#[trigger] insert_by(s, x, le)[k], y),
    decreases s.len(),
{
    lemma_insert_by_len(s, x, le);
    if s.len() > 0 && !le(s.last(), x) {
        lemma_insert_by_bounded(s.drop_last(), x, y, le);
        lemma_insert_by_len(s.drop_last(), x, le);
        let t = insert_by(s.drop_last(), x, le);
        assert forall|k: int| 0 <= k < t.push(s.last()).len() implies le(
            #[trigger] t.push(s.last())[k],
            y,
        ) by {
            if k < t.len() {
                assert(t.push(s.last())[k] == t[k]);
            }
        }
    }
}

pub proof fn lemma_insert_by_sorted<A>(s: Seq<A>, x: A, le: spec_fn(A, A) -> bool)
    requires
        total_preorder(le),
        sorted_by(s, le),
    ensures
        sorted_by(insert_by(s, x, le), le),
    decreases s.len(),
{
    lemma_insert_by_len(s, x, le);
    if s.len() == 0 || le(s.last(), x) {
        let t = s.push(x);
        assert forall|i: int, j: int| 0 <= i < j < t.len() implies le(
            #[trigger] t[i],
            #[trigger] t[j],
        ) by {
            if j == s.len() && i < s.len() - 1 {
                assert(le(s[i], s[s.len() - 1]));
            }
        }
    } else {
        let d = s.drop_last();
        lemma_insert_by_sorted(d, x, le);
        assert(le(x, s.last()));
        assert forall|k: int| 0 <= k < d.len() implies le(#[trigger] d[k], s.last()) by {
            assert(le(s[k], s[s.len() - 1]));
        }
        lemma_insert_by_bounded(d, x, s.last(), le);
        lemma_insert_by_len(d, x, le);
        let t = insert_by(d, x, le);
        assert forall|i: int, j: int| 0 <= i < j < t.push(s.last()).len() implies le(
            #[trigger] t.push(s.last())[i],
            #[trigger] t.push(s.last())[j],
        ) by {
            assert(t.push(s.last())[i] == t[i]);
            if j < t.len() {
                assert(t.push(s.last())[j] == t[j]);
            }
        }
    }
}

/// The result of `sort_by` is in order.
pub proof fn lemma_sort_by_sorted<A>(s: Seq<A>, le: spec_fn(A, A) -> bool)
    requires
        total_preorder(le),
    ensures
        sorted_by(sort_by(s, le), le),
    decreases s.len(),
{
    if s.len() > 0 {
        lemma_sort_by_sorted(s.drop_last(), le);
        lemma_insert_by_sorted(sort_by(s.drop_last(), le), s.last(), le);
    }
}

/// Sorting a sequence that is already in order leaves it as it is.
pub proof fn lemma_sort_by_of_sorted<A>(s: Seq<A>, le: spec_fn(A, A) -> bool)
    requires
        sorted_by(s, le),
    ensures
        sort_by(s, le) == s,
    decreases s.len(),
{
    if s.len() > 0 {
        let d = s.drop_last();
        assert(sorted_by(d, le)) by {
            assert forall|i: int, j: int| 0 <= i < j < d.len() implies le(
                #[trigger] d[i],
                #[trigger] d[j],
            ) by {
                assert(d[i] == s[i] && d[j] == s[j]);
            }
        }
        lemma_sort_by_of_sorted(d, le);
        if d.len() > 0 {
            assert(le(s[d.len() - 1], s[s.len() - 1]));
        }
        assert(d.push(s.last()) == s);
    }
}

/// Sorting twice gives what sorting once gives.
pub proof fn lemma_sort_by_idempotent<A>(s: Seq<A>, le: spec_fn(A, A) -> bool)
    requires
        total_preorder(le),
    ensures
        sort_by(sort_by(s, le), le) == sort_by(s, le),
{
    lemma_sort_by_sorted(s, le);
    lemma_sort_by_of_sorted(sort_by(s, le), le);
}

/// Insertion keeps the elements, with `x` added once.
pub proof fn lemma_insert_by_multiset<A>(s: Seq<A>, x: A, le: spec_fn(A, A) -> bool)
    ensures
        insert_by(s, x, le).to_multiset() == s.to_multiset().insert(x),
    decreases s.len(),
{
    broadcast use vstd::seq_lib::group_to_multiset_ensures;

    if s.len() == 0 || le(s.last(), x) {
    } else {
        let d = s.drop_last();
        lemma_insert_by_multiset(d, x, le);
        assert(d.push(s.last()) == s);
        assert(s.to_multiset() == d.to_multiset().insert(s.last()));
        assert(insert_by(s, x, le).to_multiset() =~= s.to_multiset().insert(x));
    }
}

/// Sorting keeps the elements.
pub proof fn lemma_sort_by_multiset<A>(s: Seq<A>, le: spec_fn(A, A) -> bool)
    ensures
        sort_by(s, le).to_multiset() == s.to_multiset(),
    decreases s.len(),
{
    broadcast use vstd::seq_lib::group_to_multiset_ensures;

    if s.len() > 0 {
        let d = s.drop_last();
        lemma_sort_by_multiset(d, le);
        lemma_insert_by_multiset(sort_by(d, le), s.last(), le);
        assert(d.push(s.last()) == s);
    }
}

} // verus!
