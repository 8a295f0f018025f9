//! What a rebuilt comment forest is guaranteed to hold. Each of its comments
//! is an input record, under the comment its path names. Where every parent
//! chain reaches the root, each record appears exactly as often as in the
//! input: the rebuilding loses nothing and repeats nothing.
use crate::comments::{
    bucket, forest_from, forest_of, parent_key, parent_keys, parents, tree_from, CommentRecord,
    CommentTree,
};
use vstd::prelude::*;

verus! {

/// `t` and every tree under it are made of records of `records`, each under
/// the comment that its path names; `t` itself names `parent`.
pub open spec fn hangs_under<C: CommentRecord>(t: CommentTree<C>, records: Seq<C>, parent: i32) -> bool
    decreases t,
{
    &&& records.contains(t.record)
    &&& parent_key(t.record) == parent
    &&& forall|i: int|
        0 <= i < t.children.len() ==> hangs_under(#[trigger] t.children[i], records, t.record.id_of())
}

/// The records in a bucket are records with that parent.
proof fn lemma_bucket_members<C: CommentRecord>(records: Seq<C>, p: i32)
    ensures
        forall|j: int|
            0 <= j < bucket(records, p).len() ==> records.contains(#[trigger] bucket(records, p)[j])
                && parent_key(bucket(records, p)[j]) == p,
    decreases records.len(),
{
    if records.len() > 0 {
        let init = records.drop_last();
        lemma_bucket_members(init, p);
        let b = bucket(init, p);
        assert forall|j: int| 0 <= j < bucket(records, p).len() implies records.contains(
            #[trigger] bucket(records, p)[j],
        ) && parent_key(bucket(records, p)[j]) == p by {
            if j < b.len() {
                assert(init.contains(b[j]));
                let k = choose|k: int| 0 <= k < init.len() && init[k] == b[j];
                assert(records[k] == b[j]);
            } else {
                assert(records[records.len() - 1] == records.last());
            }
        }
    }
}

proof fn lemma_tree_from_hangs<C: CommentRecord>(
    c: C,
    records: Seq<C>,
    avail: Set<i32>,
    fuel: nat,
    parent: i32,
)
    requires
        records.contains(c),
        parent_key(c) == parent,
    ensures
        hangs_under(tree_from(c, records, avail, fuel).0, records, parent),
    decreases fuel, 0int, 0nat,
{
    let t = tree_from(c, records, avail, fuel).0;
    if fuel > 0 && avail.contains(c.id_of()) {
        let b = bucket(records, c.id_of());
        lemma_bucket_members(records, c.id_of());
        lemma_forest_from_hangs(b, records, avail.remove(c.id_of()), (fuel - 1) as nat, c.id_of());
        let kids = forest_from(b, records, avail.remove(c.id_of()), (fuel - 1) as nat).0;
        assert(t.children == kids);
        assert forall|i: int| 0 <= i < t.children.len() implies hangs_under(
            #[trigger] t.children[i],
            records,
            t.record.id_of(),
        ) by {
            assert(hangs_under(kids[i], records, c.id_of()));
        }
    } else {
        assert(t.children.len() == 0);
    }
    assert(t.record == c);
}

proof fn lemma_forest_from_hangs<C: CommentRecord>(
    cs: Seq<C>,
    records: Seq<C>,
    avail: Set<i32>,
    fuel: nat,
    parent: i32,
)
    requires
        forall|j: int| 0 <= j < cs.len() ==> records.contains(#[trigger] cs[j]) && parent_key(cs[j]) == parent,
    ensures
        forall|i: int|
            0 <= i < forest_from(cs, records, avail, fuel).0.len() ==> hangs_under(
                #[trigger] forest_from(cs, records, avail, fuel).0[i],
                records,
                parent,
            ),
    decreases fuel, 1int, cs.len(),
{
    if cs.len() > 0 {
        let (first, a1) = tree_from(cs[0], records, avail, fuel);
        let rest = cs.drop_first();
        assert(records.contains(cs[0]) && parent_key(cs[0]) == parent);
        lemma_tree_from_hangs(cs[0], records, avail, fuel, parent);
        assert forall|j: int| 0 <= j < rest.len() implies records.contains(#[trigger] rest[j])
            && parent_key(rest[j]) == parent by {
            assert(cs[j + 1] == rest[j]);
        }
        lemma_forest_from_hangs(rest, records, a1, fuel, parent);
        let f = forest_from(cs, records, avail, fuel).0;
        let r = forest_from(rest, records, a1, fuel).0;
        assert(f == seq![first] + r);
        assert forall|i: int| 0 <= i < f.len() implies hangs_under(#[trigger] f[i], records, parent) by {
            if i > 0 {
                assert(f[i] == r[i - 1]);
            }
        }
    }
}

/// Every comment in the forest is one of the input records and sits under
/// the comment that its path names; the top-level comments name the root `0`.
pub proof fn lemma_forest_hangs_under_parents<C: CommentRecord>(records: Seq<C>)
    ensures
        forall|i: int|
            0 <= i < forest_of(records).len() ==> hangs_under(#[trigger] forest_of(records)[i], records, 0),
{
    lemma_bucket_members(records, 0);
    lemma_forest_from_hangs(bucket(records, 0), records, parents(records).remove(0), records.len(), 0);
}


/// How often `x` occurs in `s`.
pub open spec fn count_in<C>(s: Seq<C>, x: C) -> nat
    decreases s.len(),
{
    if s.len() == 0 {
        0
    } else {
        count_in(s.drop_last(), x) + if s.last() == x {
            1nat
        } else {
            0
        }
    }
}

/// How often `x` is a node of `t`.
pub open spec fn tree_count<C>(t: CommentTree<C>, x: C) -> nat
    decreases t, 1int, 0nat,
{
    (if t.record == x {
        1nat
    } else {
        0
    }) + children_count(t, x, 0)
}

/// How often `x` is a node of the trees under `t`, from its `i`th reply on.
pub open spec fn children_count<C>(t: CommentTree<C>, x: C, i: nat) -> nat
    decreases t, 0int, t.children.len() - i,
{
    if i >= t.children.len() {
        0
    } else {
        tree_count(t.children[i as int], x) + children_count(t, x, i + 1)
    }
}

/// How often `x` is a node of the trees `ts`.
pub open spec fn forest_count<C>(ts: Seq<CommentTree<C>>, x: C) -> nat
    decreases ts.len(),
{
    if ts.len() == 0 {
        0
    } else {
        tree_count(ts[0], x) + forest_count(ts.drop_first(), x)
    }
}

/// The parent chain from `p` reaches the root `0` within `n` steps, each
/// step going to the parent of a record with that id.
pub open spec fn reaches_root<C: CommentRecord>(records: Seq<C>, p: i32, n: nat) -> bool
    decreases n,
{
    p == 0 || (n > 0 && exists|j: int|
        0 <= j < records.len() && #[trigger] records[j].id_of() == p && reaches_root(
            records,
            parent_key(records[j]),
            (n - 1) as nat,
        ))
}

proof fn lemma_children_count<C>(t: CommentTree<C>, x: C, i: nat)
    requires
        i <= t.children.len(),
    ensures
        children_count(t, x, i) == forest_count(
            t.children.subrange(i as int, t.children.len() as int),
            x,
        ),
    decreases t.children.len() - i,
{
    let sub = t.children.subrange(i as int, t.children.len() as int);
    if i < t.children.len() {
        lemma_children_count(t, x, i + 1);
        assert(sub.drop_first() =~= t.children.subrange(i + 1int, t.children.len() as int));
    }
}

proof fn lemma_tree_count_unfold<C>(t: CommentTree<C>, x: C)
    ensures
        tree_count(t, x) == (if t.record == x {
            1nat
        } else {
            0
        }) + forest_count(t.children, x),
{
    lemma_children_count(t, x, 0);
    assert(t.children.subrange(0, t.children.len() as int) =~= t.children);
}

proof fn lemma_forest_count_cons<C>(a: CommentTree<C>, r: Seq<CommentTree<C>>, x: C)
    ensures
        forest_count(seq![a] + r, x) == tree_count(a, x) + forest_count(r, x),
{
    assert((seq![a] + r).drop_first() =~= r);
}

proof fn lemma_count_in_concat<C>(a: Seq<C>, b: Seq<C>, x: C)
    ensures
        count_in(a + b, x) == count_in(a, x) + count_in(b, x),
    decreases b.len(),
{
    if b.len() == 0 {
        assert(a + b =~= a);
    } else {
        lemma_count_in_concat(a, b.drop_last(), x);
        assert((a + b).drop_last() =~= a + b.drop_last());
    }
}

proof fn lemma_count_in_bucket<C: CommentRecord>(records: Seq<C>, k: i32, x: C)
    ensures
        count_in(bucket(records, k), x) == if parent_key(x) == k {
            count_in(records, x)
        } else {
            0
        },
    decreases records.len(),
{
    if records.len() > 0 {
        lemma_count_in_bucket(records.drop_last(), k, x);
        if parent_key(records.last()) == k {
            assert(bucket(records, k).drop_last() =~= bucket(records.drop_last(), k));
        }
    }
}

proof fn lemma_forest_from_shrinks<C: CommentRecord>(
    cs: Seq<C>,
    records: Seq<C>,
    avail: Set<i32>,
    fuel: nat,
)
    ensures
        forest_from(cs, records, avail, fuel).1.subset_of(avail),
    decreases fuel, 1int, cs.len(),
{
    if cs.len() > 0 {
        lemma_tree_from_shrinks(cs[0], records, avail, fuel);
        let a1 = tree_from(cs[0], records, avail, fuel).1;
        lemma_forest_from_shrinks(cs.drop_first(), records, a1, fuel);
    }
}

proof fn lemma_tree_from_shrinks<C: CommentRecord>(
    c: C,
    records: Seq<C>,
    avail: Set<i32>,
    fuel: nat,
)
    ensures
        tree_from(c, records, avail, fuel).1.subset_of(avail),
    decreases fuel, 0int, 0nat,
{
    if fuel > 0 && avail.contains(c.id_of()) {
        lemma_forest_from_shrinks(
            bucket(records, c.id_of()),
            records,
            avail.remove(c.id_of()),
            (fuel - 1) as nat,
        );
    }
}

/// The replies to `p` were handed out on the way from `avail` to `out`.
pub open spec fn handed_out(avail: Set<i32>, out: Set<i32>, p: i32) -> bool {
    avail.contains(p) && !out.contains(p)
}

/// A tree holds its root, and all the replies to each id handed out while
/// it was built.
proof fn lemma_tree_from_count<C: CommentRecord>(
    c: C,
    records: Seq<C>,
    avail: Set<i32>,
    fuel: nat,
    x: C,
)
    ensures
        ({
            let (t, out) = tree_from(c, records, avail, fuel);
            tree_count(t, x) == (if c == x {
                1nat
            } else {
                0
            }) + if handed_out(avail, out, parent_key(x)) {
                count_in(records, x)
            } else {
                0
            }
        }),
    decreases fuel, 0int, 0nat,
{
    let (t, out) = tree_from(c, records, avail, fuel);
    lemma_tree_count_unfold(t, x);
    if fuel > 0 && avail.contains(c.id_of()) {
        let id = c.id_of();
        let b = bucket(records, id);
        let a1 = avail.remove(id);
        lemma_forest_from_count(b, records, a1, (fuel - 1) as nat, x);
        lemma_forest_from_shrinks(b, records, a1, (fuel - 1) as nat);
        lemma_count_in_bucket(records, id, x);
    } else {
        assert(t.children.len() == 0);
    }
}

/// Trees built one after another hold their roots, and all the replies to
/// each id handed out while they were built.
proof fn lemma_forest_from_count<C: CommentRecord>(
    cs: Seq<C>,
    records: Seq<C>,
    avail: Set<i32>,
    fuel: nat,
    x: C,
)
    ensures
        ({
            let (ts, out) = forest_from(cs, records, avail, fuel);
            forest_count(ts, x) == count_in(cs, x) + if handed_out(avail, out, parent_key(x)) {
                count_in(records, x)
            } else {
                0
            }
        }),
    decreases fuel, 1int, cs.len(),
{
    let (ts, out) = forest_from(cs, records, avail, fuel);
    if cs.len() > 0 {
        let (first, a1) = tree_from(cs[0], records, avail, fuel);
        let rest = cs.drop_first();
        lemma_tree_from_count(cs[0], records, avail, fuel, x);
        lemma_forest_from_count(rest, records, a1, fuel, x);
        lemma_tree_from_shrinks(cs[0], records, avail, fuel);
        lemma_forest_from_shrinks(rest, records, a1, fuel);
        let (r, out2) = forest_from(rest, records, a1, fuel);
        assert(ts == seq![first] + r);
        lemma_forest_count_cons(first, r, x);
        assert(cs =~= seq![cs[0]] + rest);
        lemma_count_in_concat(seq![cs[0]], rest, x);
        assert(count_in(seq![cs[0]], x) == if cs[0] == x {
            1nat
        } else {
            0
        }) by {
            assert(seq![cs[0]].drop_last() =~= Seq::<C>::empty());
            assert(count_in(Seq::<C>::empty(), x) == 0);
        }
    }
}

/// Every comment placed in a tree has had its replies handed out, as long
/// as the depth bound is no smaller than the ids still to hand out.
proof fn lemma_tree_from_placed<C: CommentRecord>(
    c: C,
    records: Seq<C>,
    avail: Set<i32>,
    fuel: nat,
    x: C,
)
    requires
        avail.finite(),
        avail.len() <= fuel,
        tree_count(tree_from(c, records, avail, fuel).0, x) > 0,
    ensures
        !tree_from(c, records, avail, fuel).1.contains(x.id_of()),
    decreases fuel, 0int, 0nat,
{
    let (t, out) = tree_from(c, records, avail, fuel);
    lemma_tree_count_unfold(t, x);
    if avail.contains(c.id_of()) {
        assert(fuel > 0) by {
            vstd::set_lib::lemma_set_empty_equivalency_len(avail);
        }
        let id = c.id_of();
        let b = bucket(records, id);
        let a1 = avail.remove(id);
        lemma_forest_from_shrinks(b, records, a1, (fuel - 1) as nat);
        if x != c {
            lemma_forest_from_placed(b, records, a1, (fuel - 1) as nat, x);
        }
    } else {
        assert(t.children.len() == 0);
    }
}

proof fn lemma_forest_from_placed<C: CommentRecord>(
    cs: Seq<C>,
    records: Seq<C>,
    avail: Set<i32>,
    fuel: nat,
    x: C,
)
    requires
        avail.finite(),
        avail.len() <= fuel,
        forest_count(forest_from(cs, records, avail, fuel).0, x) > 0,
    ensures
        !forest_from(cs, records, avail, fuel).1.contains(x.id_of()),
    decreases fuel, 1int, cs.len(),
{
    let (ts, out) = forest_from(cs, records, avail, fuel);
    if cs.len() > 0 {
        let (first, a1) = tree_from(cs[0], records, avail, fuel);
        let rest = cs.drop_first();
        let (r, out2) = forest_from(rest, records, a1, fuel);
        assert(ts == seq![first] + r);
        lemma_forest_count_cons(first, r, x);
        lemma_tree_from_shrinks(cs[0], records, avail, fuel);
        lemma_forest_from_shrinks(rest, records, a1, fuel);
        vstd::set_lib::lemma_len_subset(a1, avail);
        if tree_count(first, x) > 0 {
            lemma_tree_from_placed(cs[0], records, avail, fuel, x);
        } else {
            lemma_forest_from_placed(rest, records, a1, fuel, x);
        }
    }
}

/// The forest holds each record that its parents' replies were handed out
/// for, and the records under the root.
proof fn lemma_forest_of_count<C: CommentRecord>(records: Seq<C>, x: C)
    ensures
        forest_count(forest_of(records), x) == if parent_key(x) == 0 || handed_out(
            parents(records).remove(0),
            forest_from(bucket(records, 0), records, parents(records).remove(0), records.len()).1,
            parent_key(x),
        ) {
            count_in(records, x)
        } else {
            0
        },
{
    let avail = parents(records).remove(0);
    lemma_forest_from_count(bucket(records, 0), records, avail, records.len(), x);
    lemma_count_in_bucket(records, 0, x);
}

proof fn lemma_count_in_contains<C>(s: Seq<C>, x: C)
    ensures
        (count_in(s, x) > 0) == s.contains(x),
    decreases s.len(),
{
    if s.len() > 0 {
        lemma_count_in_contains(s.drop_last(), x);
        if s.drop_last().contains(x) {
            let i = choose|i: int| 0 <= i < s.drop_last().len() && s.drop_last()[i] == x;
            assert(s[i] == x);
        }
        if s.contains(x) {
            let i = choose|i: int| 0 <= i < s.len() && s[i] == x;
            if i < s.len() - 1 {
                assert(s.drop_last()[i] == x);
            }
        }
    }
}

/// A record whose parent chain reaches the root lies in the forest.
proof fn lemma_reached_is_placed<C: CommentRecord>(records: Seq<C>, x: C, n: nat)
    requires
        records.contains(x),
        reaches_root(records, parent_key(x), n),
    ensures
        forest_count(forest_of(records), x) == count_in(records, x),
    decreases n,
{
    let avail = parents(records).remove(0);
    let out = forest_from(bucket(records, 0), records, avail, records.len()).1;
    lemma_forest_of_count(records, x);
    let p = parent_key(x);
    if p != 0 {
        let j = choose|j: int|
            0 <= j < records.len() && #[trigger] records[j].id_of() == p && reaches_root(
                records,
                parent_key(records[j]),
                (n - 1) as nat,
            );
        let q = records[j];
        lemma_reached_is_placed(records, q, (n - 1) as nat);
        lemma_count_in_contains(records, q);
        parent_keys_finite(records);
        lemma_forest_from_placed(bucket(records, 0), records, avail, records.len(), q);
        let i = choose|i: int| 0 <= i < records.len() && records[i] == x;
        assert(parent_keys(records)[i] == p);
        assert(parents(records).contains(p));
    }
}

proof fn parent_keys_finite<C: CommentRecord>(records: Seq<C>)
    ensures
        parents(records).remove(0).finite(),
        parents(records).remove(0).len() <= records.len(),
{
    parent_keys(records).lemma_cardinality_of_set();
    vstd::set_lib::lemma_len_subset(parents(records).remove(0), parents(records));
}

/// Where the parent chain of every record reaches the root, the forest holds
/// each record exactly as often as the input does: nothing is lost and
/// nothing repeated.
pub proof fn lemma_forest_complete<C: CommentRecord>(records: Seq<C>)
    requires
        forall|x: C| #[trigger]
            records.contains(x) ==> exists|n: nat| reaches_root(records, parent_key(x), n),
    ensures
        forall|x: C| #[trigger] forest_count(forest_of(records), x) == count_in(records, x),
{
    assert forall|x: C| #[trigger] forest_count(forest_of(records), x) == count_in(records, x) by {
        if records.contains(x) {
            let n = choose|n: nat| reaches_root(records, parent_key(x), n);
            lemma_reached_is_placed(records, x, n);
        } else {
            lemma_count_in_contains(records, x);
            lemma_forest_of_count(records, x);
        }
    }
}

} // verus!
