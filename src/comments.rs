//! Rebuilding the tree of a post's comments from the flat list that the
//! server sends, where each comment carries its materialized path.
use crate::feed::FeedItem;
use crate::path::{parent_of_path, parse_parent, PathError};
use std::collections::HashMap;
use vstd::prelude::*;

verus! {

broadcast use vstd::std_specs::hash::group_hash_axioms;

/// A comment as the tree builder sees it: an id and a materialized path.
pub trait CommentRecord {
    /// The id, as the contracts speak of it; `comment_id` returns it.
    spec fn id_of(&self) -> i32;

    /// The path, as the contracts speak of it; `path` returns it.
    spec fn path_of(&self) -> Seq<char>;

    fn comment_id(&self) -> (r: i32)
        ensures
            r == self.id_of(),
    ;

    fn path(&self) -> (r: &str)
        ensures
            r@ == self.path_of(),
    ;
}

/// A comment and the replies to it, each with its own replies.
pub struct CommentWithChildren<C>(pub C, pub Vec<CommentWithChildren<C>>);

/// The shape of a comment tree.
pub struct CommentTree<C> {
    pub record: C,
    pub children: Seq<CommentTree<C>>,
}

pub open spec fn tree_of<C>(n: CommentWithChildren<C>) -> CommentTree<C>
    decreases n,
{
    CommentTree {
        record: n.0,
        children: Seq::new(
            n.1@.len(),
            |i: int|
                if 0 <= i < n.1@.len() {
                    tree_of(n.1@[i])
                } else {
                    CommentTree { record: n.0, children: Seq::empty() }
                },
        ),
    }
}

pub open spec fn trees_of<C>(v: Seq<CommentWithChildren<C>>) -> Seq<CommentTree<C>> {
    Seq::new(v.len(), |i: int| tree_of(v[i]))
}

/// The parent id of a comment whose path parses.
pub open spec fn parent_key<C: CommentRecord>(c: C) -> i32 {
    match parse_parent(c.path_of()) {
        Ok(p) => p,
        Err(_) => 0,
    }
}

/// The first path error among `records`, if any.
pub open spec fn path_error<C: CommentRecord>(records: Seq<C>) -> Option<PathError>
    decreases records.len(),
{
    if records.len() == 0 {
        None
    } else {
        match path_error(records.drop_last()) {
            Some(e) => Some(e),
            None => match parse_parent(records.last().path_of()) {
                Ok(_) => None,
                Err(e) => Some(e),
            },
        }
    }
}

/// The records whose parent is `p`, in order.
pub open spec fn bucket<C: CommentRecord>(records: Seq<C>, p: i32) -> Seq<C>
    decreases records.len(),
{
    if records.len() == 0 {
        Seq::empty()
    } else {
        let b = bucket(records.drop_last(), p);
        if parent_key(records.last()) == p {
            b.push(records.last())
        } else {
            b
        }
    }
}

/// The parent id of each record, in order.
pub open spec fn parent_keys<C: CommentRecord>(records: Seq<C>) -> Seq<i32> {
    records.map_values(|c: C| parent_key(c))
}

/// The ids that some record names as its parent.
pub open spec fn parents<C: CommentRecord>(records: Seq<C>) -> Set<i32> {
    parent_keys(records).to_set()
}

/// The tree under comment `c`. The replies to an id are handed out once:
/// `avail` holds the ids whose replies are still to be handed out, so that
/// a second comment with an id already used gets no replies. `fuel` bounds
/// the depth; it never runs out while it is at least the size of `avail`.
pub open spec fn tree_from<C: CommentRecord>(
    c: C,
    records: Seq<C>,
    avail: Set<i32>,
    fuel: nat,
) -> (CommentTree<C>, Set<i32>)
    decreases fuel, 0int, 0nat,
{
    if fuel > 0 && avail.contains(c.id_of()) {
        let (kids, rest) = forest_from(
            bucket(records, c.id_of()),
            records,
            avail.remove(c.id_of()),
            (fuel - 1) as nat,
        );
        (CommentTree { record: c, children: kids }, rest)
    } else {
        (CommentTree { record: c, children: Seq::empty() }, avail)
    }
}

/// The trees under the comments `cs`, in order, handing out replies as
/// `tree_from` does.
pub open spec fn forest_from<C: CommentRecord>(
    cs: Seq<C>,
    records: Seq<C>,
    avail: Set<i32>,
    fuel: nat,
) -> (Seq<CommentTree<C>>, Set<i32>)
    decreases fuel, 1int, cs.len(),
{
    if cs.len() == 0 {
        (Seq::empty(), avail)
    } else {
        let (first, a1) = tree_from(cs[0], records, avail, fuel);
        let (rest, a2) = forest_from(cs.drop_first(), records, a1, fuel);
        (seq![first] + rest, a2)
    }
}

/// The forest of `records`: the trees under the comments whose parent is the
/// root `0`. Comments that no chain of parents links to the root are left out.
pub open spec fn forest_of<C: CommentRecord>(records: Seq<C>) -> Seq<CommentTree<C>> {
    forest_from(bucket(records, 0), records, parents(records).remove(0), records.len()).0
}

/// The map holds, under each of its keys, the records with that parent.
pub open spec fn holds_buckets<C: CommentRecord>(
    m: Map<i32, Vec<C>>,
    records: Seq<C>,
) -> bool {
    forall|p: i32| #[trigger] m.contains_key(p) ==> m[p]@ == bucket(records, p)
}

proof fn lemma_parents_bucket<C: CommentRecord>(records: Seq<C>, p: i32)
    ensures
        parents(records).contains(p) == (bucket(records, p).len() > 0),
    decreases records.len(),
{
    if records.len() > 0 {
        let init = records.drop_last();
        lemma_parents_bucket(init, p);
        let ks = parent_keys(records);
        let ki = parent_keys(init);
        assert(ks =~= ki.push(parent_key(records.last())));
        if ki.contains(p) {
            let i = choose|i: int| 0 <= i < ki.len() && ki[i] == p;
            assert(ks[i] == p);
        }
        if parent_key(records.last()) == p {
            assert(ks[ks.len() - 1] == p);
        }
        assert(parents(records).contains(p) == ks.contains(p));
        assert(parents(init).contains(p) == ki.contains(p));
        if ks.contains(p) {
            let i = choose|i: int| 0 <= i < ks.len() && ks[i] == p;
            if i < init.len() {
                assert(ki[i] == p);
            }
        }
    } else {
        assert(!parent_keys(records).contains(p));
    }
}

/// Builds the tree under `comment`, taking the replies to it out of
/// `comments`.
fn get_children<C: CommentRecord>(
    comment: C,
    comments: &mut HashMap<i32, Vec<C>>,
    Ghost(records): Ghost<Seq<C>>,
    Ghost(fuel): Ghost<nat>,
) -> (r: CommentWithChildren<C>)
    requires
        old(comments)@.dom().len() <= fuel,
        holds_buckets(old(comments)@, records),
    ensures
        holds_buckets(final(comments)@, records),
        final(comments)@.dom().subset_of(old(comments)@.dom()),
        (tree_of(r), final(comments)@.dom()) == tree_from(
            comment,
            records,
            old(comments)@.dom(),
            fuel,
        ),
    decreases fuel, 0int,
{
    let id = comment.comment_id();
    match comments.remove(&id) {
        Some(children) => {
            proof {
                assert(old(comments)@.dom().contains(id));
                assert(old(comments)@.dom().len() > 0) by {
                    vstd::set_lib::lemma_set_empty_equivalency_len(old(comments)@.dom());
                }
                assert(comments@.dom() =~= old(comments)@.dom().remove(id));
                assert(holds_buckets(comments@, records)) by {
                    assert forall|p: i32| #[trigger] comments@.contains_key(p) implies comments@[p]@
                        == bucket(records, p) by {
                        assert(old(comments)@.contains_key(p));
                    }
                }
            }
            let kids = get_all_children(children, comments, Ghost(records), Ghost((fuel - 1) as nat));
            let r = CommentWithChildren(comment, kids);
            proof {
                assert(tree_of(r).children =~= trees_of(kids@));
            }
            r
        },
        None => {
            let r = CommentWithChildren(comment, Vec::new());
            proof {
                assert(comments@ == old(comments)@);
                assert(tree_of(r).children =~= Seq::<CommentTree<C>>::empty());
            }
            r
        },
    }
}

/// Builds the trees under each of `children`, in order.
fn get_all_children<C: CommentRecord>(
    children: Vec<C>,
    comments: &mut HashMap<i32, Vec<C>>,
    Ghost(records): Ghost<Seq<C>>,
    Ghost(fuel): Ghost<nat>,
) -> (r: Vec<CommentWithChildren<C>>)
    requires
        old(comments)@.dom().len() <= fuel,
        holds_buckets(old(comments)@, records),
    ensures
        holds_buckets(final(comments)@, records),
        final(comments)@.dom().subset_of(old(comments)@.dom()),
        (trees_of(r@), final(comments)@.dom()) == forest_from(
            children@,
            records,
            old(comments)@.dom(),
            fuel,
        ),
    decreases fuel, 1int,
{
    let ghost all = children@;
    let ghost avail0 = comments@.dom();
    let mut kids: Vec<CommentWithChildren<C>> = Vec::new();
    let mut rest = children;
    while rest.len() > 0
        invariant
            holds_buckets(comments@, records),
            comments@.dom().subset_of(avail0),
            avail0.len() <= fuel,
            avail0.finite(),
            forest_from(all, records, avail0, fuel) == (
                trees_of(kids@) + forest_from(rest@, records, comments@.dom(), fuel).0,
                forest_from(rest@, records, comments@.dom(), fuel).1,
            ),
        decreases rest@.len(),
    {
        proof {
            vstd::set_lib::lemma_len_subset(comments@.dom(), avail0);
        }
        let ghost before = comments@.dom();
        let ghost rs = rest@;
        let child = rest.remove(0);
        let node = get_children(child, comments, Ghost(records), Ghost(fuel));
        let ghost prev = kids@;
        kids.push(node);
        proof {
            assert(rs[0] == child);
            assert(rs.drop_first() =~= rest@);
            assert(trees_of(kids@) =~= trees_of(prev).push(tree_of(node)));
            let tail = forest_from(rest@, records, comments@.dom(), fuel);
            assert(forest_from(rs, records, before, fuel) == (seq![tree_of(node)] + tail.0, tail.1));
            assert(trees_of(prev) + (seq![tree_of(node)] + tail.0) =~= trees_of(kids@) + tail.0);
        }
    }
    proof {
        assert(trees_of(kids@) + Seq::<CommentTree<C>>::empty() =~= trees_of(kids@));
    }
    kids
}

impl<C: CommentRecord> CommentWithChildren<C> {
    /// Rebuilds the forest of a post's comments from the flat list: the trees
    /// under the comments whose parent is the root `0`, each reply under its
    /// parent, in the order of the list. Comments that no chain of parents
    /// links to the root are left out. Fails with the first path that names no
    /// parent.
    pub fn from_comments(comments: Vec<C>) -> (r: Result<Vec<CommentWithChildren<C>>, PathError>)
        ensures
            match r {
                Ok(forest) => path_error(comments@) is None && trees_of(forest@) == forest_of(
                    comments@,
                ),
                Err(e) => path_error(comments@) == Some(e),
            },
    {
        let ghost records = comments@;
        let n = comments.len();
        let mut value: HashMap<i32, Vec<C>> = HashMap::new();
        let mut rest = comments;
        let mut i: usize = 0;
        while rest.len() > 0
            invariant
                i + rest@.len() == n,
                records == comments@,
                n == records.len(),
                rest@ == records.subrange(i as int, n as int),
                path_error(records.take(i as int)) is None,
                forall|p: i32| #[trigger]
                    value@.contains_key(p) == (bucket(records.take(i as int), p).len() > 0),
                holds_buckets(value@, records.take(i as int)),
            decreases rest@.len(),
        {
            let c = rest.remove(0);
            let ghost pre = records.take(i as int);
            let ghost post = records.take(i + 1);
            proof {
                assert(c == records[i as int]);
                assert(post.drop_last() =~= pre);
                assert(post.last() == c);
            }
            let parent = match parent_of_path(c.path()) {
                Ok(p) => p,
                Err(e) => {
                    proof {
                        assert(path_error(post) == Some(e));
                        lemma_path_error_prefix(records, i + 1);
                    }
                    return Err(e);
                },
            };
            let ghost vb = value@;
            let bucket_now = value.remove(&parent);
            let b = match bucket_now {
                Some(b) => b,
                None => Vec::new(),
            };
            let mut b = b;
            proof {
                assert(b@ == bucket(pre, parent)) by {
                    if !vb.contains_key(parent) {
                        assert(bucket(pre, parent).len() == 0);
                        assert(bucket(pre, parent) =~= Seq::<C>::empty());
                    }
                }
            }
            b.push(c);
            value.insert(parent, b);
            proof {
                assert forall|p: i32| #[trigger]
                    value@.contains_key(p) == (bucket(post, p).len() > 0) by {}
                assert(holds_buckets(value@, post)) by {
                    assert forall|p: i32| #[trigger] value@.contains_key(p) implies value@[p]@
                        == bucket(post, p) by {}
                }
                assert(rest@ =~= records.subrange(i + 1, n as int));
            }
            i = i + 1;
        }
        proof {
            assert(records.take(n as int) =~= records);
            assert(value@.dom() =~= parents(records)) by {
                assert forall|p: i32| value@.dom().contains(p) == parents(records).contains(p) by {
                    lemma_parents_bucket(records, p);
                }
            }
            parent_keys(records).lemma_cardinality_of_set();
        }
        let ghost fuel = records.len();
        let ghost full = value@;
        match value.remove(&0) {
            Some(roots) => {
                proof {
                    assert(value@.dom() =~= parents(records).remove(0));
                    vstd::set_lib::lemma_len_subset(value@.dom(), parents(records));
                    assert(holds_buckets(value@, records)) by {
                        assert forall|p: i32| #[trigger] value@.contains_key(p) implies value@[p]@
                            == bucket(records, p) by {
                            assert(full.contains_key(p));
                        }
                    }
                }
                let forest = get_all_children(roots, &mut value, Ghost(records), Ghost(fuel));
                Ok(forest)
            },
            None => {
                proof {
                    assert(bucket(records, 0) =~= Seq::<C>::empty());
                }
                let forest: Vec<CommentWithChildren<C>> = Vec::new();
                proof {
                    assert(trees_of(forest@) =~= Seq::<CommentTree<C>>::empty());
                }
                Ok(forest)
            },
        }
    }
}

/// A path error among the first `i` records is one among all of them.
proof fn lemma_path_error_prefix<C: CommentRecord>(records: Seq<C>, i: int)
    requires
        0 <= i <= records.len(),
        path_error(records.take(i)) is Some,
    ensures
        path_error(records) == path_error(records.take(i)),
    decreases records.len() - i,
{
    if i < records.len() {
        assert(records.take(i + 1).drop_last() =~= records.take(i));
        lemma_path_error_prefix(records, i + 1);
    } else {
        assert(records.take(i) =~= records);
    }
}

impl<C: CommentRecord> FeedItem for CommentWithChildren<C> {
    open spec fn key_of(&self) -> i64 {
        self.0.id_of() as i64
    }

    fn key(&self) -> (k: i64) {
        self.0.comment_id() as i64
    }
}

/// Appends a new reply, which has no replies yet, under its parent's replies.
pub fn push_reply<C>(children: &mut Vec<CommentWithChildren<C>>, reply: C)
    ensures
        trees_of(final(children)@) == trees_of(old(children)@).push(
            CommentTree { record: reply, children: Seq::empty() },
        ),
{
    let ghost before = children@;
    let node = CommentWithChildren(reply, Vec::new());
    proof {
        assert(tree_of(node).children =~= Seq::<CommentTree<C>>::empty());
    }
    children.push(node);
    proof {
        assert(trees_of(children@) =~= trees_of(before).push(tree_of(node)));
    }
}

} // verus!
