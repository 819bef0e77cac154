//! Decisions of the UI that need no layout arithmetic: the order in which it
//! visits its component tree (depth first, each node before its children,
//! the children of a node in their order), and how a button answers pointer
//! events once the caller has told whether they landed inside it.
//!
//! The tree itself (a layout tree of the layout crate) stays with the caller:
//! after visiting a node, the caller hands the walk that node's children, and
//! the walk says which node comes next and under which ancestor it sits.

use vstd::prelude::*;

verus! {

/// The children of a visited node, and how many of them were handed out.
struct Level {
    children: Vec<u64>,
    next: usize,
}

/// The children of a level that were not handed out yet.
spec fn pending_of(level: Level) -> Seq<u64> {
    if level.next <= level.children@.len() {
        level.children@.skip(level.next as int)
    } else {
        Seq::empty()
    }
}

/// A depth-first walk over a tree of node ids.
///
/// Its view lists, for each node on the path from the root's children down to
/// the last visited node, the children of that node still to be visited:
/// the first entry belongs to the node the walk was started from.
pub struct TreeWalk {
    levels: Vec<Level>,
}

impl View for TreeWalk {
    type V = Seq<Seq<u64>>;

    closed spec fn view(&self) -> Seq<Seq<u64>> {
        Seq::new(self.levels@.len(), |i: int| pending_of(self.levels@[i]))
    }
}

/// The levels that still matter: those on top with nothing left are dropped.
pub open spec fn trim(levels: Seq<Seq<u64>>) -> Seq<Seq<u64>>
    decreases levels.len(),
{
    if levels.len() == 0 {
        levels
    } else if levels.last().len() == 0 {
        trim(levels.drop_last())
    } else {
        levels
    }
}

/// How many nodes the walk will still hand out before the caller adds more.
pub open spec fn pending_count(levels: Seq<Seq<u64>>) -> nat
    decreases levels.len(),
{
    if levels.len() == 0 {
        0
    } else {
        pending_count(levels.drop_last()) + levels.last().len()
    }
}

/// The levels after the next node is handed out, given the trimmed levels
/// before: the deepest level loses its first node.
pub open spec fn after_next(trimmed: Seq<Seq<u64>>) -> Seq<Seq<u64>> {
    trimmed.update(trimmed.len() - 1, trimmed.last().drop_first())
}

proof fn lemma_trim_shape(levels: Seq<Seq<u64>>)
    ensures
        trim(levels).len() <= levels.len(),
        trim(levels).len() > 0 ==> trim(levels).last().len() > 0,
        forall|i: int| 0 <= i < trim(levels).len() ==> #[trigger] trim(levels)[i] == levels[i],
        pending_count(trim(levels)) == pending_count(levels),
    decreases levels.len(),
{
    if levels.len() > 0 && levels.last().len() == 0 {
        lemma_trim_shape(levels.drop_last());
    }
}

proof fn lemma_pending_update(levels: Seq<Seq<u64>>, s: Seq<u64>)
    requires
        levels.len() > 0,
    ensures
        pending_count(levels.update(levels.len() - 1, s)) + levels.last().len() == pending_count(
            levels,
        ) + s.len(),
{
    assert(levels.update(levels.len() - 1, s).drop_last() =~= levels.drop_last());
}

impl TreeWalk {
    /// Starts a walk below a node whose children are `children`.
    pub fn new(children: Vec<u64>) -> (res: Self)
        ensures
            res@ == seq![children@],
    {
        let mut levels: Vec<Level> = Vec::new();
        levels.push(Level { children, next: 0 });
        let res = TreeWalk { levels };
        proof {
            assert(pending_of(res.levels@[0]) =~= children@);
            assert(res@ =~= seq![children@]);
        }
        res
    }

    /// Hands out the next node to visit, with the number of its ancestors
    /// below the starting node (0 for a child of the starting node), or
    /// `None` once every node handed to the walk was visited.
    pub fn next(&mut self) -> (res: Option<(u64, usize)>)
        ensures
            trim(old(self)@).len() == 0 <==> res is None,
            res is None ==> final(self)@ == Seq::<Seq<u64>>::empty(),
            res matches Some((node, depth)) ==> {
                let t = trim(old(self)@);
                &&& depth == t.len() - 1
                &&& node == t.last()[0]
                &&& final(self)@ == after_next(t)
            },
    {
        loop
            invariant
                trim(self@) == trim(old(self)@),
            decreases self.levels@.len(),
        {
            let ghost before = self@;
            match self.levels.pop() {
                None => {
                    proof {
                        assert(before =~= Seq::<Seq<u64>>::empty());
                        assert(self@ =~= Seq::<Seq<u64>>::empty());
                    }
                    return None;
                },
                Some(level) => {
                    proof {
                        assert(self@ =~= before.drop_last());
                        assert(before.last() == pending_of(level));
                    }
                    if level.next < level.children.len() {
                        let node = level.children[level.next];
                        let depth = self.levels.len();
                        let Level { children, next } = level;
                        let ghost rest = pending_of(Level { children, next });
                        self.levels.push(Level { children, next: next + 1 });
                        proof {
                            assert(trim(before) == before);
                            assert(rest[0] == node);
                            assert(pending_of(self.levels@[depth as int]) =~= rest.drop_first());
                            assert(self@ =~= after_next(before));
                        }
                        return Some((node, depth));
                    } else {
                        proof {
                            assert(before.last() =~= Seq::<u64>::empty());
                            assert(trim(before) == trim(before.drop_last()));
                        }
                    }
                },
            }
        }
    }

    /// Records the children of the node just visited, to be visited before
    /// anything that was pending.
    pub fn descend(&mut self, children: Vec<u64>)
        ensures
            final(self)@ == old(self)@.push(children@),
    {
        let ghost before = self@;
        self.levels.push(Level { children, next: 0 });
        proof {
            let n = before.len() as int;
            assert(pending_of(self.levels@[n]) =~= children@);
            assert(self@ =~= before.push(children@));
        }
    }
}

/// After a node with children is visited and its children handed to the
/// walk, the next node visited is its first child, one level deeper: a node
/// comes right before its children.
pub proof fn law_children_come_next(levels: Seq<Seq<u64>>, children: Seq<u64>)
    requires
        children.len() > 0,
    ensures
        trim(levels.push(children)).len() == levels.len() + 1,
        trim(levels.push(children)).last()[0] == children[0],
        after_next(trim(levels.push(children))) == levels.push(children.drop_first()),
{
    assert(levels.push(children).last() == children);
    assert(levels.push(children).update(levels.len() as int, children.drop_first()) =~= levels.push(
        children.drop_first(),
    ));
}

/// After a node without children is visited, the next node is its next
/// sibling, when it has one: siblings are visited in their order.
pub proof fn law_siblings_in_order(levels: Seq<Seq<u64>>)
    requires
        trim(levels).len() > 0,
        trim(levels).last().len() > 1,
    ensures
        trim(after_next(trim(levels)).push(Seq::empty())) == after_next(trim(levels)),
        after_next(trim(levels)).last()[0] == trim(levels).last()[1],
        after_next(trim(levels)).len() == trim(levels).len(),
{
    let a = after_next(trim(levels));
    let p = a.push(Seq::<u64>::empty());
    assert(p.drop_last() =~= a);
    assert(a.last() == trim(levels).last().drop_first());
    assert(trim(a) == a);
    assert(trim(p) == trim(a));
}

/// Each node handed out uses up one pending node, so a walk fed a finite
/// tree ends.
pub proof fn law_each_step_uses_one(levels: Seq<Seq<u64>>)
    requires
        trim(levels).len() > 0,
    ensures
        pending_count(after_next(trim(levels))) + 1 == pending_count(levels),
{
    lemma_trim_shape(levels);
    let t = trim(levels);
    lemma_pending_update(t, t.last().drop_first());
}

/// A walk with nothing pending hands out nothing.
pub proof fn law_nothing_pending_ends(levels: Seq<Seq<u64>>)
    requires
        pending_count(levels) == 0,
    ensures
        trim(levels).len() == 0,
    decreases levels.len(),
{
    if levels.len() > 0 {
        law_nothing_pending_ends(levels.drop_last());
    }
}

/// A tree of node ids, given by the children of each node, is finite when
/// each child has a smaller rank than its parent.
pub open spec fn ranked(kids: spec_fn(u64) -> Seq<u64>, rank: spec_fn(u64) -> nat) -> bool {
    forall|n: u64, i: int| 0 <= i < kids(n).len() ==> #[trigger] rank(kids(n)[i]) < rank(n)
}

/// The nodes of the tree under `node`, node first, then the trees of its
/// children in their order (depth first, pre-order).
pub open spec fn preorder(kids: spec_fn(u64) -> Seq<u64>, rank: spec_fn(u64) -> nat, node: u64) -> Seq<u64>
    decreases rank(node), 1nat, 0nat,
{
    seq![node] + forest(kids, rank, kids(node), rank(node))
}

/// The trees of `nodes` in their order, each in pre-order; a node whose rank
/// is not below `bound` ends the list.
pub open spec fn forest(
    kids: spec_fn(u64) -> Seq<u64>,
    rank: spec_fn(u64) -> nat,
    nodes: Seq<u64>,
    bound: nat,
) -> Seq<u64>
    decreases bound, 0nat, nodes.len(),
{
    if nodes.len() == 0 {
        Seq::empty()
    } else if rank(nodes[0]) < bound {
        preorder(kids, rank, nodes[0]) + forest(kids, rank, nodes.drop_first(), bound)
    } else {
        Seq::empty()
    }
}

/// The trees of `nodes` in their order, each in pre-order.
pub open spec fn trees(kids: spec_fn(u64) -> Seq<u64>, rank: spec_fn(u64) -> nat, nodes: Seq<u64>) -> Seq<u64>
    decreases nodes.len(),
{
    if nodes.len() == 0 {
        Seq::empty()
    } else {
        preorder(kids, rank, nodes[0]) + trees(kids, rank, nodes.drop_first())
    }
}

/// The nodes a walk still hands out when fed the children of every node it
/// hands out: the trees of the deepest level's pending nodes first, then
/// those of the levels below.
pub open spec fn remaining(
    kids: spec_fn(u64) -> Seq<u64>,
    rank: spec_fn(u64) -> nat,
    levels: Seq<Seq<u64>>,
) -> Seq<u64>
    decreases levels.len(),
{
    if levels.len() == 0 {
        Seq::empty()
    } else {
        trees(kids, rank, levels.last()) + remaining(kids, rank, levels.drop_last())
    }
}

proof fn lemma_forest_is_trees(
    kids: spec_fn(u64) -> Seq<u64>,
    rank: spec_fn(u64) -> nat,
    nodes: Seq<u64>,
    bound: nat,
)
    requires
        forall|i: int| 0 <= i < nodes.len() ==> #[trigger] rank(nodes[i]) < bound,
    ensures
        forest(kids, rank, nodes, bound) == trees(kids, rank, nodes),
    decreases nodes.len(),
{
    if nodes.len() > 0 {
        assert(rank(nodes[0]) < bound);
        let rest = nodes.drop_first();
        assert forall|i: int| 0 <= i < rest.len() implies #[trigger] rank(rest[i]) < bound by {
            assert(rest[i] == nodes[i + 1]);
            assert(rank(nodes[i + 1]) < bound);
        }
        lemma_forest_is_trees(kids, rank, rest, bound);
    }
}

proof fn lemma_preorder_unfold(kids: spec_fn(u64) -> Seq<u64>, rank: spec_fn(u64) -> nat, node: u64)
    requires
        ranked(kids, rank),
    ensures
        preorder(kids, rank, node) == seq![node] + trees(kids, rank, kids(node)),
{
    let ks = kids(node);
    assert forall|i: int| 0 <= i < ks.len() implies #[trigger] rank(ks[i]) < rank(node) by {
        assert(rank(kids(node)[i]) < rank(node));
    }
    lemma_forest_is_trees(kids, rank, ks, rank(node));
}

proof fn lemma_remaining_trim(
    kids: spec_fn(u64) -> Seq<u64>,
    rank: spec_fn(u64) -> nat,
    levels: Seq<Seq<u64>>,
)
    ensures
        remaining(kids, rank, trim(levels)) == remaining(kids, rank, levels),
    decreases levels.len(),
{
    if levels.len() > 0 && levels.last().len() == 0 {
        lemma_remaining_trim(kids, rank, levels.drop_last());
        assert(trees(kids, rank, levels.last()) =~= Seq::<u64>::empty());
        assert(remaining(kids, rank, levels) =~= remaining(kids, rank, levels.drop_last()));
    }
}

/// Started below `root` right after `root` is visited, a walk has the rest of
/// the tree under `root` to hand out, in pre-order.
pub proof fn law_walk_starts_at_root(kids: spec_fn(u64) -> Seq<u64>, rank: spec_fn(u64) -> nat, root: u64)
    requires
        ranked(kids, rank),
    ensures
        seq![root] + remaining(kids, rank, seq![kids(root)]) == preorder(kids, rank, root),
{
    let levels = seq![kids(root)];
    assert(levels.drop_last() =~= Seq::<Seq<u64>>::empty());
    assert(remaining(kids, rank, Seq::<Seq<u64>>::empty()) == Seq::<u64>::empty());
    assert(levels.last() == kids(root));
    assert(remaining(kids, rank, levels) =~= trees(kids, rank, kids(root)));
    lemma_preorder_unfold(kids, rank, root);
}

/// Handing out the next node and then the children of that node keeps the
/// walk in pre-order: what was left to hand out is that node followed by
/// what is left after it. Together with the start and the end below, a walk
/// fed the children of each node it hands out visits the tree in pre-order.
pub proof fn law_walk_steps_in_preorder(
    kids: spec_fn(u64) -> Seq<u64>,
    rank: spec_fn(u64) -> nat,
    levels: Seq<Seq<u64>>,
)
    requires
        ranked(kids, rank),
        trim(levels).len() > 0,
    ensures
        remaining(kids, rank, levels) == seq![trim(levels).last()[0]] + remaining(
            kids,
            rank,
            after_next(trim(levels)).push(kids(trim(levels).last()[0])),
        ),
{
    lemma_trim_shape(levels);
    lemma_remaining_trim(kids, rank, levels);
    let t = trim(levels);
    let last = t.last();
    let n = last[0];
    let a = after_next(t);
    let p = a.push(kids(n));
    lemma_preorder_unfold(kids, rank, n);
    assert(a.last() == last.drop_first());
    assert(a.drop_last() =~= t.drop_last());
    assert(p.last() == kids(n));
    assert(p.drop_last() =~= a);
    assert(trees(kids, rank, last) == preorder(kids, rank, n) + trees(kids, rank, last.drop_first()));
    assert(remaining(kids, rank, t) == trees(kids, rank, last) + remaining(kids, rank, t.drop_last()));
    assert(remaining(kids, rank, a) == trees(kids, rank, last.drop_first()) + remaining(
        kids,
        rank,
        t.drop_last(),
    ));
    assert(remaining(kids, rank, p) == trees(kids, rank, kids(n)) + remaining(kids, rank, a));
    assert(remaining(kids, rank, t) =~= seq![n] + remaining(kids, rank, p));
}

/// A walk with nothing left at any level has nothing left to hand out.
pub proof fn law_walk_ends_empty(
    kids: spec_fn(u64) -> Seq<u64>,
    rank: spec_fn(u64) -> nat,
    levels: Seq<Seq<u64>>,
)
    requires
        trim(levels).len() == 0,
    ensures
        remaining(kids, rank, levels) == Seq::<u64>::empty(),
{
    lemma_remaining_trim(kids, rank, levels);
}

/// A pointer event as a button sees it: whether it landed inside the button.
#[derive(Clone, Copy, PartialEq, Eq, Debug, Structural)]
pub enum PointerEvent {
    /// A mouse button went down.
    Down { inside: bool },
    /// A mouse button went up.
    Up { inside: bool },
    /// Anything else.
    Other,
}

/// What a button does with an event, given whether it is held down: a press
/// inside holds it down, a release inside clicks it, and any release lets it
/// go. Gives whether it is held down after, and whether it was clicked.
pub open spec fn button_response(is_down: bool, event: PointerEvent) -> (bool, bool) {
    match event {
        PointerEvent::Down { inside } => (is_down || inside, false),
        PointerEvent::Up { inside } => (false, inside),
        PointerEvent::Other => (is_down, false),
    }
}

/// Decides a button's answer to an event, given whether it is held down.
pub fn button_step(is_down: bool, event: PointerEvent) -> (res: (bool, bool))
    ensures
        res == button_response(is_down, event),
{
    match event {
        PointerEvent::Down { inside } => (is_down || inside, false),
        PointerEvent::Up { inside } => (false, inside),
        PointerEvent::Other => (is_down, false),
    }
}

/// A button is clicked only by a release, and by every release that lands
/// inside it, whether or not it was held down; nothing else clicks it.
pub proof fn law_click_is_release_inside(is_down: bool, event: PointerEvent)
    ensures
        button_response(is_down, event).1 <==> event == (PointerEvent::Up { inside: true }),
        button_response(is_down, PointerEvent::Up { inside: true }).1,
        !button_response(is_down, PointerEvent::Up { inside: false }).1,
{
}

/// Any release lets the button go, inside or outside it.
pub proof fn law_release_lets_go(is_down: bool, inside: bool)
    ensures
        !button_response(is_down, PointerEvent::Up { inside }).0,
{
}

/// A press inside holds the button down; a press outside, and any event
/// that is neither a press nor a release, leave it as it was.
pub proof fn law_press_inside_holds(is_down: bool, inside: bool)
    ensures
        button_response(is_down, PointerEvent::Down { inside: true }).0,
        button_response(is_down, PointerEvent::Down { inside: false }).0 == is_down,
        button_response(is_down, PointerEvent::Other).0 == is_down,
{
}

} // verus!
