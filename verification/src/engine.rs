//! A light Monte-Carlo tree search: an arena of nodes, descent by score, expansion,
//! random rollouts and the update of the statistics along the walked path.

use vstd::prelude::*;
use crate::board::Bughouse;
use crate::chance::choose_move;
use crate::types::{Color, Move, Outcome};

verus! {

/// The place of a node in the arena.
#[derive(Clone, Copy, Debug, PartialEq, Eq, Structural)]
pub struct NodeId(pub usize);

/// A position that the search has reached.
#[derive(Debug)]
pub struct Node {
    /// The side whose move led here.
    pub side_that_moved: Color,
    pub position: Bughouse,
    /// Twice the win score: a won rollout counts two, a drawn one counts one.
    pub wins_doubled: u64,
    /// The number of rollouts that went through this node.
    pub simulations: u64,
    pub children: Vec<NodeId>,
}

/// The search tree: nodes are only ever appended, so an id stays good for ever.
#[derive(Debug)]
pub struct Tree {
    nodes: Vec<Node>,
}

/// What a rollout that ended in `outcome` adds to the doubled win score of a node
/// reached by a move of `side`: two for a win of that side, one for a draw, nothing
/// for a loss.
pub open spec fn reward(side: Color, outcome: Outcome) -> u64 {
    match outcome {
        Outcome::Decisive { winner } => if winner == side {
            2
        } else {
            0
        },
        Outcome::Draw => 1,
    }
}

impl Node {
    /// The node after one more rollout that ended in `outcome`.
    pub open spec fn credited(self, outcome: Outcome) -> Node {
        Node {
            simulations: (self.simulations + 1) as u64,
            wins_doubled: (self.wins_doubled + reward(self.side_that_moved, outcome)) as u64,
            ..self
        }
    }

    /// Whether the statistics have room for one more rollout.
    pub open spec fn has_room(self) -> bool {
        self.simulations < u64::MAX && self.wins_doubled <= u64::MAX - 2
    }
}

/// Whether the node at place `i` is one of `branch`.
pub open spec fn on_branch(branch: Seq<NodeId>, i: int) -> bool {
    exists|k: int| 0 <= k < branch.len() && #[trigger] branch[k].0 == i
}

/// The ids `first`, `first + 1`, ... of `n` nodes added in a row.
pub open spec fn fresh_ids(first: nat, n: nat) -> Seq<NodeId> {
    Seq::new(n, |i: int| NodeId((first + i) as usize))
}

/// Whether `after` is `before` with one child added for every legal move at `leaf`,
/// in the order of the moves: the position after the move, reached by the other
/// side, without statistics and without children; the ids of the added nodes are
/// recorded behind the children that `leaf` had, and nothing else differs.
pub open spec fn expanded(before: Seq<Node>, after: Seq<Node>, leaf: NodeId) -> bool {
    let parent = before[leaf.0 as int];
    let grown = after[leaf.0 as int];
    let moves = parent.position.legal_moves_spec();
    let first = before.len();
    &&& after.len() == first + moves.len()
    &&& forall|i: int| 0 <= i < first && i != leaf.0 ==> #[trigger] after[i] == before[i]
    &&& grown.children@ == parent.children@ + fresh_ids(first, moves.len())
    &&& grown.position == parent.position
    &&& grown.side_that_moved == parent.side_that_moved
    &&& grown.wins_doubled == parent.wins_doubled
    &&& grown.simulations == parent.simulations
    &&& forall|i: int|
        0 <= i < moves.len() ==> {
            let child = #[trigger] after[first + i];
            &&& child.position == parent.position.after(moves[i])
            &&& child.side_that_moved == parent.side_that_moved.opposite()
            &&& child.wins_doubled == 0
            &&& child.simulations == 0
            &&& child.children@.len() == 0
        }
}

/// Whether `after` is `before` with a rollout that ended in `outcome` credited to
/// every node of `branch` and to no other.
pub open spec fn credited_along(
    before: Seq<Node>,
    after: Seq<Node>,
    branch: Seq<NodeId>,
    outcome: Outcome,
) -> bool {
    &&& after.len() == before.len()
    &&& forall|i: int|
        0 <= i < before.len() ==> #[trigger] after[i] == if on_branch(branch, i) {
            before[i].credited(outcome)
        } else {
            before[i]
        }
}

/// No node is the child of two nodes or twice the child of one.
#[verifier::opaque]
pub open spec fn no_shared_children(nodes: Seq<Node>) -> bool {
    forall|i: int, k: int, j: int, l: int|
        0 <= i < nodes.len() && 0 <= k < nodes[i].children@.len() && 0 <= j < nodes.len() && 0 <= l
            < nodes[j].children@.len() && #[trigger] nodes[i].children@[k]
            == #[trigger] nodes[j].children@[l] ==> i == j && k == l
}

/// After an expansion every node of the walked path has room for one more rollout
/// if every node had before, and no node occurs twice on the path.
pub proof fn lemma_walked_path(
    before: Seq<Node>,
    grown: Seq<Node>,
    descent: Seq<NodeId>,
)
    requires
        descent.len() > 0,
        grown.len() <= usize::MAX,
        forall|i: int| 0 <= i < descent.len() ==> (#[trigger] descent[i]).0 < before.len(),
        forall|i: int, j: int| 0 <= i < j < descent.len() ==> descent[i].0 < descent[j].0,
        forall|i: int| 0 <= i < before.len() ==> (#[trigger] before[i]).has_room(),
        expanded(before, grown, descent.last()),
    ensures
        ({
            let path = walked(descent, before.len(), grown.len());
            &&& forall|k: int|
                0 <= k < path.len() ==> (#[trigger] path[k]).0 < grown.len() && grown[path[k].0 as int].has_room()
            &&& forall|i: int, j: int| 0 <= i < j < path.len() ==> path[i] != path[j]
        }),
{
    let path = walked(descent, before.len(), grown.len());
    let leaf = descent.last();
    assert forall|k: int| 0 <= k < path.len() implies (#[trigger] path[k]).0 < grown.len()
        && grown[path[k].0 as int].has_room() by {
        if k < descent.len() {
            let id = descent[k];
            assert(path[k] == id);
            assert(before[id.0 as int].has_room());
            if id.0 != leaf.0 {
                assert(grown[id.0 as int] == before[id.0 as int]);
            }
        } else {
            let child = grown[before.len() as int + 0];
            assert(child.simulations == 0);
        }
    }
    assert forall|i: int, j: int| 0 <= i < j < path.len() implies path[i] != path[j] by {
        if j < descent.len() {
            assert(descent[i].0 < descent[j].0);
        } else {
            assert(descent[i].0 < before.len());
            assert(path[j].0 == before.len());
        }
    }
}

/// The expansion leaves the statistics of the first node of the descent as they
/// were, and the credit of a rollout along the walked path adds one simulation to it.
pub proof fn lemma_root_credit(
    before: Seq<Node>,
    grown: Seq<Node>,
    after: Seq<Node>,
    descent: Seq<NodeId>,
    outcome: Outcome,
)
    requires
        descent.len() > 0,
        grown.len() <= usize::MAX,
        forall|i: int| 0 <= i < descent.len() ==> (#[trigger] descent[i]).0 < before.len(),
        before[descent[0].0 as int].has_room(),
        expanded(before, grown, descent.last()),
    ensures
        grown[descent[0].0 as int].simulations == before[descent[0].0 as int].simulations,
        credited_along(grown, after, walked(descent, before.len(), grown.len()), outcome)
            ==> after[descent[0].0 as int].simulations == before[descent[0].0 as int].simulations
            + 1,
{
    let root = descent[0];
    let path = walked(descent, before.len(), grown.len());
    assert(root.0 < before.len());
    if root.0 != descent.last().0 {
        assert(grown[root.0 as int] == before[root.0 as int]);
    }
    assert(path[0] == root);
    assert(on_branch(path, root.0 as int));
}

/// The path of one search iteration: the descent `branch`, and behind it the first
/// of the nodes that the expansion added, where it added any (they begin at `first`
/// and end before `len`).
pub open spec fn walked(branch: Seq<NodeId>, first: nat, len: nat) -> Seq<NodeId> {
    if len > first {
        branch.push(NodeId(first as usize))
    } else {
        branch
    }
}

/// After the expansion of a node without children, the node has one child for every
/// legal move at its position, in the order of the moves, and the `i`th child holds
/// the position after the `i`th move.
pub proof fn lemma_expanded_leaf(before: Seq<Node>, after: Seq<Node>, leaf: NodeId)
    requires
        leaf.0 < before.len(),
        after.len() <= usize::MAX,
        before[leaf.0 as int].children@.len() == 0,
        expanded(before, after, leaf),
    ensures
        ({
            let parent = before[leaf.0 as int];
            let moves = parent.position.legal_moves_spec();
            let children = after[leaf.0 as int].children@;
            &&& children.len() == moves.len()
            &&& forall|i: int|
                0 <= i < moves.len() ==> (#[trigger] children[i]).0 == before.len() + i
                    && after[children[i].0 as int].position == parent.position.after(moves[i])
        }),
{
    let parent = before[leaf.0 as int];
    let moves = parent.position.legal_moves_spec();
    let children = after[leaf.0 as int].children@;
    let added = fresh_ids(before.len(), moves.len());
    assert(children =~= added);
    assert forall|i: int| 0 <= i < moves.len() implies (#[trigger] children[i]).0 == before.len()
        + i && after[children[i].0 as int].position == parent.position.after(moves[i]) by {
        assert(children[i] == added[i]);
        let child = after[before.len() + i];
    }
}

/// A credited node has exactly one more simulation, and its doubled win score has
/// grown by two after a win of the side that moved to it, by one after a draw and
/// not at all after a loss.
pub proof fn lemma_credited(node: Node, outcome: Outcome)
    requires
        node.has_room(),
    ensures
        node.credited(outcome).simulations == node.simulations + 1,
        node.credited(outcome).wins_doubled == node.wins_doubled + match outcome {
            Outcome::Decisive { winner } => if winner == node.side_that_moved {
                2int
            } else {
                0int
            },
            Outcome::Draw => 1int,
        },
        node.credited(outcome).side_that_moved == node.side_that_moved,
        node.credited(outcome).position == node.position,
        node.credited(outcome).children == node.children,
{
}

/// How a rollout ended: with the outcome of a finished game, or with the position
/// at which it ran out of moves to spend.
#[derive(Debug)]
pub enum Rollout {
    Finished(Outcome),
    Unfinished(Bughouse),
}

/// Whether `n` legal moves lead from `from` to `to`.
pub open spec fn reaches(from: Bughouse, to: Bughouse, n: nat) -> bool
    decreases n,
{
    if n == 0 {
        from == to
    } else {
        exists|mid: Bughouse, m: Move|
            reaches(from, mid, (n - 1) as nat) && #[trigger] mid.legal_moves_spec().contains(m)
                && to == mid.after(m)
    }
}

/// The rollout in which the `i`th move played is the legal move numbered
/// `picks[i]` modulo the number of legal moves.
pub open spec fn rollout_spec(position: Bughouse, picks: Seq<usize>) -> Rollout
    decreases picks.len(),
{
    let moves = position.legal_moves_spec();
    if moves.len() == 0 {
        Rollout::Finished(position.outcome_spec().unwrap())
    } else if picks.len() == 0 {
        Rollout::Unfinished(position)
    } else {
        rollout_spec(position.after(moves[picks[0] as int % moves.len() as int]), picks.skip(1))
    }
}

/// Plays the moves that `picks` names until no legal move is left or `picks` is used up.
pub fn rollout(position: Bughouse, picks: &Vec<usize>) -> (r: Rollout)
    requires
        position.wf(),
    ensures
        r == rollout_spec(position, picks@),
        r matches Rollout::Unfinished(end) ==> end.wf() && end.legal_moves_spec().len() > 0,
{
    let mut current = position;
    let mut i: usize = 0;
    proof {
        assert(picks@.skip(0) =~= picks@);
    }
    loop
        invariant
            current.wf(),
            i <= picks@.len(),
            rollout_spec(position, picks@) == rollout_spec(current, picks@.skip(i as int)),
        decreases picks@.len() - i,
    {
        let moves = current.legal_moves();
        if moves.len() == 0 {
            let outcome = current.outcome();
            return Rollout::Finished(outcome.unwrap());
        }
        if i >= picks.len() {
            return Rollout::Unfinished(current);
        }
        let m = moves[picks[i] % moves.len()];
        proof {
            assert(picks@.skip(i as int)[0] == picks@[i as int]);
            assert(picks@.skip(i as int).skip(1) =~= picks@.skip(i + 1));
        }
        current.play_unchecked(&m);
        i = i + 1;
    }
}

/// Plays legal moves chosen at random until no legal move is left, and gives the
/// outcome of the game. Where the game is not over after `max_plies` moves, it
/// gives the position reached instead.
pub fn simulate(position: Bughouse, max_plies: u64) -> (r: Rollout)
    requires
        position.wf(),
    ensures
        match r {
            Rollout::Finished(outcome) => exists|end: Bughouse, n: nat|
                n <= max_plies && #[trigger] reaches(position, end, n) && end.outcome_spec()
                    == Some(outcome),
            Rollout::Unfinished(end) => reaches(position, end, max_plies as nat) && end.wf()
                && end.legal_moves_spec().len() > 0,
        },
        position.legal_moves_spec().len() == 0 ==> (r matches Rollout::Finished(outcome)
            && Some(outcome) == position.outcome_spec()),
{
    let mut current = position;
    let mut played: u64 = 0;
    loop
        invariant
            current.wf(),
            played <= max_plies,
            reaches(position, current, played as nat),
            played == 0 ==> current == position,
            played > 0 ==> position.legal_moves_spec().len() > 0,
        decreases max_plies - played,
    {
        let moves = current.legal_moves();
        match choose_move(&moves) {
            Some(m) => {
                if played == max_plies {
                    return Rollout::Unfinished(current);
                }
                let ghost mid = current;
                proof {
                    let k = choose|k: int| 0 <= k < moves@.len() && moves@[k] == m;
                    assert(current.playable(moves@[k]));
                }
                current.play_unchecked(&m);
                played = played + 1;
                proof {
                    assert(reaches(position, mid, (played - 1) as nat) && mid.legal_moves_spec().contains(
                        m,
                    ) && current == mid.after(m));
                }
            },
            None => {
                let outcome = current.outcome();
                return Rollout::Finished(outcome.unwrap());
            },
        }
    }
}

/// The rank of a node that no rollout has visited: above every score.
pub open spec fn unvisited_rank() -> int {
    u32::MAX as int + 1
}

impl Tree {
    /// The nodes in the order in which they were added.
    pub closed spec fn view(self) -> Seq<Node> {
        self.nodes@
    }

    /// Whether `id` names a node of the tree.
    pub open spec fn has(self, id: NodeId) -> bool {
        id.0 < self@.len()
    }

    /// The node that `id` names.
    pub open spec fn at(self, id: NodeId) -> Node {
        self@[id.0 as int]
    }

    /// The children of the node that `id` names.
    pub open spec fn children(self, id: NodeId) -> Seq<NodeId> {
        self.at(id).children@
    }

    /// Every child was added after its parent, no node is the child of two nodes or
    /// twice the child of one, and every position is well-formed.
    pub open spec fn wf(self) -> bool {
        &&& forall|i: int, k: int|
            0 <= i < self@.len() && 0 <= k < self@[i].children@.len() ==> i < (
            #[trigger] self@[i].children@[k]).0 < self@.len()
        &&& no_shared_children(self@)
        &&& forall|i: int| 0 <= i < self@.len() ==> (#[trigger] self@[i]).position.wf()
    }

    /// What decides between children: an unvisited child ranks above every visited
    /// one, and a visited child ranks by the score that the caller gives for it.
    pub open spec fn rank(self, scores: Seq<u32>, child: NodeId) -> int {
        if self.at(child).simulations == 0 {
            unvisited_rank()
        } else {
            scores[child.0 as int] as int
        }
    }

    /// Whether the `k`th child of `id` is the first among those of the highest rank.
    pub open spec fn is_best(self, scores: Seq<u32>, id: NodeId, k: int) -> bool {
        let children = self.children(id);
        &&& 0 <= k < children.len()
        &&& forall|j: int|
            0 <= j < children.len() ==> self.rank(scores, #[trigger] children[j]) <= self.rank(
                scores,
                children[k],
            )
        &&& forall|j: int|
            0 <= j < k ==> self.rank(scores, #[trigger] children[j]) < self.rank(
                scores,
                children[k],
            )
    }

    /// The child to descend to: the first among the children of the highest rank, and
    /// none for a node without children.
    pub open spec fn next(self, scores: Seq<u32>, id: NodeId) -> Option<NodeId> {
        if self.children(id).len() == 0 {
            None
        } else {
            Some(self.children(id)[choose|k: int| self.is_best(scores, id, k)])
        }
    }

    /// Whether `branch` is the descent from its first node: each step goes to the
    /// child that `next` names, and the last node has no children.
    pub open spec fn is_descent(self, scores: Seq<u32>, branch: Seq<NodeId>) -> bool {
        &&& branch.len() > 0
        &&& forall|i: int| 0 <= i < branch.len() ==> self.has(#[trigger] branch[i])
        &&& forall|i: int|
            0 <= i < branch.len() - 1 ==> self.next(scores, #[trigger] branch[i]) == Some(
                branch[i + 1],
            )
        &&& self.next(scores, branch.last()) is None
    }

    /// A tree of one node: the root, reached by a move of `side_that_moved`.
    pub fn new(position: Bughouse, side_that_moved: Color) -> (tree: Tree)
        requires
            position.wf(),
        ensures
            tree.wf(),
            tree@.len() == 1,
            tree@[0].position == position,
            tree@[0].side_that_moved == side_that_moved,
            tree@[0].wins_doubled == 0,
            tree@[0].simulations == 0,
            tree@[0].children@.len() == 0,
    {
        let mut nodes = Vec::new();
        nodes.push(
            Node { side_that_moved, position, wins_doubled: 0, simulations: 0, children: Vec::new() },
        );
        proof {
            reveal(no_shared_children);
        }
        Tree { nodes }
    }

    /// The number of nodes.
    pub fn len(&self) -> (n: usize)
        ensures
            n == self@.len(),
    {
        self.nodes.len()
    }

    /// The node that `id` names.
    pub fn index(&self, id: NodeId) -> (node: &Node)
        requires
            self.has(id),
        ensures
            *node == self.at(id),
    {
        &self.nodes[id.0]
    }

    /// Appends a node and returns its id. A node that comes without children and
    /// with a well-formed position leaves the tree well-formed.
    pub fn push_node(&mut self, node: Node) -> (id: NodeId)
        ensures
            id.0 == old(self)@.len(),
            final(self)@ == old(self)@.push(node),
            old(self).wf() && node.children@.len() == 0 && node.position.wf() ==> final(self).wf(),
    {
        let idx = self.nodes.len();
        self.nodes.push(node);
        proof {
            reveal(no_shared_children);
            if old(self).wf() && node.children@.len() == 0 && node.position.wf() {
                let before = old(self)@;
                let now = self@;
                assert forall|i: int, k: int|
                    0 <= i < now.len() && 0 <= k < now[i].children@.len() implies i < (
                #[trigger] now[i].children@[k]).0 < now.len() by {
                    assert(now[i] == before[i]);
                }
                assert forall|i: int| 0 <= i < now.len() implies (#[trigger] now[i]).position.wf() by {
                    if i < before.len() {
                        assert(now[i] == before[i]);
                    }
                }
                assert forall|i: int, k: int, j: int, l: int|
                    0 <= i < now.len() && 0 <= k < now[i].children@.len() && 0 <= j < now.len() && 0
                        <= l < now[j].children@.len() && #[trigger] now[i].children@[k]
                        == #[trigger] now[j].children@[l] implies i == j && k == l by {
                    assert(now[i] == before[i]);
                    assert(now[j] == before[j]);
                }
            }
        }
        NodeId(idx)
    }

    /// Only one child is the first among those of the highest rank.
    pub proof fn lemma_best_is_unique(self, scores: Seq<u32>, id: NodeId, a: int, b: int)
        requires
            self.is_best(scores, id, a),
            self.is_best(scores, id, b),
        ensures
            a == b,
    {
        let children = self.children(id);
        if a < b {
            assert(self.rank(scores, children[a]) < self.rank(scores, children[b]));
            assert(self.rank(scores, children[b]) <= self.rank(scores, children[a]));
        } else if b < a {
            assert(self.rank(scores, children[b]) < self.rank(scores, children[a]));
            assert(self.rank(scores, children[a]) <= self.rank(scores, children[b]));
        }
    }

    /// Among the children of `node_id`, the first of those with the highest rank; none
    /// for a node without children. `scores[i]` is the caller's score for node `i` and
    /// counts only once node `i` has been visited.
    pub fn select_next(&self, node_id: NodeId, scores: &Vec<u32>) -> (r: Option<NodeId>)
        requires
            self.wf(),
            self.has(node_id),
            scores@.len() == self@.len(),
        ensures
            r == self.next(scores@, node_id),
            r is None <==> self.children(node_id).len() == 0,
            r is Some ==> exists|k: int| #[trigger]
                self.is_best(scores@, node_id, k) && r == Some(self.children(node_id)[k]),
            r is Some ==> self.has(r.unwrap()) && r.unwrap().0 > node_id.0 && self.children(
                node_id,
            ).contains(r.unwrap()),
            (exists|k: int|
                0 <= k < self.children(node_id).len() && self.at(
                    #[trigger] self.children(node_id)[k],
                ).simulations == 0) ==> r is Some && self.at(r.unwrap()).simulations == 0,
    {
        let node = &self.nodes[node_id.0];
        if node.children.len() == 0 {
            return None;
        }
        let ghost children = node.children@;
        let mut best: usize = 0;
        let mut best_rank: u64 = self.rank_of(node.children[0], scores);
        let mut k: usize = 1;
        while k < node.children.len()
            invariant
                self.wf(),
                self.has(node_id),
                scores@.len() == self@.len(),
                *node == self.at(node_id),
                children == node.children@,
                1 <= k <= children.len(),
                best < k,
                best_rank == self.rank(scores@, children[best as int]),
                forall|j: int|
                    0 <= j < k ==> self.rank(scores@, #[trigger] children[j]) <= best_rank,
                forall|j: int|
                    0 <= j < best ==> self.rank(scores@, #[trigger] children[j]) < best_rank,
            decreases children.len() - k,
        {
            let rank = self.rank_of(node.children[k], scores);
            if rank > best_rank {
                best = k;
                best_rank = rank;
            }
            k = k + 1;
        }
        proof {
            assert(self.is_best(scores@, node_id, best as int));
            let chosen = choose|k: int| self.is_best(scores@, node_id, k);
            self.lemma_best_is_unique(scores@, node_id, chosen, best as int);
            assert(children[best as int] == self@[node_id.0 as int].children@[best as int]);
        }
        Some(node.children[best])
    }

    /// Adds one child for every legal move at the node, in the order of the moves:
    /// the position after the move, reached by the other side, without statistics
    /// and without children. Their ids are recorded as children of the node. A
    /// position without legal moves leaves the tree as it is.
    pub fn expand_tree(&mut self, node_id: NodeId)
        requires
            old(self).wf(),
            old(self).has(node_id),
        ensures
            final(self).wf(),
            expanded(old(self)@, final(self)@, node_id),
    {
        let position = self.nodes[node_id.0].position.clone();
        let side = self.nodes[node_id.0].side_that_moved.other();
        let moves = position.legal_moves();
        let first = self.nodes.len();
        let ghost parent = old(self).at(node_id);
        let mut i: usize = 0;
        while i < moves.len()
            invariant
                old(self).wf(),
                old(self).has(node_id),
                self.wf(),
                parent == old(self).at(node_id),
                position == parent.position,
                position.wf(),
                side == parent.side_that_moved.opposite(),
                moves@ == position.legal_moves_spec(),
                forall|j: int| 0 <= j < moves@.len() ==> position.playable(#[trigger] moves@[j]),
                first == old(self)@.len(),
                i <= moves@.len(),
                self@.len() == first + i,
                forall|j: int|
                    0 <= j < first && j != node_id.0 ==> #[trigger] self@[j] == old(self)@[j],
                self.at(node_id).children@ == parent.children@ + fresh_ids(first as nat, i as nat),
                self.at(node_id).position == parent.position,
                self.at(node_id).side_that_moved == parent.side_that_moved,
                self.at(node_id).wins_doubled == parent.wins_doubled,
                self.at(node_id).simulations == parent.simulations,
                forall|j: int|
                    0 <= j < i ==> {
                        let child = #[trigger] self@[first + j];
                        &&& child.position == position.after(moves@[j])
                        &&& child.side_that_moved == side
                        &&& child.wins_doubled == 0
                        &&& child.simulations == 0
                        &&& child.children@.len() == 0
                    },
            decreases moves@.len() - i,
        {
            let ghost before = self@;
            let added_id = NodeId(self.nodes.len());
            let mut next = position.clone();
            next.play_unchecked(&moves[i]);
            self.nodes.push(
                Node {
                    side_that_moved: side,
                    position: next,
                    wins_doubled: 0,
                    simulations: 0,
                    children: Vec::new(),
                },
            );
            let ghost pushed = self@;
            self.nodes[node_id.0].children.push(added_id);
            proof {
                reveal(no_shared_children);
                let now = self@;
                let added = NodeId((first + i) as usize);
                assert(now.len() == first + i + 1);
                assert(now[node_id.0 as int].children@ =~= parent.children@ + fresh_ids(
                    first as nat,
                    (i + 1) as nat,
                ));
                assert forall|a: int| 0 <= a < now.len() && a != node_id.0 implies now[a] == pushed[a] by {}
                assert forall|a: int| 0 <= a < before.len() implies pushed[a] == before[a] by {}
                assert forall|a: int, k: int|
                    0 <= a < now.len() && 0 <= k < now[a].children@.len() implies a < (
                #[trigger] now[a].children@[k]).0 < now.len() by {
                    if a == node_id.0 {
                        if k < before[a].children@.len() {
                            assert(now[a].children@[k] == before[a].children@[k]);
                        }
                    } else if a < before.len() {
                        assert(now[a].children@[k] == before[a].children@[k]);
                    }
                }
                assert forall|a: int, k: int, c: int, l: int|
                    0 <= a < now.len() && 0 <= k < now[a].children@.len() && 0 <= c < now.len() && 0
                        <= l < now[c].children@.len() && #[trigger] now[a].children@[k]
                        == #[trigger] now[c].children@[l] implies a == c && k == l by {
                    let last = before[node_id.0 as int].children@.len() as int;
                    let a_new = a == node_id.0 && k == last;
                    let c_new = c == node_id.0 && l == last;
                    if !a_new {
                        assert(a < before.len());
                        assert(now[a].children@[k] == before[a].children@[k]);
                        assert(before[a].children@[k].0 < before.len());
                    }
                    if !c_new {
                        assert(c < before.len());
                        assert(now[c].children@[l] == before[c].children@[l]);
                        assert(before[c].children@[l].0 < before.len());
                    }
                }
                assert forall|a: int| 0 <= a < now.len() implies (#[trigger] now[a]).position.wf() by {
                    if a < before.len() {
                        assert(now[a].position == before[a].position);
                        assert(before[a].position.wf());
                    }
                }
            }
            i = i + 1;
        }
    }

    /// Credits a rollout that ended in `outcome` to every node of `branch`: one more
    /// simulation, and two more doubled wins for a node reached by a move of the
    /// winner, one more after a draw, none after a loss.
    pub fn backpropagate(&mut self, branch: &Vec<NodeId>, outcome: Outcome)
        requires
            old(self).wf(),
            forall|k: int| 0 <= k < branch@.len() ==> old(self).has(#[trigger] branch@[k]),
            forall|k: int|
                0 <= k < branch@.len() ==> old(self).at(#[trigger] branch@[k]).has_room(),
            forall|i: int, j: int| 0 <= i < j < branch@.len() ==> branch@[i] != branch@[j],
        ensures
            final(self).wf(),
            credited_along(old(self)@, final(self)@, branch@, outcome),
    {
        let mut k: usize = 0;
        while k < branch.len()
            invariant
                old(self).wf(),
                forall|k: int| 0 <= k < branch@.len() ==> old(self).has(#[trigger] branch@[k]),
                forall|k: int|
                    0 <= k < branch@.len() ==> old(self).at(#[trigger] branch@[k]).has_room(),
                forall|i: int, j: int| 0 <= i < j < branch@.len() ==> branch@[i] != branch@[j],
                k <= branch@.len(),
                self@.len() == old(self)@.len(),
                forall|i: int|
                    0 <= i < old(self)@.len() ==> #[trigger] self@[i] == if on_branch(
                        branch@.take(k as int),
                        i,
                    ) {
                        old(self)@[i].credited(outcome)
                    } else {
                        old(self)@[i]
                    },
            decreases branch@.len() - k,
        {
            let id = branch[k];
            let ghost before = self@;
            let ghost shorter = branch@.take(k as int);
            let ghost longer = branch@.take(k + 1);
            proof {
                if on_branch(shorter, id.0 as int) {
                    let j = choose|j: int| 0 <= j < shorter.len() && shorter[j].0 == id.0;
                    assert(branch@[j] == branch@[k as int]);
                }
                assert(before[id.0 as int] == old(self)@[id.0 as int]);
            }
            let gain: u64 = match outcome {
                Outcome::Decisive { winner } => if winner.is_white()
                    == self.nodes[id.0].side_that_moved.is_white() {
                    2
                } else {
                    0
                },
                Outcome::Draw => 1,
            };
            self.nodes[id.0].simulations = self.nodes[id.0].simulations + 1;
            self.nodes[id.0].wins_doubled = self.nodes[id.0].wins_doubled + gain;
            proof {
                let now = self@;
                assert(now[id.0 as int] == old(self)@[id.0 as int].credited(outcome));
                assert forall|i: int| 0 <= i < old(self)@.len() implies #[trigger] now[i]
                    == if on_branch(longer, i) {
                    old(self)@[i].credited(outcome)
                } else {
                    old(self)@[i]
                } by {
                    if i == id.0 {
                        assert(longer[k as int].0 == i);
                    } else {
                        assert(now[i] == before[i]);
                        if on_branch(shorter, i) {
                            let j = choose|j: int| 0 <= j < shorter.len() && shorter[j].0 == i;
                            assert(longer[j].0 == i);
                        }
                        if on_branch(longer, i) {
                            let j = choose|j: int| 0 <= j < longer.len() && longer[j].0 == i;
                            assert(j != k);
                            assert(shorter[j].0 == i);
                        }
                    }
                }
            }
            k = k + 1;
        }
        proof {
            reveal(no_shared_children);
            assert(branch@.take(branch@.len() as int) =~= branch@);
            let now = self@;
            assert forall|a: int, k: int|
                0 <= a < now.len() && 0 <= k < now[a].children@.len() implies a < (
            #[trigger] now[a].children@[k]).0 < now.len() by {
                assert(now[a].children@ == old(self)@[a].children@);
            }
            assert forall|a: int, k: int, c: int, l: int|
                0 <= a < now.len() && 0 <= k < now[a].children@.len() && 0 <= c < now.len() && 0
                    <= l < now[c].children@.len() && #[trigger] now[a].children@[k]
                    == #[trigger] now[c].children@[l] implies a == c && k == l by {
                assert(now[a].children@ == old(self)@[a].children@);
                assert(now[c].children@ == old(self)@[c].children@);
            }
            assert forall|a: int| 0 <= a < now.len() implies (#[trigger] now[a]).position.wf() by {
                assert(now[a].position == old(self)@[a].position);
            }
        }
    }

    /// One search iteration: descends from `root` to a node without children, expands
    /// it, runs a random rollout from the first added child (from the node itself if
    /// its position has no legal move) and credits the outcome to every node of the
    /// path from `root` through that child. A rollout whose game is not over after
    /// `max_plies` moves is dropped: the tree stays expanded, the statistics stay as
    /// they were, and the result is `None`.
    pub fn execute_mcts(&mut self, root: NodeId, scores: &Vec<u32>, max_plies: u64) -> (r: Option<
        Outcome,
    >)
        requires
            old(self).wf(),
            old(self).has(root),
            scores@.len() == old(self)@.len(),
            forall|i: int| 0 <= i < old(self)@.len() ==> (#[trigger] old(self)@[i]).has_room(),
        ensures
            final(self).wf(),
            exists|branch: Seq<NodeId>, grown: Seq<Node>|
                {
                    let path = walked(branch, old(self)@.len(), grown.len());
                    &&& branch[0] == root
                    &&& #[trigger] old(self).is_descent(scores@, branch)
                    &&& #[trigger] expanded(old(self)@, grown, branch.last())
                    &&& match r {
                        Some(outcome) => {
                            &&& credited_along(grown, final(self)@, path, outcome)
                            &&& exists|end: Bughouse, n: nat|
                                n <= max_plies && #[trigger] reaches(
                                    grown[path.last().0 as int].position,
                                    end,
                                    n,
                                ) && end.outcome_spec() == Some(outcome)
                        },
                        None => {
                            &&& final(self)@ == grown
                            &&& exists|end: Bughouse| #[trigger]
                                reaches(
                                    grown[path.last().0 as int].position,
                                    end,
                                    max_plies as nat,
                                ) && end.legal_moves_spec().len() > 0
                        },
                    }
                    &&& grown[path.last().0 as int].position.legal_moves_spec().len() == 0 ==> r
                        == grown[path.last().0 as int].position.outcome_spec() && r is Some
                },
            r is Some ==> final(self).at(root).simulations == old(self).at(root).simulations + 1,
            r is None ==> final(self).at(root).simulations == old(self).at(root).simulations,
    {
        let mut branch = self.select_branch(root, scores);
        let ghost descent = branch@;
        let leaf = branch[branch.len() - 1];
        let first = self.nodes.len();
        self.expand_tree(leaf);
        let ghost grown = self@;
        if self.nodes.len() > first {
            branch.push(NodeId(first));
        }
        proof {
            assert(branch@ == walked(descent, first as nat, grown.len()));
            lemma_walked_path(old(self)@, grown, descent);
            assert(old(self)@[descent[0].0 as int].has_room());
        }
        let end = branch[branch.len() - 1];
        let start = self.nodes[end.0].position.clone();
        match simulate(start, max_plies) {
            Rollout::Finished(outcome) => {
                self.backpropagate(&branch, outcome);
                proof {
                    lemma_root_credit(old(self)@, grown, self@, descent, outcome);
                }
                Some(outcome)
            },
            Rollout::Unfinished(_) => {
                proof {
                    lemma_root_credit(old(self)@, grown, self@, descent, Outcome::Draw);
                }
                None
            },
        }
    }

    /// The rank of `child` as a number that can be compared.
    fn rank_of(&self, child: NodeId, scores: &Vec<u32>) -> (r: u64)
        requires
            self.has(child),
            scores@.len() == self@.len(),
        ensures
            r == self.rank(scores@, child),
    {
        if self.nodes[child.0].simulations == 0 {
            u32::MAX as u64 + 1
        } else {
            scores[child.0] as u64
        }
    }

    /// The descent from `root` to a node without children, by `select_next` at each step.
    pub fn select_branch(&self, root: NodeId, scores: &Vec<u32>) -> (branch: Vec<NodeId>)
        requires
            self.wf(),
            self.has(root),
            scores@.len() == self@.len(),
        ensures
            branch@[0] == root,
            self.is_descent(scores@, branch@),
            forall|i: int, j: int| 0 <= i < j < branch@.len() ==> branch@[i].0 < branch@[j].0,
    {
        let mut branch: Vec<NodeId> = Vec::new();
        branch.push(root);
        let mut current = root;
        loop
            invariant
                self.wf(),
                scores@.len() == self@.len(),
                branch@.len() > 0,
                branch@[0] == root,
                branch@.last() == current,
                forall|i: int| 0 <= i < branch@.len() ==> self.has(#[trigger] branch@[i]),
                forall|i: int|
                    0 <= i < branch@.len() - 1 ==> self.next(scores@, #[trigger] branch@[i])
                        == Some(branch@[i + 1]),
                forall|i: int, j: int| 0 <= i < j < branch@.len() ==> branch@[i].0 < branch@[j].0,
            ensures
                self.next(scores@, branch@.last()) is None,
            decreases self@.len() - current.0,
        {
            match self.select_next(current, scores) {
                Some(next) => {
                    branch.push(next);
                    current = next;
                },
                None => {
                    break ;
                },
            }
        }
        branch
    }
}

} // verus!
