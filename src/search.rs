//! The search tree: node classification, one randomised growth step with
//! back-propagation of scores, and principal-variation extraction.
use vstd::prelude::*;
use cozy_chess::{Board, Move};
use nohash::IntSet;
use crate::evaluation::{evaluate, evaluation_of, popcnt, popcount};
use crate::history::{enter, leave, seen, lemma_enter_leave};
use crate::position::{Position, Status, legal_moves, try_play, copy_board, position_hash};
use crate::score::{Eval, eval_le, eval_lt, backed_up};

verus! {

/// Numerator and denominator of the chance, e^-0.3, that the exploration
/// index goes one step further.
const STEP_ON_NUMERATOR: u32 = 2_963_272_883;
const STEP_ON_DENOMINATOR: u32 = 4_000_000_000;

/// Largest exploration index drawn before reduction modulo the number of
/// children.
const MAX_STEPS: usize = 122;

/// Children in ascending order of their scores.
pub open spec fn sorted_by_eval(s: Seq<(Move, Node)>) -> bool {
    forall|i: int, j: int|
        0 <= i < j < s.len() ==> eval_le(#[trigger] s[i].1.eval, #[trigger] s[j].1.eval)
}

/// No pawn, rook or queen is left, and at most one minor piece.
pub open spec fn insufficient_material(p: Position) -> bool {
    &&& p.pawns == 0
    &&& p.rooks == 0
    &&& p.queens == 0
    &&& popcount(p.bishops) + popcount(p.knights) < 2
}

/// Whether neither side can force checkmate for lack of material.
pub fn draw_by_insufficient_material(p: &Position) -> (r: bool)
    ensures
        r == insufficient_material(*p),
{
    p.pawns == 0 && p.rooks == 0 && p.queens == 0 && popcnt(p.bishops) + popcnt(p.knights) < 2
}

/// Relies on rand::Rng::gen_ratio on the thread-local generator, which
/// panics only when the denominator is zero or below the numerator.
#[verifier::external_body]
fn chance(numerator: u32, denominator: u32) -> (r: bool)
    requires
        0 < denominator,
        numerator <= denominator,
{
    rand::Rng::gen_ratio(&mut rand::thread_rng(), numerator, denominator)
}

/// Relies on rand::seq::SliceRandom::shuffle on the thread-local
/// generator: the moves are permuted.
#[verifier::external_body]
fn shuffle_moves(moves: &mut Vec<Move>)
    ensures
        final(moves)@.to_multiset() == old(moves)@.to_multiset(),
{
    rand::seq::SliceRandom::shuffle(moves.as_mut_slice(), &mut rand::thread_rng())
}

/// Index of the child to revisit: the number of steps of a geometric walk
/// that goes on with chance e^-0.3 at each step (so `floor(-ln(U) / 0.3)`
/// for a uniform `U`), capped at 122, reduced modulo `len`.
pub fn exploration_index(len: usize) -> (r: usize)
    requires
        len > 0,
    ensures
        r < len,
{
    let mut steps: usize = 0;
    let mut going: bool = true;
    while going && steps < MAX_STEPS
        invariant
            steps <= MAX_STEPS,
        decreases 2 * (MAX_STEPS - steps) + if going { 1int } else { 0int },
    {
        if chance(STEP_ON_NUMERATOR, STEP_ON_DENOMINATOR) {
            steps = steps + 1;
        } else {
            going = false;
        }
    }
    steps % len
}

/// A position in the search tree.
pub struct Node {
    /// Best known score for the side to move here.
    pub eval: Eval,
    /// Most plies explored below this node along a revisited line.
    pub depth: usize,
    /// `None`: never expanded. `Some` and empty: the game ends here.
    /// Otherwise every legal move with its node, in ascending order of the
    /// child's score, so the first is the best reply.
    pub children: Option<Vec<(Move, Node)>>,
}

/// `n` is the node for position `p` against the repetition set `history`:
/// checkmate is a loss now; a draw by rule, a repetition or insufficient
/// material is a dead draw; anything else is an unexpanded leaf with its
/// static score.
pub open spec fn classified(p: Position, history: Set<u64>, n: Node) -> bool {
    &&& n.depth == 0
    &&& p.status == Status::Checkmated ==> n.eval == Eval::Lost(0) && n.is_terminal()
    &&& p.status == Status::Drawn ==> n.eval == Eval::Value(0) && n.is_terminal()
    &&& p.status == Status::Ongoing && history.contains(p.hash) ==> n.eval == Eval::Value(0)
        && n.is_terminal()
    &&& p.status == Status::Ongoing && insufficient_material(p) ==> n.eval == Eval::Value(0)
        && n.is_terminal()
    &&& p.status == Status::Ongoing && !history.contains(p.hash) && !insufficient_material(p)
        ==> n.eval == Eval::Value(evaluation_of(p) as i32) && n.children is None
}

/// The moves of a list of children, in order.
pub open spec fn moves_of(s: Seq<(Move, Node)>) -> Seq<Move> {
    s.map_values(|e: (Move, Node)| e.0)
}

/// Number of nodes in the tree rooted at `n`.
pub open spec fn tree_size(n: Node) -> nat
    decreases n, 0nat,
{
    1 + match n.children {
        Some(v) => forest_size(v@, v@.len()),
        None => 0,
    }
}

/// Number of nodes in the trees of the first `k` children of `s`.
pub open spec fn forest_size(s: Seq<(Move, Node)>, k: nat) -> nat
    decreases s, k,
{
    if k == 0 || k > s.len() {
        0
    } else {
        forest_size(s, (k - 1) as nat) + tree_size(s[k - 1].1)
    }
}

impl Node {
    /// Children are kept sorted, the score of an expanded node is the one
    /// backed up from its best child, and so on all the way down.
    pub open spec fn wf(&self) -> bool
        decreases self,
    {
        match self.children {
            None => true,
            Some(v) => {
                &&& sorted_by_eval(v@)
                &&& v@.len() > 0 ==> self.eval == backed_up(v@[0].1.eval)
                &&& forall|i: int| 0 <= i < v@.len() ==> (#[trigger] v@[i]).1.wf()
                &&& forall|i: int| 0 <= i < v@.len() ==> (#[trigger] v@[i]).1.depth <= self.depth
                &&& forall|i: int|
                    0 <= i < v@.len() ==> ((#[trigger] v@[i]).1.is_expanded() ==> v@[i].1.depth
                        < self.depth)
            },
        }
    }

    /// The node has been expanded and has at least one child.
    pub open spec fn is_expanded(&self) -> bool {
        self.children matches Some(v) && v@.len() > 0
    }

    /// The game is over at this node.
    pub open spec fn is_terminal(&self) -> bool {
        self.children matches Some(v) && v@.len() == 0
    }

    /// The line of first children from this node down.
    pub open spec fn pv_of(&self) -> Seq<Move>
        decreases self,
    {
        match self.children {
            Some(v) => if v@.len() > 0 {
                seq![v@[0].0].add(v@[0].1.pv_of())
            } else {
                Seq::empty()
            },
            None => Seq::empty(),
        }
    }

    /// Classifies a position: checkmate is a loss now, a draw by rule, a
    /// repetition or insufficient material is a dead draw, and anything
    /// else is an unexpanded leaf with its static score.
    pub fn classify(p: &Position, history: &IntSet<u64>) -> (r: Node)
        requires
            p.wf(),
        ensures
            r.wf(),
            classified(*p, history@, r),
            !r.is_expanded(),
    {
        let (eval, children) = match p.status {
            Status::Checkmated => (Eval::Lost(0), Some(Vec::new())),
            Status::Drawn => (Eval::Value(0), Some(Vec::new())),
            Status::Ongoing => {
                if seen(history, p.hash) {
                    (Eval::Value(0), Some(Vec::new()))
                } else if draw_by_insufficient_material(p) {
                    (Eval::Value(0), Some(Vec::new()))
                } else {
                    (Eval::Value(evaluate(p)), None)
                }
            },
        };
        Node { eval, depth: 0, children }
    }

    /// The node for a position, classified against the repetition set,
    /// which is left as it was.
    pub fn new(p: &Position, history: &mut IntSet<u64>) -> (r: Node)
        requires
            p.wf(),
        ensures
            r.wf(),
            classified(*p, old(history)@, r),
            !r.is_expanded(),
            final(history)@ == old(history)@,
    {
        Node::classify(p, history)
    }

    /// Current score.
    pub fn eval(&self) -> (r: Eval)
        ensures
            r == self.eval,
    {
        self.eval
    }

    /// Deepest line explored below this node.
    pub fn depth(&self) -> (r: usize)
        ensures
            r == self.depth,
    {
        self.depth
    }

    /// Appends the principal variation: the move to the first child, then
    /// that child's principal variation, down to a node that is unexpanded
    /// or terminal.
    pub fn get_pv(&self, pv: &mut Vec<Move>)
        ensures
            final(pv)@ == old(pv)@ + self.pv_of(),
        decreases self,
    {
        match &self.children {
            Some(v) => {
                if v.len() > 0 {
                    pv.push(v[0].0);
                    v[0].1.get_pv(pv);
                    proof {
                        assert(final(pv)@ =~= old(pv)@ + self.pv_of());
                    }
                } else {
                    proof {
                        assert(final(pv)@ =~= old(pv)@ + self.pv_of());
                    }
                }
            },
            None => {
                proof {
                    assert(final(pv)@ =~= old(pv)@ + self.pv_of());
                }
            },
        }
    }

    /// Expands an unexpanded node: one child per legal move, classified
    /// with this node's own hash counted as a repetition, shuffled and then
    /// sorted, and this node's score backed up from the best of them.
    fn expand(&mut self, board: &Board, history: &mut IntSet<u64>) -> (r: usize)
        requires
            old(self).wf(),
            old(self).children is None,
        ensures
            final(self).wf(),
            final(self).children matches Some(v) && forall|k: int|
                0 <= k < v@.len() ==> (#[trigger] v@[k]).1.depth == 0 && !v@[k].1.is_expanded(),
            tree_size(*final(self)) == tree_size(*old(self)) + r,
            final(self).depth == old(self).depth,
            final(self).children matches Some(v) && r == v@.len(),
            final(history)@ == old(history)@,
    {
        let hash = position_hash(board);
        let added = enter(history, hash);
        let mut moves = legal_moves(board);
        shuffle_moves(&mut moves);
        let mut children: Vec<(Move, Node)> = Vec::new();
        let mut i: usize = 0;
        while i < moves.len()
            invariant
                i <= moves@.len(),
                children@.len() <= i,
                history@ == old(history)@.insert(hash),
                added == !old(history)@.contains(hash),
                sorted_by_eval(children@),
                forall|k: int| 0 <= k < children@.len() ==> (#[trigger] children@[k]).1.wf(),
                forall|k: int| 0 <= k < children@.len() ==> (#[trigger] children@[k]).1.depth == 0,
                forall|k: int|
                    0 <= k < children@.len() ==> !(#[trigger] children@[k]).1.is_expanded(),
            decreases moves@.len() - i,
        {
            let mv = moves[i];
            let mut next = copy_board(board);
            if try_play(&mut next, mv) {
                let q = Position::of(&next);
                let child = Node::new(&q, history);
                let ghost before = children@;
                let j = insert_sorted(&mut children, mv, child);
                proof {
                    assert forall|k: int| 0 <= k < children@.len() implies (
                    #[trigger] children@[k]).1.wf() && children@[k].1.depth == 0
                        && !children@[k].1.is_expanded() by {
                        if k < j {
                            assert(children@[k] == before[k]);
                        } else if k > j {
                            assert(children@[k] == before[k - 1]);
                        }
                    }
                }
            }
            i = i + 1;
        }
        leave(history, hash, added);
        proof {
            lemma_enter_leave(old(history)@, hash);
        }
        if children.len() > 0 {
            self.eval = children[0].1.eval.count_time().neg();
        }
        let n = children.len();
        proof {
            lemma_forest_of_leaves(children@, children@.len());
        }
        self.children = Some(children);
        n
    }

    /// One step of tree growth. A terminal node is left alone. An
    /// unexpanded node is expanded. An expanded node picks a child by the
    /// exploration index, searches it with this node's hash counted as a
    /// repetition, then puts it back in order, raises its own depth to
    /// cover it and backs up the best child's score. Returns the number of
    /// nodes created. The repetition set is the same afterwards.
    pub fn search(&mut self, board: Board, history: &mut IntSet<u64>) -> (r: usize)
        requires
            old(self).wf(),
            old(self).depth < usize::MAX,
        ensures
            stepped(*old(self), *final(self), r),
            final(history)@ == old(history)@,
            old(self).is_expanded() ==> exists|i: int, j: int, c2: Node|
                #[trigger] revisit_of(*old(self), *final(self), r, i, j, c2),
        decreases *old(self),
    {
        if self.children.is_none() {
            return self.expand(&board, history);
        }
        let ghost start = *self;
        let mut children = self.children.take().unwrap();
        if children.len() == 0 {
            self.children = Some(children);
            proof {
                assert(*self == start);
            }
            return 0;
        }
        let hash = position_hash(&board);
        let i = exploration_index(children.len());
        let ghost before = children@;
        let (mv, mut child) = children.remove(i);
        let ghost c0 = child;
        proof {
            assert(before[i as int].1.wf());
            assert(before[i as int].1.depth <= start.depth);
            assert(before[i as int].1.is_expanded() ==> before[i as int].1.depth < start.depth);
            assert(children@ == before.remove(i as int));
        }
        let added = enter(history, hash);
        let mut next = board;
        let mut created: usize = 0;
        if try_play(&mut next, mv) {
            created = child.search(next, history);
        }
        leave(history, hash, added);
        proof {
            lemma_enter_leave(old(history)@, hash);
            assert(child.depth <= start.depth);
        }
        if self.depth <= child.depth {
            self.depth = child.depth + 1;
        }
        let ghost rest = children@;
        proof {
            assert(sorted_by_eval(rest));
            assert forall|k: int| 0 <= k < rest.len() implies (#[trigger] rest[k]).1.wf()
                && rest[k].1.depth <= start.depth && (rest[k].1.is_expanded() ==> rest[k].1.depth
                < start.depth) by {
                if k < i {
                    assert(rest[k] == before[k]);
                } else {
                    assert(rest[k] == before[k + 1]);
                }
            }
        }
        let j = insert_sorted(&mut children, mv, child);
        proof {
            assert forall|k: int| 0 <= k < children@.len() implies (#[trigger] children@[k]).1.wf()
                && children@[k].1.depth <= self.depth && (children@[k].1.is_expanded()
                ==> children@[k].1.depth < self.depth) by {
                if k < j {
                    assert(children@[k] == rest[k]);
                } else if k > j {
                    assert(children@[k] == rest[k - 1]);
                }
            }
        }
        self.eval = children[0].1.eval.count_time().neg();
        self.children = Some(children);
        proof {
            lemma_forest_replace(before, i as int, j as int, (mv, child));
            lemma_moves_kept(before, i as int, j as int, child);
            assert(revisit_of(start, *self, created, i as int, j as int, child));
        }
        created
    }
}

/// What one search step promises of a node and the count it returns, one
/// level deep: the node stays well-formed; the count is the number of nodes
/// the tree gained; its depth grows by at most one
/// ply; a terminal node is unchanged and yields 0; an unexpanded node gets
/// its children, all fresh unexpanded or terminal nodes, and yields their
/// number; an expanded node keeps its number of children; an expanded or
/// terminal node keeps the multiset of its moves.
pub open spec fn stepped(before: Node, after: Node, r: usize) -> bool {
    &&& after.wf()
    &&& tree_size(after) == tree_size(before) + r
    &&& before.depth <= after.depth <= before.depth + 1
    &&& before.is_terminal() ==> r == 0 && after == before
    &&& before.children is None ==> {
        &&& after.depth == before.depth
        &&& after.children matches Some(w) && r == w@.len() && forall|k: int|
            0 <= k < w@.len() ==> (#[trigger] w@[k]).1.depth == 0 && !w@[k].1.is_expanded()
    }
    &&& before.is_expanded() ==> after.is_expanded() && after.children.unwrap()@.len()
        == before.children.unwrap()@.len()
    &&& before.children is Some ==> after.children is Some
    &&& before.children matches Some(v) ==> after.children matches Some(w) && moves_of(
        w@,
    ).to_multiset() == moves_of(v@).to_multiset()
}

/// A revisit of the expanded node `before`: child `i` was taken out,
/// became `c2` by one search step (or stayed as it was, with nothing
/// created, when its move did not apply to the board handed in), and went
/// back in at index `j`; the count is the child's; the depth is the larger
/// of the old depth and one more than the child's.
pub open spec fn revisit_of(before: Node, after: Node, r: usize, i: int, j: int, c2: Node) -> bool {
    let v = before.children.unwrap()@;
    &&& 0 <= i < v.len()
    &&& 0 <= j < v.len()
    &&& after.children matches Some(w) && w@ == v.remove(i).insert(j, (v[i].0, c2))
    &&& stepped(v[i].1, c2, r) || (c2 == v[i].1 && r == 0)
    &&& after.depth == if before.depth > c2.depth { before.depth } else { (c2.depth + 1) as usize }
}

/// Inserts a child after every child that scores no higher than it, which
/// keeps the children sorted; returns where it went.
fn insert_sorted(children: &mut Vec<(Move, Node)>, mv: Move, child: Node) -> (j: usize)
    requires
        sorted_by_eval(old(children)@),
        old(children)@.len() < usize::MAX,
    ensures
        j <= old(children)@.len(),
        final(children)@ == old(children)@.insert(j as int, (mv, child)),
        sorted_by_eval(final(children)@),
{
    let mut j: usize = 0;
    while j < children.len() && children[j].1.eval.is_at_most(&child.eval)
        invariant
            j <= children@.len(),
            children@ == old(children)@,
            forall|k: int| 0 <= k < j ==> eval_le(#[trigger] children@[k].1.eval, child.eval),
        decreases children@.len() - j,
    {
        j = j + 1;
    }
    let ghost e = child.eval;
    let ghost s = children@;
    children.insert(j, (mv, child));
    proof {
        assert(j < s.len() ==> eval_lt(e, s[j as int].1.eval));
        assert forall|a: int, b: int| 0 <= a < b < children@.len() implies eval_le(
            #[trigger] children@[a].1.eval,
            #[trigger] children@[b].1.eval,
        ) by {
            if b < j {
                assert(children@[a] == s[a] && children@[b] == s[b]);
            } else if b == j {
                assert(children@[a] == s[a]);
            } else if a == j {
                assert(children@[b] == s[b - 1]);
                assert(eval_le(s[j as int].1.eval, s[b - 1].1.eval));
            } else if a < j {
                assert(children@[a] == s[a] && children@[b] == s[b - 1]);
                assert(eval_le(s[j as int].1.eval, s[b - 1].1.eval));
            } else {
                assert(children@[a] == s[a - 1] && children@[b] == s[b - 1]);
            }
        }
    }
    j
}

/// In a well-formed node that has been expanded and has a legal move, the
/// score is the one backed up from the first child and the children are in
/// ascending order of score; `search` keeps nodes well-formed, so this
/// holds after any sequence of search steps.
pub proof fn lemma_backed_up_from_best(n: Node)
    requires
        n.wf(),
        n.children matches Some(v) && v@.len() > 0,
    ensures
        n.children matches Some(v) && n.eval == backed_up(v@[0].1.eval) && sorted_by_eval(v@),
        n.children matches Some(v) && forall|i: int|
            0 <= i < v@.len() ==> eval_le(v@[0].1.eval, #[trigger] v@[i].1.eval),
{
    let v = n.children.unwrap();
    assert forall|i: int| 0 <= i < v@.len() implies eval_le(v@[0].1.eval, #[trigger] v@[i].1.eval) by {
        if i > 0 {
            assert(eval_le(v@[0].1.eval, v@[i].1.eval));
        }
    }
}

/// The principal variation of an expanded node with a legal move is not
/// empty, and starts with the move to the first child.
pub proof fn lemma_pv_starts_at_best(n: Node)
    requires
        n.children matches Some(v) && v@.len() > 0,
    ensures
        n.children matches Some(v) && n.pv_of().len() >= 1 && n.pv_of()[0] == v@[0].0,
{
}

/// A better reply for the opponent is a worse score for the mover: backing
/// up reverses the order.
pub proof fn lemma_backed_up_reverses_order(a: Eval, b: Eval)
    requires
        eval_le(a, b),
    ensures
        eval_le(backed_up(b), backed_up(a)),
{
}

/// The score of an expanded node is the best that any reply leaves its
/// mover: no child backs up to more, and the first child backs up to it.
pub proof fn lemma_eval_is_best_reply(n: Node)
    requires
        n.wf(),
        n.is_expanded(),
    ensures
        forall|i: int|
            0 <= i < n.children.unwrap()@.len() ==> eval_le(
                backed_up(#[trigger] n.children.unwrap()@[i].1.eval),
                n.eval,
            ),
{
    let v = n.children.unwrap()@;
    assert forall|i: int| 0 <= i < v.len() implies eval_le(backed_up(#[trigger] v[i].1.eval), n.eval) by {
        if i > 0 {
            assert(eval_le(v[0].1.eval, v[i].1.eval));
        }
        lemma_backed_up_reverses_order(v[0].1.eval, v[i].1.eval);
    }
}

/// The principal variation of a well-formed node is at most one move
/// longer than its depth, and empty unless the node is expanded.
pub proof fn lemma_pv_within_depth(n: Node)
    requires
        n.wf(),
    ensures
        n.pv_of().len() <= if n.is_expanded() { n.depth + 1 } else { 0 },
    decreases n,
{
    if n.is_expanded() {
        let v = n.children.unwrap()@;
        assert(v[0].1.wf());
        lemma_pv_within_depth(v[0].1);
    }
}

/// Forest size of a whole sequence, split at `m`.
proof fn lemma_forest_split(s: Seq<(Move, Node)>, m: nat, k: nat)
    requires
        m <= k <= s.len(),
    ensures
        forest_size(s, k) == forest_size(s.take(m as int), m) + forest_size(s.skip(m as int), (k - m) as nat),
    decreases k,
{
    if k > m {
        lemma_forest_split(s, m, (k - 1) as nat);
        assert(s.skip(m as int)[k - m - 1] == s[k - 1]);
    } else {
        lemma_forest_prefix(s, s.take(m as int), m);
    }
}

/// Forest size only looks at the first `k` entries.
proof fn lemma_forest_prefix(s: Seq<(Move, Node)>, t: Seq<(Move, Node)>, k: nat)
    requires
        k <= s.len(),
        k <= t.len(),
        forall|i: int| 0 <= i < k ==> s[i] == t[i],
    ensures
        forest_size(s, k) == forest_size(t, k),
    decreases k,
{
    if k > 0 {
        lemma_forest_prefix(s, t, (k - 1) as nat);
    }
}

/// Forest size of a whole sequence.
pub open spec fn forest(s: Seq<(Move, Node)>) -> nat {
    forest_size(s, s.len())
}

/// Forest size of a concatenation.
proof fn lemma_forest_concat(a: Seq<(Move, Node)>, b: Seq<(Move, Node)>)
    ensures
        forest(a + b) == forest(a) + forest(b),
{
    let s = a + b;
    lemma_forest_split(s, a.len(), s.len());
    assert(s.take(a.len() as int) =~= a);
    assert(s.skip(a.len() as int) =~= b);
}

/// Forest size of one entry.
proof fn lemma_forest_single(x: (Move, Node))
    ensures
        forest(seq![x]) == tree_size(x.1),
{
    assert(forest_size(seq![x], 0) == 0);
}

/// Taking entry `i` out and putting `x` in at `j` changes the forest size
/// by the difference of the two trees.
proof fn lemma_forest_replace(s: Seq<(Move, Node)>, i: int, j: int, x: (Move, Node))
    requires
        0 <= i < s.len(),
        0 <= j < s.len(),
    ensures
        forest(s.remove(i).insert(j, x)) + tree_size(s[i].1) == forest(s) + tree_size(x.1),
{
    let r = s.remove(i);
    assert(s =~= s.take(i) + seq![s[i]] + s.skip(i + 1));
    assert(r =~= s.take(i) + s.skip(i + 1));
    lemma_forest_concat(s.take(i) + seq![s[i]], s.skip(i + 1));
    lemma_forest_concat(s.take(i), seq![s[i]]);
    lemma_forest_concat(s.take(i), s.skip(i + 1));
    lemma_forest_single(s[i]);
    let t = r.insert(j, x);
    assert(t =~= r.take(j) + seq![x] + r.skip(j));
    assert(r =~= r.take(j) + r.skip(j));
    lemma_forest_concat(r.take(j) + seq![x], r.skip(j));
    lemma_forest_concat(r.take(j), seq![x]);
    lemma_forest_concat(r.take(j), r.skip(j));
    lemma_forest_single(x);
}

/// Children that are unexpanded or terminal count one node each.
proof fn lemma_forest_of_leaves(s: Seq<(Move, Node)>, k: nat)
    requires
        k <= s.len(),
        forall|i: int| 0 <= i < s.len() ==> !(#[trigger] s[i]).1.is_expanded(),
    ensures
        forest_size(s, k) == k,
    decreases k,
{
    if k > 0 {
        lemma_forest_of_leaves(s, (k - 1) as nat);
        assert(!s[k - 1].1.is_expanded());
        match s[k - 1].1.children {
            Some(v) => {
                assert(forest_size(v@, v@.len()) == 0);
                assert(tree_size(s[k - 1].1) == 1);
            },
            None => {
                assert(tree_size(s[k - 1].1) == 1);
            },
        }
    }
}

/// Taking child `i` out and putting it back, stepped, at `j` keeps the
/// multiset of moves.
proof fn lemma_moves_kept(s: Seq<(Move, Node)>, i: int, j: int, c2: Node)
    requires
        0 <= i < s.len(),
        0 <= j < s.len(),
    ensures
        moves_of(s.remove(i).insert(j, (s[i].0, c2))).to_multiset() == moves_of(s).to_multiset(),
{
    broadcast use vstd::seq_lib::to_multiset_remove, vstd::seq_lib::to_multiset_insert;
    broadcast use vstd::multiset::group_multiset_axioms;

    let m = moves_of(s);
    assert(moves_of(s.remove(i).insert(j, (s[i].0, c2))) =~= m.remove(i).insert(j, m[i]));
    assert(m.remove(i).to_multiset() == m.to_multiset().remove(m[i]));
    assert(m.remove(i).insert(j, m[i]).to_multiset() == m.remove(i).to_multiset().insert(m[i]));
    assert(m.to_multiset().contains(m[i])) by {
        vstd::seq_lib::to_multiset_contains(m, m[i]);
    }
    assert(m.to_multiset().remove(m[i]).insert(m[i]) =~= m.to_multiset());
}

} // verus!
