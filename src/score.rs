//! Mate-distance-aware scores and their total order.
use vstd::prelude::*;

verus! {

/// A score from the point of view of the side to move.
#[derive(PartialEq, Eq, Structural, Debug, Clone, Copy)]
pub enum Eval {
    /// A forced win in the given number of plies.
    Won(u32),
    /// A heuristic score.
    Value(i32),
    /// A forced loss in the given number of plies.
    Lost(u32),
}

/// Band of a score: every loss is below every heuristic value, which is
/// below every win.
pub open spec fn band(e: Eval) -> int {
    match e {
        Eval::Lost(_) => 0,
        Eval::Value(_) => 1,
        Eval::Won(_) => 2,
    }
}

/// Position of a score inside its band: a later loss and an earlier win
/// rank higher.
pub open spec fn within(e: Eval) -> int {
    match e {
        Eval::Lost(d) => d as int,
        Eval::Value(v) => v as int,
        Eval::Won(d) => -(d as int),
    }
}

/// Strict order on scores.
pub open spec fn eval_lt(a: Eval, b: Eval) -> bool {
    band(a) < band(b) || (band(a) == band(b) && within(a) < within(b))
}

/// Non-strict order on scores.
pub open spec fn eval_le(a: Eval, b: Eval) -> bool {
    eval_lt(a, b) || a == b
}

/// The same outcome seen by the other side.
pub open spec fn negated(e: Eval) -> Eval {
    match e {
        Eval::Won(d) => Eval::Lost(d),
        Eval::Value(v) => Eval::Value(if v == i32::MIN { i32::MAX } else { -v as i32 }),
        Eval::Lost(d) => Eval::Won(d),
    }
}

/// The same outcome one ply further away.
pub open spec fn advanced(e: Eval) -> Eval {
    match e {
        Eval::Won(d) => Eval::Won(if d == u32::MAX { d } else { (d + 1) as u32 }),
        Eval::Value(v) => Eval::Value(v),
        Eval::Lost(d) => Eval::Lost(if d == u32::MAX { d } else { (d + 1) as u32 }),
    }
}

/// The score a parent takes from its best reply.
pub open spec fn backed_up(child: Eval) -> Eval {
    negated(advanced(child))
}

impl Eval {
    /// Three-way comparison in the order of `eval_lt`.
    pub fn compare(&self, other: &Eval) -> (r: core::cmp::Ordering)
        ensures
            (r == core::cmp::Ordering::Less) == eval_lt(*self, *other),
            (r == core::cmp::Ordering::Equal) == (*self == *other),
            (r == core::cmp::Ordering::Greater) == eval_lt(*other, *self),
    {
        match (self, other) {
            (Eval::Won(d1), Eval::Won(d2)) => if d2 < d1 {
                core::cmp::Ordering::Less
            } else if d2 == d1 {
                core::cmp::Ordering::Equal
            } else {
                core::cmp::Ordering::Greater
            },
            (Eval::Won(_), _) => core::cmp::Ordering::Greater,
            (Eval::Value(_), Eval::Won(_)) => core::cmp::Ordering::Less,
            (Eval::Value(v1), Eval::Value(v2)) => if v1 < v2 {
                core::cmp::Ordering::Less
            } else if v1 == v2 {
                core::cmp::Ordering::Equal
            } else {
                core::cmp::Ordering::Greater
            },
            (Eval::Value(_), Eval::Lost(_)) => core::cmp::Ordering::Greater,
            (Eval::Lost(d1), Eval::Lost(d2)) => if d1 < d2 {
                core::cmp::Ordering::Less
            } else if d1 == d2 {
                core::cmp::Ordering::Equal
            } else {
                core::cmp::Ordering::Greater
            },
            (Eval::Lost(_), _) => core::cmp::Ordering::Less,
        }
    }

    /// The score as the engine protocol reports it: `(true, n)` for a mate
    /// in `n` moves (negative when it is the side to move that gets mated),
    /// `(false, v)` for a heuristic value `v`.
    pub fn uci_score(&self) -> (r: (bool, i64))
        ensures
            self matches Eval::Won(d) ==> r.0 && r.1 == d / 2 + 1,
            self matches Eval::Lost(d) ==> r.0 && r.1 == -(d / 2 + 1),
            self matches Eval::Value(v) ==> !r.0 && r.1 == v,
    {
        match self {
            Eval::Won(d) => (true, (*d / 2) as i64 + 1),
            Eval::Value(v) => (false, *v as i64),
            Eval::Lost(d) => (true, -((*d / 2) as i64 + 1)),
        }
    }

    /// Whether `self` ranks at or below `other`.
    pub fn is_at_most(&self, other: &Eval) -> (r: bool)
        ensures
            r == eval_le(*self, *other),
    {
        match self.compare(other) {
            core::cmp::Ordering::Greater => false,
            _ => true,
        }
    }

    /// The score one ply further from the forced outcome; heuristic values
    /// are kept as they are. A distance already at its largest stays there.
    pub fn count_time(self) -> (r: Eval)
        ensures
            r == advanced(self),
    {
        match self {
            Eval::Won(d) => Eval::Won(if d == u32::MAX { d } else { d + 1 }),
            Eval::Value(v) => Eval::Value(v),
            Eval::Lost(d) => Eval::Lost(if d == u32::MAX { d } else { d + 1 }),
        }
    }

    /// The score from the opponent's point of view. The one heuristic value
    /// without a counterpart, `i32::MIN`, maps to `i32::MAX`.
    pub fn neg(self) -> (r: Eval)
        ensures
            r == negated(self),
    {
        match self {
            Eval::Won(d) => Eval::Lost(d),
            Eval::Value(v) => Eval::Value(if v == i32::MIN { i32::MAX } else { -v }),
            Eval::Lost(d) => Eval::Won(d),
        }
    }
}

impl PartialOrd for Eval {
    fn partial_cmp(&self, other: &Eval) -> (r: Option<core::cmp::Ordering>) {
        Some(self.compare(other))
    }
}

impl vstd::std_specs::cmp::PartialOrdSpecImpl for Eval {
    open spec fn obeys_partial_cmp_spec() -> bool {
        true
    }

    open spec fn partial_cmp_spec(&self, other: &Eval) -> Option<core::cmp::Ordering> {
        if eval_lt(*self, *other) {
            Some(core::cmp::Ordering::Less)
        } else if *self == *other {
            Some(core::cmp::Ordering::Equal)
        } else {
            Some(core::cmp::Ordering::Greater)
        }
    }
}

/// Scores are totally ordered: exactly one of `a < b`, `a == b`, `b < a`
/// holds, and the order is transitive.
pub proof fn lemma_total_order(a: Eval, b: Eval, c: Eval)
    ensures
        eval_lt(a, b) || a == b || eval_lt(b, a),
        !(eval_lt(a, b) && eval_lt(b, a)),
        !eval_lt(a, a),
        eval_lt(a, b) && eval_lt(b, c) ==> eval_lt(a, c),
        eval_le(a, b) && eval_le(b, c) ==> eval_le(a, c),
{
}

/// Negating twice gives back the score, except for the heuristic value
/// `i32::MIN`, which has no negation.
pub proof fn lemma_negate_involution(e: Eval)
    requires
        e != Eval::Value(i32::MIN),
    ensures
        negated(negated(e)) == e,
{
}

/// One more ply leaves a heuristic value alone and adds exactly one to the
/// distance of a forced outcome.
pub proof fn lemma_advance_one_ply(e: Eval)
    ensures
        e matches Eval::Value(v) ==> advanced(e) == Eval::Value(v),
        e matches Eval::Won(d) ==> (d < u32::MAX ==> advanced(e) == Eval::Won((d + 1) as u32)),
        e matches Eval::Lost(d) ==> (d < u32::MAX ==> advanced(e) == Eval::Lost((d + 1) as u32)),
{
}

/// The chain `Lost(0) < Lost(5) < Value(-100) < Value(0) < Value(100) <
/// Won(5) < Won(0)`.
pub proof fn lemma_order_examples()
    ensures
        eval_lt(Eval::Lost(0), Eval::Lost(5)),
        eval_lt(Eval::Lost(5), Eval::Value(-100i32)),
        eval_lt(Eval::Value(-100i32), Eval::Value(0)),
        eval_lt(Eval::Value(0), Eval::Value(100)),
        eval_lt(Eval::Value(100), Eval::Won(5)),
        eval_lt(Eval::Won(5), Eval::Won(0)),
{
}

} // verus!
