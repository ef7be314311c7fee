//! Static evaluation of a non-terminal position from the mover's side.
use vstd::prelude::*;
use crate::position::Position;

verus! {

/// Whether square `s` is set in bitboard `b`.
pub open spec fn has(b: u64, s: int) -> bool {
    (b >> (s as u64)) & 1 == 1
}

/// Number of set squares below `n`.
pub open spec fn count_below(b: u64, n: nat) -> nat
    decreases n,
{
    if n == 0 {
        0
    } else {
        count_below(b, (n - 1) as nat) + if has(b, n - 1) { 1nat } else { 0nat }
    }
}

/// Number of set squares.
pub open spec fn popcount(b: u64) -> nat {
    count_below(b, 64)
}

/// File of a square.
pub open spec fn file_of(s: int) -> int {
    s % 8
}

/// Rank of a square.
pub open spec fn rank_of(s: int) -> int {
    s / 8
}

/// A king step: a different square at most one file and one rank away.
pub open spec fn king_step(s: int, t: int) -> bool {
    &&& s != t
    &&& -1 <= file_of(t) - file_of(s) <= 1
    &&& -1 <= rank_of(t) - rank_of(s) <= 1
}

/// A knight leap: two files and one rank away, or one file and two ranks.
pub open spec fn knight_leap(s: int, t: int) -> bool {
    let df = file_of(t) - file_of(s);
    let dr = rank_of(t) - rank_of(s);
    (df * df == 1 && dr * dr == 4) || (df * df == 4 && dr * dr == 1)
}

/// A pawn capture: one file aside and one rank forward for its colour.
pub open spec fn pawn_capture(s: int, white: bool, t: int) -> bool {
    let df = file_of(t) - file_of(s);
    let dr = rank_of(t) - rank_of(s);
    df * df == 1 && dr == if white { 1int } else { -1int }
}

/// Sign of an integer.
pub open spec fn sign(x: int) -> int {
    if x > 0 {
        1
    } else if x < 0 {
        -1
    } else {
        0
    }
}

/// No square strictly between `s` and `t` on the rank, file or diagonal
/// through both is in `blockers`.
pub open spec fn clear_between(s: int, t: int, blockers: u64) -> bool {
    let df = file_of(t) - file_of(s);
    let dr = rank_of(t) - rank_of(s);
    let n = if df * df > dr * dr { df * sign(df) } else { dr * sign(dr) };
    forall|k: int|
        0 < k < n ==> !#[trigger] has(
            blockers,
            (rank_of(s) + k * sign(dr)) * 8 + file_of(s) + k * sign(df),
        )
}

/// A rook on `s` attacks `t`: another square on its rank or file, with no
/// blocker strictly between.
pub open spec fn rook_ray(s: int, t: int, blockers: u64) -> bool {
    &&& s != t
    &&& file_of(t) == file_of(s) || rank_of(t) == rank_of(s)
    &&& clear_between(s, t, blockers)
}

/// A bishop on `s` attacks `t`: another square on a diagonal through it,
/// with no blocker strictly between.
pub open spec fn bishop_ray(s: int, t: int, blockers: u64) -> bool {
    let df = file_of(t) - file_of(s);
    let dr = rank_of(t) - rank_of(s);
    &&& s != t
    &&& df * df == dr * dr
    &&& clear_between(s, t, blockers)
}

/// Squares a king on `sq` attacks.
pub uninterp spec fn king_moves_of(sq: int) -> u64;

/// Squares a knight on `sq` attacks.
pub uninterp spec fn knight_moves_of(sq: int) -> u64;

/// Squares a pawn of the given colour on `sq` attacks.
pub uninterp spec fn pawn_attacks_of(sq: int, white: bool) -> u64;

/// Squares a rook on `sq` attacks against the given occupancy.
pub uninterp spec fn rook_moves_of(sq: int, blockers: u64) -> u64;

/// Squares a bishop on `sq` attacks against the given occupancy.
pub uninterp spec fn bishop_moves_of(sq: int, blockers: u64) -> u64;

/// Relies on cozy_chess::get_king_moves: the squares one king step away.
#[verifier::external_body]
fn king_moves(sq: u8) -> (r: u64)
    requires
        sq < 64,
    ensures
        r == king_moves_of(sq as int),
        forall|t: int| 0 <= t < 64 ==> (has(r, t) <==> king_step(sq as int, t)),
{
    cozy_chess::get_king_moves(cozy_chess::Square::index(sq as usize)).0
}

/// Relies on cozy_chess::get_knight_moves: the squares one knight leap away.
#[verifier::external_body]
fn knight_moves(sq: u8) -> (r: u64)
    requires
        sq < 64,
    ensures
        r == knight_moves_of(sq as int),
        forall|t: int| 0 <= t < 64 ==> (has(r, t) <==> knight_leap(sq as int, t)),
{
    cozy_chess::get_knight_moves(cozy_chess::Square::index(sq as usize)).0
}

/// Relies on cozy_chess::get_pawn_attacks: the two diagonal squares ahead.
#[verifier::external_body]
fn pawn_attacks(sq: u8, white: bool) -> (r: u64)
    requires
        sq < 64,
    ensures
        r == pawn_attacks_of(sq as int, white),
        forall|t: int| 0 <= t < 64 ==> (has(r, t) <==> pawn_capture(sq as int, white, t)),
{
    let color = if white { cozy_chess::Color::White } else { cozy_chess::Color::Black };
    cozy_chess::get_pawn_attacks(cozy_chess::Square::index(sq as usize), color).0
}

/// Relies on cozy_chess::get_rook_moves: rank and file rays up to and
/// including the first blocker.
#[verifier::external_body]
fn rook_moves(sq: u8, blockers: u64) -> (r: u64)
    requires
        sq < 64,
    ensures
        r == rook_moves_of(sq as int, blockers),
        forall|t: int| 0 <= t < 64 ==> (has(r, t) <==> rook_ray(sq as int, t, blockers)),
{
    let sq = cozy_chess::Square::index(sq as usize);
    cozy_chess::get_rook_moves(sq, cozy_chess::BitBoard(blockers)).0
}

/// Relies on cozy_chess::get_bishop_moves: diagonal rays up to and
/// including the first blocker.
#[verifier::external_body]
fn bishop_moves(sq: u8, blockers: u64) -> (r: u64)
    requires
        sq < 64,
    ensures
        r == bishop_moves_of(sq as int, blockers),
        forall|t: int| 0 <= t < 64 ==> (has(r, t) <==> bishop_ray(sq as int, t, blockers)),
{
    let sq = cozy_chess::Square::index(sq as usize);
    cozy_chess::get_bishop_moves(sq, cozy_chess::BitBoard(blockers)).0
}

/// Counts the set squares of a bitboard.
pub fn popcnt(b: u64) -> (r: u32)
    ensures
        r == popcount(b),
        r <= 64,
{
    let mut c: u32 = 0;
    let mut i: u64 = 0;
    while i < 64
        invariant
            i <= 64,
            c == count_below(b, i as nat),
            c <= i,
        decreases 64 - i,
    {
        if (b >> i) & 1 == 1 {
            c = c + 1;
        }
        i = i + 1;
    }
    c
}

/// Count difference of one piece set between two colours.
pub open spec fn balance(pieces: u64, own: u64, theirs: u64) -> int {
    popcount(pieces & own) - popcount(pieces & theirs)
}

/// Material balance for the side to move: pawn 100, knight and bishop 300,
/// rook 500, queen 900.
pub open spec fn material_of(p: Position) -> int {
    let own = p.side(p.white_to_move);
    let theirs = p.side(!p.white_to_move);
    100 * balance(p.pawns, own, theirs) + 300 * balance(p.knights | p.bishops, own, theirs) + 500
        * balance(p.rooks, own, theirs) + 900 * balance(p.queens, own, theirs)
}

/// Material balance for the side to move.
pub fn material(p: &Position) -> (r: i32)
    ensures
        r == material_of(*p),
{
    let own = if p.white_to_move { p.white } else { p.black };
    let theirs = if p.white_to_move { p.black } else { p.white };
    let minors = p.knights | p.bishops;
    let pawns = popcnt(p.pawns & own) as i32 - popcnt(p.pawns & theirs) as i32;
    let minors = popcnt(minors & own) as i32 - popcnt(minors & theirs) as i32;
    let rooks = popcnt(p.rooks & own) as i32 - popcnt(p.rooks & theirs) as i32;
    let queens = popcnt(p.queens & own) as i32 - popcnt(p.queens & theirs) as i32;
    100 * pawns + 300 * minors + 500 * rooks + 900 * queens
}

/// Squares attacked from square `s` by the piece of colour `white` on it.
pub open spec fn attacks_from(p: Position, white: bool, s: int) -> u64 {
    let own = p.side(white);
    let occ = p.occupied();
    (if has(p.pawns & own, s) { pawn_attacks_of(s, white) } else { 0u64 }) | (if has(
        (p.rooks | p.queens) & own,
        s,
    ) {
        rook_moves_of(s, occ)
    } else {
        0u64
    }) | (if has((p.bishops | p.queens) & own, s) {
        bishop_moves_of(s, occ)
    } else {
        0u64
    }) | (if has(p.knights & own, s) { knight_moves_of(s) } else { 0u64 }) | (if has(
        p.kings & own,
        s,
    ) {
        king_moves_of(s)
    } else {
        0u64
    })
}

/// Union of the attacks of colour `white` from the squares below `n`.
pub open spec fn attacks_below(p: Position, white: bool, n: nat) -> u64
    decreases n,
{
    if n == 0 {
        0
    } else {
        attacks_below(p, white, (n - 1) as nat) | attacks_from(p, white, n - 1)
    }
}

/// Every square that colour `white` attacks.
pub open spec fn attack_set_of(p: Position, white: bool) -> u64 {
    attacks_below(p, white, 64)
}

/// Every square that one colour attacks: pawn captures, rook and bishop
/// rays (queens both) against the current occupancy, knight leaps and king
/// steps.
pub fn get_attack_set(p: &Position, white: bool) -> (r: u64)
    ensures
        r == attack_set_of(*p, white),
{
    let own = if white { p.white } else { p.black };
    let occ = p.white | p.black;
    let pawns = p.pawns & own;
    let orth = (p.rooks | p.queens) & own;
    let diag = (p.bishops | p.queens) & own;
    let knights = p.knights & own;
    let kings = p.kings & own;
    let mut attacks: u64 = 0;
    let mut s: u8 = 0;
    while s < 64
        invariant
            s <= 64,
            own == p.side(white),
            occ == p.occupied(),
            pawns == p.pawns & own,
            orth == (p.rooks | p.queens) & own,
            diag == (p.bishops | p.queens) & own,
            knights == p.knights & own,
            kings == p.kings & own,
            attacks == attacks_below(*p, white, s as nat),
        decreases 64 - s,
    {
        let sh = s as u64;
        let a = (if (pawns >> sh) & 1 == 1 { pawn_attacks(s, white) } else { 0 }) | (if (orth
            >> sh) & 1 == 1 {
            rook_moves(s, occ)
        } else {
            0
        }) | (if (diag >> sh) & 1 == 1 {
            bishop_moves(s, occ)
        } else {
            0
        }) | (if (knights >> sh) & 1 == 1 { knight_moves(s) } else { 0 }) | (if (kings >> sh) & 1
            == 1 {
            king_moves(s)
        } else {
            0
        });
        attacks = attacks | a;
        s = s + 1;
    }
    attacks
}

/// Union of the king steps from the squares of `from` below `n`.
pub open spec fn spread_below(from: u64, n: nat) -> u64
    decreases n,
{
    if n == 0 {
        0
    } else {
        if has(from, n - 1) {
            spread_below(from, (n - 1) as nat) | king_moves_of(n - 1)
        } else {
            spread_below(from, (n - 1) as nat)
        }
    }
}

/// One round of the flood fill: every unblocked square one king step from
/// the king or from a square already reached joins the reached set.
pub open spec fn grow(reached: u64, king: u64, blocked: u64) -> u64 {
    reached | (spread_below(reached | king, 64) & !blocked)
}

/// The reached set after `k` rounds, starting from nothing.
pub open spec fn flood(king: u64, blocked: u64, k: nat) -> u64
    decreases k,
{
    if k == 0 {
        0
    } else {
        grow(flood(king, blocked, (k - 1) as nat), king, blocked)
    }
}

/// The squares a king of colour `white` can walk to by king steps without
/// crossing a square the opponent attacks. A path of king steps over
/// distinct squares is at most 63 steps long, so 64 rounds reach them all.
pub open spec fn king_region(p: Position, white: bool) -> u64 {
    flood(1u64 << (p.king_of(white) as u64), attack_set_of(p, !white), 64)
}

/// Size of the king's region.
pub open spec fn king_space_of(p: Position, white: bool) -> int {
    popcount(king_region(p, white)) as int
}

/// Once a round adds nothing, later rounds add nothing either.
proof fn lemma_flood_settles(king: u64, blocked: u64, k: nat, j: nat)
    requires
        k <= j,
        grow(flood(king, blocked, k), king, blocked) == flood(king, blocked, k),
    ensures
        flood(king, blocked, j) == flood(king, blocked, k),
    decreases j - k,
{
    if j > k {
        lemma_flood_settles(king, blocked, k, (j - 1) as nat);
    }
}

/// Union of the king steps from every square of `from`.
fn spread(from: u64) -> (r: u64)
    ensures
        r == spread_below(from, 64),
{
    let mut r: u64 = 0;
    let mut s: u8 = 0;
    while s < 64
        invariant
            s <= 64,
            r == spread_below(from, s as nat),
        decreases 64 - s,
    {
        if (from >> (s as u64)) & 1 == 1 {
            r = r | king_moves(s);
        }
        s = s + 1;
    }
    r
}

/// Number of squares the king of colour `white` can reach by king steps
/// over squares that the opponent does not attack.
pub fn king_space(p: &Position, white: bool) -> (r: i32)
    requires
        p.wf(),
    ensures
        r == king_space_of(*p, white),
        0 <= r <= 64,
{
    let blocked = get_attack_set(p, !white);
    let sq = if white { p.white_king } else { p.black_king };
    let king: u64 = 1u64 << (sq as u64);
    let mut reached: u64 = 0;
    let mut k: u32 = 0;
    while k < 64
        invariant
            k <= 64,
            blocked == attack_set_of(*p, !white),
            king == 1u64 << (p.king_of(white) as u64),
            reached == flood(king, blocked, k as nat),
        decreases 64 - k,
    {
        let next = reached | (spread(reached | king) & !blocked);
        if next == reached {
            proof {
                lemma_flood_settles(king, blocked, k as nat, 64);
            }
            k = 64;
        } else {
            reached = next;
            k = k + 1;
        }
    }
    popcnt(reached) as i32
}

/// Bonus of a pawn by its rank counted from its own side.
pub open spec fn rank_bonus(r: int) -> int {
    if r == 2 {
        4
    } else if r == 3 {
        10
    } else if r == 4 {
        15
    } else if r == 5 {
        19
    } else if r == 6 {
        25
    } else {
        0
    }
}

/// Rank of square `s` counted from the back rank of colour `white`.
pub open spec fn relative_rank(s: int, white: bool) -> int {
    if white { rank_of(s) } else { 7 - rank_of(s) }
}

/// Sum of the bonuses of the pawns in `pawns` below square `n`.
pub open spec fn advancedness_below(pawns: u64, white: bool, n: nat) -> int
    decreases n,
{
    if n == 0 {
        0
    } else {
        advancedness_below(pawns, white, (n - 1) as nat) + if has(pawns, n - 1) {
            rank_bonus(relative_rank(n - 1, white))
        } else {
            0
        }
    }
}

/// Sum of the rank bonuses of the pawns of colour `white`.
pub open spec fn advancedness_of(p: Position, white: bool) -> int {
    advancedness_below(p.pawns & p.side(white), white, 64)
}

/// Bonus of a pawn on relative rank `r`: `[0, 0, 4, 10, 15, 19, 25, 0]`.
fn bonus(r: u8) -> (b: i32)
    requires
        r < 8,
    ensures
        b == rank_bonus(r as int),
        0 <= b <= 25,
{
    if r == 2 {
        4
    } else if r == 3 {
        10
    } else if r == 4 {
        15
    } else if r == 5 {
        19
    } else if r == 6 {
        25
    } else {
        0
    }
}

/// Sum over the pawns of one colour of the bonus of their relative rank.
pub fn pawn_advancedness(p: &Position, white: bool) -> (r: i32)
    ensures
        r == advancedness_of(*p, white),
        0 <= r <= 1600,
{
    let pawns = p.pawns & if white { p.white } else { p.black };
    let mut score: i32 = 0;
    let mut s: u8 = 0;
    while s < 64
        invariant
            s <= 64,
            pawns == p.pawns & p.side(white),
            score == advancedness_below(pawns, white, s as nat),
            0 <= score <= 25 * s,
        decreases 64 - s,
    {
        if (pawns >> (s as u64)) & 1 == 1 {
            let rank = s / 8;
            let rel = if white { rank } else { 7 - rank };
            score = score + bonus(rel);
        }
        s = s + 1;
    }
    score
}

/// Static score for the side to move: material, plus own king space minus
/// the opponent's, plus own pawn advancedness minus the opponent's.
pub open spec fn evaluation_of(p: Position) -> int {
    let us = p.white_to_move;
    material_of(p) + king_space_of(p, us) - king_space_of(p, !us) + advancedness_of(p, us)
        - advancedness_of(p, !us)
}

/// Static score of a non-terminal position for the side to move.
pub fn evaluate(p: &Position) -> (r: i32)
    requires
        p.wf(),
    ensures
        r == evaluation_of(*p),
{
    let us = p.white_to_move;
    let m = material(p);
    proof {
        lemma_material_bounds(*p);
    }
    m + king_space(p, us) - king_space(p, !us) + pawn_advancedness(p, us) - pawn_advancedness(
        p,
        !us,
    )
}

/// At most 64 squares are set.
proof fn lemma_count_bound(b: u64, n: nat)
    ensures
        count_below(b, n) <= n,
    decreases n,
{
    if n > 0 {
        lemma_count_bound(b, (n - 1) as nat);
    }
}

/// Material lies within what 64 queens on either side could give.
proof fn lemma_material_bounds(p: Position)
    ensures
        -200_000 <= material_of(p) <= 200_000,
{
    let own = p.side(p.white_to_move);
    let theirs = p.side(!p.white_to_move);
    lemma_count_bound(p.pawns & own, 64);
    lemma_count_bound(p.pawns & theirs, 64);
    lemma_count_bound((p.knights | p.bishops) & own, 64);
    lemma_count_bound((p.knights | p.bishops) & theirs, 64);
    lemma_count_bound(p.rooks & own, 64);
    lemma_count_bound(p.rooks & theirs, 64);
    lemma_count_bound(p.queens & own, 64);
    lemma_count_bound(p.queens & theirs, 64);
}

} // verus!
