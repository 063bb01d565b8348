//! The board engine: two 64-bit occupancy masks and a turn counter.
//!
//! Bit `i` of a mask stands for square (x, y) with `i == y * 8 + x`.  Legal
//! moves and capture sets are computed by a six-step parallel-prefix flood
//! along each of the four axes, in both directions, constrained by an edge
//! mask that prevents wraparound.
use vstd::prelude::*;

verus! {

/// The two disc colors; the parity of `turn` selects which one moves next.
#[derive(Clone, Copy, Debug, PartialEq, Eq, Hash, PartialOrd, Ord, Structural)]
pub enum OthelloColor {
    Black,
    White,
}

/// Squares that have a left and a right neighbour (columns b..g).
pub const LR_EDGE_MASK: u64 = 0x7e7e7e7e7e7e7e7e;
/// Squares that have an upper and a lower neighbour (rows 2..7).
pub const TB_EDGE_MASK: u64 = 0x00FFFFFFFFFFFF00;
/// Squares interior in both coordinates (for the diagonal scans).
pub const LTRB_EDGE_MASK: u64 = 0x007e7e7e7e7e7e00;

/// An 8x8 board: disjoint occupancy masks for each color and a turn counter.
pub struct OthelloBoard {
    pub black: u64,
    pub white: u64,
    pub turn: u8,
}

/// One step of the flood: extend `r` by one more shift, staying inside `o`.
pub open spec fn flood_step(o: u64, r: u64, s: u64, down: bool) -> u64 {
    if down {
        r | (o & (r >> s))
    } else {
        r | (o & (r << s))
    }
}

/// The six-step flood of `o` seeded from `gen`, moving by `s` bits per step;
/// `down` selects the shift direction.  Six steps cover the longest interior
/// run an 8x8 board admits.
pub open spec fn flood(o: u64, gen: u64, s: u64, down: bool) -> u64 {
    let r1 = if down {
        o & (gen >> s)
    } else {
        o & (gen << s)
    };
    let r2 = flood_step(o, r1, s, down);
    let r3 = flood_step(o, r2, s, down);
    let r4 = flood_step(o, r3, s, down);
    let r5 = flood_step(o, r4, s, down);
    flood_step(o, r5, s, down)
}

/// Candidate squares one step beyond the opponent run seeded from the
/// player's own discs, for one axis and direction.
pub open spec fn dir_candidates(player: u64, opponent: u64, s: u64, mask: u64, down: bool) -> u64 {
    let f = flood(opponent & mask, player, s, down);
    if down {
        f >> s
    } else {
        f << s
    }
}

/// The opponent discs captured along one axis and direction by a disc placed
/// at `pos`: the flood seeded from `pos`, kept only when it is terminated by
/// one of the player's own discs.
pub open spec fn dir_flips(pos: u64, player: u64, opponent: u64, s: u64, mask: u64, down: bool) -> u64 {
    let f = flood(opponent & mask, pos, s, down);
    let beyond = if down {
        f >> s
    } else {
        f << s
    };
    if beyond & player != 0 {
        f
    } else {
        0
    }
}

/// The mask of the side to move.
pub open spec fn player_mask(b: OthelloBoard) -> u64 {
    if b.turn % 2 == 0 {
        b.black
    } else {
        b.white
    }
}

/// The mask of the side not to move.
pub open spec fn opponent_mask(b: OthelloBoard) -> u64 {
    if b.turn % 2 == 0 {
        b.white
    } else {
        b.black
    }
}

/// The color whose move it is.
pub open spec fn turn_color(turn: u8) -> OthelloColor {
    if turn % 2 == 0 {
        OthelloColor::Black
    } else {
        OthelloColor::White
    }
}

/// The set of empty squares where the side to move may legally place a disc:
/// the union over the four axes and two directions of the candidate squares,
/// masked by "currently empty".
pub open spec fn legal_moves_spec(b: OthelloBoard) -> u64 {
    let player = player_mask(b);
    let opponent = opponent_mask(b);
    let empty = !(player | opponent);
    (dir_candidates(player, opponent, 1, LR_EDGE_MASK, true)
        | dir_candidates(player, opponent, 1, LR_EDGE_MASK, false)
        | dir_candidates(player, opponent, 8, TB_EDGE_MASK, true)
        | dir_candidates(player, opponent, 8, TB_EDGE_MASK, false)
        | dir_candidates(player, opponent, 7, LTRB_EDGE_MASK, true)
        | dir_candidates(player, opponent, 7, LTRB_EDGE_MASK, false)
        | dir_candidates(player, opponent, 9, LTRB_EDGE_MASK, true)
        | dir_candidates(player, opponent, 9, LTRB_EDGE_MASK, false)) & empty
}

/// `p` holds exactly one set bit.
pub open spec fn single_bit(p: u64) -> bool {
    p != 0 && p & ((p - 1) as u64) == 0
}

/// A placement at `pos` is accepted exactly when `pos` is a single bit that
/// lies in the legal-move set.
pub open spec fn can_place_spec(b: OthelloBoard, pos: u64) -> bool {
    single_bit(pos) && legal_moves_spec(b) & pos != 0
}

/// The full capture set of a placement at `pos`: the union of the per-axis,
/// per-direction captures.
pub open spec fn flips_spec(b: OthelloBoard, pos: u64) -> u64 {
    let player = player_mask(b);
    let opponent = opponent_mask(b);
    dir_flips(pos, player, opponent, 1, LR_EDGE_MASK, true)
        | dir_flips(pos, player, opponent, 1, LR_EDGE_MASK, false)
        | dir_flips(pos, player, opponent, 8, TB_EDGE_MASK, true)
        | dir_flips(pos, player, opponent, 8, TB_EDGE_MASK, false)
        | dir_flips(pos, player, opponent, 7, LTRB_EDGE_MASK, true)
        | dir_flips(pos, player, opponent, 7, LTRB_EDGE_MASK, false)
        | dir_flips(pos, player, opponent, 9, LTRB_EDGE_MASK, true)
        | dir_flips(pos, player, opponent, 9, LTRB_EDGE_MASK, false)
}

/// The turn counter after a move; the counter wraps so that the operation is
/// total, and parity (the side to move) still alternates.
pub open spec fn next_turn(t: u8) -> u8 {
    if t == 255 {
        0
    } else {
        (t + 1) as u8
    }
}

/// The board after a placement at `pos`: unchanged when the placement is
/// illegal; otherwise the capture set and the placed disc move to the mover's
/// color, the captures leave the opponent's, and the turn advances.
pub open spec fn place_spec(b: OthelloBoard, pos: u64) -> OthelloBoard {
    if !can_place_spec(b, pos) {
        b
    } else {
        let to_flip = flips_spec(b, pos);
        let player = player_mask(b) ^ (to_flip | pos);
        let opponent = opponent_mask(b) ^ to_flip;
        if b.turn % 2 == 0 {
            OthelloBoard { black: player, white: opponent, turn: next_turn(b.turn) }
        } else {
            OthelloBoard { black: opponent, white: player, turn: next_turn(b.turn) }
        }
    }
}

/// The board reached by replaying `moves` in order with `place_spec`.
pub open spec fn replay(b: OthelloBoard, moves: Seq<u64>) -> OthelloBoard
    decreases moves.len(),
{
    if moves.len() == 0 {
        b
    } else {
        replay(place_spec(b, moves[0]), moves.skip(1))
    }
}

/// The flood never leaves the set it floods.
proof fn lemma_flood_subset(o: u64, gen: u64, s: u64, down: bool)
    ensures
        flood(o, gen, s, down) & !o == 0,
{
    assert(flood(o, gen, s, true) & !o == 0) by (bit_vector);
    assert(flood(o, gen, s, false) & !o == 0) by (bit_vector);
}

/// The capture set of one direction stays inside the opponent's discs.
proof fn lemma_dir_flips_subset(pos: u64, player: u64, opponent: u64, s: u64, mask: u64, down: bool)
    ensures
        dir_flips(pos, player, opponent, s, mask, down) & !opponent == 0,
{
    lemma_flood_subset(opponent & mask, pos, s, down);
    assert(forall|f: u64| f & !(opponent & mask) == 0 ==> f & !opponent == 0) by (bit_vector);
    assert((0u64) & !opponent == 0) by (bit_vector);
}

/// The whole capture set stays inside the opponent's discs.
proof fn lemma_flips_subset(b: OthelloBoard, pos: u64)
    ensures
        flips_spec(b, pos) & !opponent_mask(b) == 0,
{
    let player = player_mask(b);
    let opponent = opponent_mask(b);
    lemma_dir_flips_subset(pos, player, opponent, 1, LR_EDGE_MASK, true);
    lemma_dir_flips_subset(pos, player, opponent, 1, LR_EDGE_MASK, false);
    lemma_dir_flips_subset(pos, player, opponent, 8, TB_EDGE_MASK, true);
    lemma_dir_flips_subset(pos, player, opponent, 8, TB_EDGE_MASK, false);
    lemma_dir_flips_subset(pos, player, opponent, 7, LTRB_EDGE_MASK, true);
    lemma_dir_flips_subset(pos, player, opponent, 7, LTRB_EDGE_MASK, false);
    lemma_dir_flips_subset(pos, player, opponent, 9, LTRB_EDGE_MASK, true);
    lemma_dir_flips_subset(pos, player, opponent, 9, LTRB_EDGE_MASK, false);
    let f1 = dir_flips(pos, player, opponent, 1, LR_EDGE_MASK, true);
    let f2 = dir_flips(pos, player, opponent, 1, LR_EDGE_MASK, false);
    let f3 = dir_flips(pos, player, opponent, 8, TB_EDGE_MASK, true);
    let f4 = dir_flips(pos, player, opponent, 8, TB_EDGE_MASK, false);
    let f5 = dir_flips(pos, player, opponent, 7, LTRB_EDGE_MASK, true);
    let f6 = dir_flips(pos, player, opponent, 7, LTRB_EDGE_MASK, false);
    let f7 = dir_flips(pos, player, opponent, 9, LTRB_EDGE_MASK, true);
    let f8 = dir_flips(pos, player, opponent, 9, LTRB_EDGE_MASK, false);
    assert((f1 | f2 | f3 | f4 | f5 | f6 | f7 | f8) & !opponent == 0) by (bit_vector)
        requires
            f1 & !opponent == 0,
            f2 & !opponent == 0,
            f3 & !opponent == 0,
            f4 & !opponent == 0,
            f5 & !opponent == 0,
            f6 & !opponent == 0,
            f7 & !opponent == 0,
            f8 & !opponent == 0,
    ;
}

/// The legal-move set contains only empty squares.
proof fn lemma_legal_moves_empty(b: OthelloBoard)
    ensures
        legal_moves_spec(b) & (b.black | b.white) == 0,
{
    let player = player_mask(b);
    let opponent = opponent_mask(b);
    let legal = legal_moves_spec(b);
    let bl = b.black;
    let wh = b.white;
    assert(legal & !(player | opponent) == legal) by {
        let raw = (dir_candidates(player, opponent, 1, LR_EDGE_MASK, true)
            | dir_candidates(player, opponent, 1, LR_EDGE_MASK, false)
            | dir_candidates(player, opponent, 8, TB_EDGE_MASK, true)
            | dir_candidates(player, opponent, 8, TB_EDGE_MASK, false)
            | dir_candidates(player, opponent, 7, LTRB_EDGE_MASK, true)
            | dir_candidates(player, opponent, 7, LTRB_EDGE_MASK, false)
            | dir_candidates(player, opponent, 9, LTRB_EDGE_MASK, true)
            | dir_candidates(player, opponent, 9, LTRB_EDGE_MASK, false));
        assert((raw & !(player | opponent)) & !(player | opponent) == raw & !(player | opponent))
            by (bit_vector);
    }
    if b.turn % 2 == 0 {
        assert(legal & (bl | wh) == 0) by (bit_vector)
            requires
                legal & !(player | opponent) == legal,
                player == bl,
                opponent == wh,
        ;
    } else {
        assert(legal & (bl | wh) == 0) by (bit_vector)
            requires
                legal & !(player | opponent) == legal,
                player == wh,
                opponent == bl,
        ;
    }
}

/// An accepted placement lands on an empty square.
proof fn lemma_can_place_pos_empty(b: OthelloBoard, pos: u64)
    requires
        can_place_spec(b, pos),
    ensures
        pos & (b.black | b.white) == 0,
{
    lemma_legal_moves_empty(b);
    let legal = legal_moves_spec(b);
    let bl = b.black;
    let wh = b.white;
    assert(pos & (bl | wh) == 0) by (bit_vector)
        requires
            pos != 0,
            pos & ((pos - 1) as u64) == 0,
            legal & pos != 0,
            legal & (bl | wh) == 0,
    ;
}

/// A legal placement keeps the two occupancy masks disjoint and the capture
/// set disjoint from both the placed disc and the mover's own discs.
proof fn lemma_place_parts(b: OthelloBoard, pos: u64)
    requires
        can_place_spec(b, pos),
    ensures
        flips_spec(b, pos) & pos == 0,
        flips_spec(b, pos) & player_mask(b) == 0 || b.black & b.white != 0,
        b.black & b.white == 0 ==> (player_mask(b) ^ (flips_spec(b, pos) | pos)) & (opponent_mask(b)
            ^ flips_spec(b, pos)) == 0,
{
    lemma_flips_subset(b, pos);
    lemma_can_place_pos_empty(b, pos);
    let to_flip = flips_spec(b, pos);
    let player = player_mask(b);
    let opponent = opponent_mask(b);
    let bl = b.black;
    let wh = b.white;
    if b.turn % 2 == 0 {
        assert(to_flip & pos == 0 && (bl & wh == 0 ==> to_flip & player == 0 && (player ^ (
        to_flip | pos)) & (opponent ^ to_flip) == 0)) by (bit_vector)
            requires
                to_flip & !opponent == 0,
                pos & (bl | wh) == 0,
                player == bl,
                opponent == wh,
        ;
    } else {
        assert(to_flip & pos == 0 && (bl & wh == 0 ==> to_flip & player == 0 && (player ^ (
        to_flip | pos)) & (opponent ^ to_flip) == 0)) by (bit_vector)
            requires
                to_flip & !opponent == 0,
                pos & (bl | wh) == 0,
                player == wh,
                opponent == bl,
        ;
    }
}

/// A candidate square found by flooding down from the player's discs is, in
/// reverse, the seed of an upward flood that reaches a player disc.
proof fn lemma_candidate_reverses_down(o: u64, g: u64, pos: u64, s: u64)
    requires
        s < 64,
        pos != 0,
        pos & ((pos - 1) as u64) == 0,
        pos & (flood(o, g, s, true) >> s) != 0,
    ensures
        (flood(o, pos, s, false) << s) & g != 0,
        flood(o, pos, s, false) != 0,
{
    assert((flood(o, pos, s, false) << s) & g != 0 && flood(o, pos, s, false) != 0) by (bit_vector)
        requires
            s < 64,
            pos != 0,
            pos & ((pos - 1) as u64) == 0,
            pos & (flood(o, g, s, true) >> s) != 0,
    ;
}

/// The mirror image of `lemma_candidate_reverses_down` for the other scan
/// direction.
proof fn lemma_candidate_reverses_up(o: u64, g: u64, pos: u64, s: u64)
    requires
        s < 64,
        pos != 0,
        pos & ((pos - 1) as u64) == 0,
        pos & (flood(o, g, s, false) << s) != 0,
    ensures
        (flood(o, pos, s, true) >> s) & g != 0,
        flood(o, pos, s, true) != 0,
{
    assert((flood(o, pos, s, true) >> s) & g != 0 && flood(o, pos, s, true) != 0) by (bit_vector)
        requires
            s < 64,
            pos != 0,
            pos & ((pos - 1) as u64) == 0,
            pos & (flood(o, g, s, false) << s) != 0,
    ;
}

/// A legal placement always captures at least one disc: every candidate
/// square comes from a flood that, replayed from the placed disc in the
/// opposite direction, ends on one of the mover's own discs.
pub proof fn lemma_legal_move_flips(b: OthelloBoard, pos: u64)
    requires
        can_place_spec(b, pos),
    ensures
        flips_spec(b, pos) != 0,
{
    let player = player_mask(b);
    let opponent = opponent_mask(b);
    let c1 = dir_candidates(player, opponent, 1, LR_EDGE_MASK, true);
    let c2 = dir_candidates(player, opponent, 1, LR_EDGE_MASK, false);
    let c3 = dir_candidates(player, opponent, 8, TB_EDGE_MASK, true);
    let c4 = dir_candidates(player, opponent, 8, TB_EDGE_MASK, false);
    let c5 = dir_candidates(player, opponent, 7, LTRB_EDGE_MASK, true);
    let c6 = dir_candidates(player, opponent, 7, LTRB_EDGE_MASK, false);
    let c7 = dir_candidates(player, opponent, 9, LTRB_EDGE_MASK, true);
    let c8 = dir_candidates(player, opponent, 9, LTRB_EDGE_MASK, false);
    let legal = legal_moves_spec(b);
    assert(pos & c1 != 0 || pos & c2 != 0 || pos & c3 != 0 || pos & c4 != 0 || pos & c5 != 0 || pos
        & c6 != 0 || pos & c7 != 0 || pos & c8 != 0) by (bit_vector)
        requires
            legal & pos != 0,
            legal == (c1 | c2 | c3 | c4 | c5 | c6 | c7 | c8) & !(player | opponent),
    ;
    if pos & c1 != 0 {
        lemma_candidate_reverses_down(opponent & LR_EDGE_MASK, player, pos, 1);
        assert(dir_flips(pos, player, opponent, 1, LR_EDGE_MASK, false) != 0);
    } else if pos & c2 != 0 {
        lemma_candidate_reverses_up(opponent & LR_EDGE_MASK, player, pos, 1);
        assert(dir_flips(pos, player, opponent, 1, LR_EDGE_MASK, true) != 0);
    } else if pos & c3 != 0 {
        lemma_candidate_reverses_down(opponent & TB_EDGE_MASK, player, pos, 8);
        assert(dir_flips(pos, player, opponent, 8, TB_EDGE_MASK, false) != 0);
    } else if pos & c4 != 0 {
        lemma_candidate_reverses_up(opponent & TB_EDGE_MASK, player, pos, 8);
        assert(dir_flips(pos, player, opponent, 8, TB_EDGE_MASK, true) != 0);
    } else if pos & c5 != 0 {
        lemma_candidate_reverses_down(opponent & LTRB_EDGE_MASK, player, pos, 7);
        assert(dir_flips(pos, player, opponent, 7, LTRB_EDGE_MASK, false) != 0);
    } else if pos & c6 != 0 {
        lemma_candidate_reverses_up(opponent & LTRB_EDGE_MASK, player, pos, 7);
        assert(dir_flips(pos, player, opponent, 7, LTRB_EDGE_MASK, true) != 0);
    } else if pos & c7 != 0 {
        lemma_candidate_reverses_down(opponent & LTRB_EDGE_MASK, player, pos, 9);
        assert(dir_flips(pos, player, opponent, 9, LTRB_EDGE_MASK, false) != 0);
    } else {
        lemma_candidate_reverses_up(opponent & LTRB_EDGE_MASK, player, pos, 9);
        assert(dir_flips(pos, player, opponent, 9, LTRB_EDGE_MASK, true) != 0);
    }
    let f1 = dir_flips(pos, player, opponent, 1, LR_EDGE_MASK, true);
    let f2 = dir_flips(pos, player, opponent, 1, LR_EDGE_MASK, false);
    let f3 = dir_flips(pos, player, opponent, 8, TB_EDGE_MASK, true);
    let f4 = dir_flips(pos, player, opponent, 8, TB_EDGE_MASK, false);
    let f5 = dir_flips(pos, player, opponent, 7, LTRB_EDGE_MASK, true);
    let f6 = dir_flips(pos, player, opponent, 7, LTRB_EDGE_MASK, false);
    let f7 = dir_flips(pos, player, opponent, 9, LTRB_EDGE_MASK, true);
    let f8 = dir_flips(pos, player, opponent, 9, LTRB_EDGE_MASK, false);
    assert((f1 | f2 | f3 | f4 | f5 | f6 | f7 | f8) != 0) by (bit_vector)
        requires
            f1 != 0 || f2 != 0 || f3 != 0 || f4 != 0 || f5 != 0 || f6 != 0 || f7 != 0 || f8 != 0,
    ;
}

/// A legal placement adds exactly the placed disc to the occupancy: the
/// union of the two masks grows by `pos` and nothing else.
pub proof fn lemma_place_spec_occupancy(b: OthelloBoard, pos: u64)
    requires
        b.black & b.white == 0,
        can_place_spec(b, pos),
    ensures
        place_spec(b, pos).black | place_spec(b, pos).white == (b.black | b.white | pos),
{
    lemma_place_parts(b, pos);
    lemma_flips_subset(b, pos);
    lemma_can_place_pos_empty(b, pos);
    let to_flip = flips_spec(b, pos);
    let player = player_mask(b);
    let opponent = opponent_mask(b);
    let bl = b.black;
    let wh = b.white;
    if b.turn % 2 == 0 {
        assert((player ^ (to_flip | pos)) | (opponent ^ to_flip) == (bl | wh | pos)) by (bit_vector)
            requires
                to_flip & !opponent == 0,
                pos & (bl | wh) == 0,
                player == bl,
                opponent == wh,
                bl & wh == 0,
        ;
    } else {
        assert((opponent ^ to_flip) | (player ^ (to_flip | pos)) == (bl | wh | pos)) by (bit_vector)
            requires
                to_flip & !opponent == 0,
                pos & (bl | wh) == 0,
                player == wh,
                opponent == bl,
                bl & wh == 0,
        ;
    }
}

/// Any placement, legal or not, keeps `black & white == 0`.
pub proof fn lemma_place_spec_disjoint(b: OthelloBoard, pos: u64)
    requires
        b.black & b.white == 0,
    ensures
        place_spec(b, pos).black & place_spec(b, pos).white == 0,
{
    if can_place_spec(b, pos) {
        lemma_place_parts(b, pos);
        let to_flip = flips_spec(b, pos);
        let player = player_mask(b) ^ (to_flip | pos);
        let opponent = opponent_mask(b) ^ to_flip;
        assert(opponent & player == 0) by (bit_vector)
            requires
                player & opponent == 0,
        ;
    }
}

/// Every state reachable from a state with disjoint masks again has disjoint
/// masks: `black & white == 0` holds of every board a replay can produce.
pub proof fn lemma_replay_disjoint(b: OthelloBoard, moves: Seq<u64>)
    requires
        b.black & b.white == 0,
    ensures
        replay(b, moves).black & replay(b, moves).white == 0,
    decreases moves.len(),
{
    if moves.len() > 0 {
        lemma_place_spec_disjoint(b, moves[0]);
        lemma_replay_disjoint(place_spec(b, moves[0]), moves.skip(1));
    }
}

/// Replay is a function of the starting state and the move sequence alone:
/// two replays of the same moves from equal states end in equal states.
pub proof fn lemma_replay_deterministic(b1: OthelloBoard, b2: OthelloBoard, moves: Seq<u64>)
    requires
        b1 == b2,
    ensures
        replay(b1, moves) == replay(b2, moves),
{
}

/// The six-step flood in the shift-down direction.
fn flood_down(o: u64, gen: u64, s: u64) -> (r: u64)
    requires
        s < 64,
    ensures
        r == flood(o, gen, s, true),
{
    let r1 = o & (gen >> s);
    let r2 = r1 | (o & (r1 >> s));
    let r3 = r2 | (o & (r2 >> s));
    let r4 = r3 | (o & (r3 >> s));
    let r5 = r4 | (o & (r4 >> s));
    r5 | (o & (r5 >> s))
}

/// The six-step flood in the shift-up direction.
fn flood_up(o: u64, gen: u64, s: u64) -> (r: u64)
    requires
        s < 64,
    ensures
        r == flood(o, gen, s, false),
{
    let r1 = o & (gen << s);
    let r2 = r1 | (o & (r1 << s));
    let r3 = r2 | (o & (r2 << s));
    let r4 = r3 | (o & (r3 << s));
    let r5 = r4 | (o & (r4 << s));
    r5 | (o & (r5 << s))
}

impl OthelloBoard {
    /// The canonical starting position: four center squares, two per color in
    /// a diagonal pattern, with the first color to move.
    pub fn new() -> (b: OthelloBoard)
        ensures
            b.black == 0x0000000810000000u64,
            b.white == 0x0000001008000000u64,
            b.turn == 0,
            b.black & b.white == 0,
    {
        let b = OthelloBoard { black: 0x0000000810000000, white: 0x0000001008000000, turn: 0 };
        proof {
            assert(0x0000000810000000u64 & 0x0000001008000000u64 == 0) by (bit_vector);
        }
        b
    }

    /// The color whose move it is, selected by the parity of `turn`.
    pub fn get_turn(&self) -> (c: OthelloColor)
        ensures
            c == turn_color(self.turn),
    {
        if self.turn % 2 == 0 {
            OthelloColor::Black
        } else {
            OthelloColor::White
        }
    }

    /// The occupancy masks of the side to move and of its opponent, in that
    /// order.
    pub fn get_current_player_and_opponent(&self) -> (r: (u64, u64))
        ensures
            r.0 == player_mask(*self),
            r.1 == opponent_mask(*self),
    {
        match self.get_turn() {
            OthelloColor::Black => (self.black, self.white),
            OthelloColor::White => (self.white, self.black),
        }
    }

    /// The set of empty squares where the side to move may legally place a
    /// disc, computed by the six-step parallel-prefix flood per axis and
    /// direction.
    pub fn legal_moves(&self) -> (r: u64)
        ensures
            r == legal_moves_spec(*self),
            r & (self.black | self.white) == 0,
    {
        let (player, opponent) = self.get_current_player_and_opponent();
        let empty_squares = !(player | opponent);

        let c1 = flood_down(opponent & LR_EDGE_MASK, player, 1) >> 1u64;
        let c2 = flood_up(opponent & LR_EDGE_MASK, player, 1) << 1u64;
        let c3 = flood_down(opponent & TB_EDGE_MASK, player, 8) >> 8u64;
        let c4 = flood_up(opponent & TB_EDGE_MASK, player, 8) << 8u64;
        let c5 = flood_down(opponent & LTRB_EDGE_MASK, player, 7) >> 7u64;
        let c6 = flood_up(opponent & LTRB_EDGE_MASK, player, 7) << 7u64;
        let c7 = flood_down(opponent & LTRB_EDGE_MASK, player, 9) >> 9u64;
        let c8 = flood_up(opponent & LTRB_EDGE_MASK, player, 9) << 9u64;
        let legal = (c1 | c2 | c3 | c4 | c5 | c6 | c7 | c8) & empty_squares;
        proof {
            lemma_legal_moves_empty(*self);
        }
        legal
    }

    /// True exactly when `pos` is a single set bit that lies in the
    /// legal-move set.
    pub fn can_place(&self, pos: u64) -> (r: bool)
        ensures
            r == can_place_spec(*self, pos),
    {
        pos != 0 && pos & (pos - 1) == 0 && self.legal_moves() & pos != 0
    }

    /// `can_place` for the square at column `x`, row `y`; false when either
    /// coordinate is off the board.
    pub fn can_place_pos(&self, x: u8, y: u8) -> (r: bool)
        ensures
            r == (x < 8 && y < 8 && can_place_spec(*self, 1u64 << (y * 8 + x))),
    {
        if x >= 8 || y >= 8 {
            return false;
        }
        let pos = 1u64 << (y * 8 + x);
        self.can_place(pos)
    }

    /// Place a disc at `pos` for the side to move.  An illegal placement
    /// leaves the state unchanged and returns false; a legal one flips the
    /// captured discs, records the placed disc, advances the turn, and
    /// returns true.  Disjointness of the two masks is preserved.
    pub fn place(&mut self, pos: u64) -> (r: bool)
        ensures
            r == can_place_spec(*old(self), pos),
            *final(self) == place_spec(*old(self), pos),
            !r ==> *final(self) == *old(self),
            old(self).black & old(self).white == 0 ==> final(self).black & final(self).white == 0,
    {
        if !self.can_place(pos) {
            return false;
        }

        let (player, opponent) = self.get_current_player_and_opponent();

        let f1 = {
            let l = flood_down(opponent & LR_EDGE_MASK, pos, 1);
            if (l >> 1u64) & player != 0 {
                l
            } else {
                0
            }
        };
        let f2 = {
            let l = flood_up(opponent & LR_EDGE_MASK, pos, 1);
            if (l << 1u64) & player != 0 {
                l
            } else {
                0
            }
        };
        let f3 = {
            let l = flood_down(opponent & TB_EDGE_MASK, pos, 8);
            if (l >> 8u64) & player != 0 {
                l
            } else {
                0
            }
        };
        let f4 = {
            let l = flood_up(opponent & TB_EDGE_MASK, pos, 8);
            if (l << 8u64) & player != 0 {
                l
            } else {
                0
            }
        };
        let f5 = {
            let l = flood_down(opponent & LTRB_EDGE_MASK, pos, 7);
            if (l >> 7u64) & player != 0 {
                l
            } else {
                0
            }
        };
        let f6 = {
            let l = flood_up(opponent & LTRB_EDGE_MASK, pos, 7);
            if (l << 7u64) & player != 0 {
                l
            } else {
                0
            }
        };
        let f7 = {
            let l = flood_down(opponent & LTRB_EDGE_MASK, pos, 9);
            if (l >> 9u64) & player != 0 {
                l
            } else {
                0
            }
        };
        let f8 = {
            let l = flood_up(opponent & LTRB_EDGE_MASK, pos, 9);
            if (l << 9u64) & player != 0 {
                l
            } else {
                0
            }
        };
        let to_flip = f1 | f2 | f3 | f4 | f5 | f6 | f7 | f8;

        let new_player = player ^ (to_flip | pos);
        let new_opponent = opponent ^ to_flip;

        proof {
            if old(self).black & old(self).white == 0 {
                lemma_place_spec_disjoint(*old(self), pos);
            }
        }

        if self.turn % 2 == 0 {
            self.black = new_player;
            self.white = new_opponent;
        } else {
            self.white = new_player;
            self.black = new_opponent;
        }
        self.turn = if self.turn == 255 {
            0
        } else {
            self.turn + 1
        };
        true
    }

    /// Place a disc at `pos` exactly as `place` does, returning the set of
    /// discs that changed ownership (the placed disc excluded); an illegal
    /// placement returns the empty set and changes nothing.
    pub fn place_and_return_inversions(&mut self, pos: u64) -> (r: u64)
        ensures
            *final(self) == place_spec(*old(self), pos),
            can_place_spec(*old(self), pos) ==> r == flips_spec(*old(self), pos),
            !can_place_spec(*old(self), pos) ==> r == 0 && *final(self) == *old(self),
            old(self).black & old(self).white == 0 ==> final(self).black & final(self).white == 0,
    {
        let turn = self.get_turn();
        let player_before = match turn {
            OthelloColor::Black => self.black,
            OthelloColor::White => self.white,
        };
        let ghost b0 = *self;
        if !self.place(pos) {
            return 0;
        }
        let player_after = match turn {
            OthelloColor::Black => self.black,
            OthelloColor::White => self.white,
        };
        proof {
            lemma_place_parts(b0, pos);
            let to_flip = flips_spec(b0, pos);
            assert(player_before ^ (player_before ^ (to_flip | pos)) ^ pos == to_flip)
                by (bit_vector)
                requires
                    to_flip & pos == 0,
            ;
        }
        player_before ^ player_after ^ pos
    }
}

} // verus!
