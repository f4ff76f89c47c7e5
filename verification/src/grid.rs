//! The logical grid model: the authoritative store of pieces, keyed by
//! stable handles, with the occupancy-preserving mutations the interaction
//! pipeline applies.

use vstd::prelude::*;
use crate::board::{Position, BOARD_SIZE};
use crate::pieces::{Army, Piece, PieceColor, PieceType};

verus! {

broadcast use vstd::seq_lib::group_filter_ensures;

/// No two pieces share a handle.
pub open spec fn ids_unique(s: Seq<Piece>) -> bool {
    forall|i: int, j: int| #![trigger s[i], s[j]] 0 <= i < j < s.len() ==> s[i].id != s[j].id
}

/// The occupancy invariant: two pieces share a coordinate only when that
/// coordinate is the detached sentinel. In particular at most one piece
/// occupies any on-board cell.
pub open spec fn occupancy_ok(s: Seq<Piece>) -> bool {
    forall|i: int, j: int| #![trigger s[i], s[j]]
        0 <= i < j < s.len() && s[i].pos == s[j].pos ==> s[i].pos.is_sentinel()
}

/// Every piece sits on the sentinel or within the unclamped pointer range
/// `[0, BOARD_SIZE]` per axis (a drop at the window's far edge lands at
/// `BOARD_SIZE`, which is off-board but representable).
pub open spec fn positions_in_range(s: Seq<Piece>) -> bool {
    forall|i: int|
        0 <= i < s.len() ==> ((#[trigger] s[i]).pos.is_sentinel() || (0 <= s[i].pos.x
            <= BOARD_SIZE && 0 <= s[i].pos.y <= BOARD_SIZE))
}

/// Whether some piece carries the handle `id`.
pub open spec fn has_id(s: Seq<Piece>, id: u64) -> bool {
    exists|i: int| 0 <= i < s.len() && (#[trigger] s[i]).id == id
}

/// The index of the piece with handle `id` (unique when `ids_unique` holds).
pub open spec fn index_of_id(s: Seq<Piece>, id: u64) -> int {
    choose|i: int| 0 <= i < s.len() && (#[trigger] s[i]).id == id
}

/// Whether some piece occupies the coordinate `c`.
pub open spec fn at_cell(s: Seq<Piece>, c: Position) -> bool {
    exists|i: int| 0 <= i < s.len() && (#[trigger] s[i]).pos == c
}

/// The store with every piece at `c` deleted, order preserved.
pub open spec fn cleared(s: Seq<Piece>, c: Position) -> Seq<Piece> {
    s.filter(|p: Piece| p.pos != c)
}

/// The handles of the pieces at `c`, in store order.
pub open spec fn ids_at(s: Seq<Piece>, c: Position) -> Seq<u64> {
    s.filter(|p: Piece| p.pos == c).map_values(|p: Piece| p.id)
}

/// The piece `p` moved to coordinate `c`.
pub open spec fn moved(p: Piece, c: Position) -> Piece {
    Piece { id: p.id, pos: c, kind: p.kind, army: p.army, color: p.color }
}

/// Piece `i` of the startup layout: board setup creates, column by column, a
/// black Nemesis pawn on rank 6 followed by a white Classic pawn on rank 1.
pub open spec fn spec_starting_piece(i: int) -> Piece {
    Piece {
        id: i as u64,
        pos: Position {
            x: (i / 2) as i32,
            y: if i % 2 == 0 {
                6i32
            } else {
                1i32
            },
        },
        kind: PieceType::Pawn,
        army: if i % 2 == 0 {
            Army::Nemesis
        } else {
            Army::Classic
        },
        color: if i % 2 == 0 {
            PieceColor::Black
        } else {
            PieceColor::White
        },
    }
}

/// Every element of a filtered store is an element of the store.
pub proof fn lemma_filter_membership(s: Seq<Piece>, pred: spec_fn(Piece) -> bool)
    ensures
        forall|i: int|
            0 <= i < s.filter(pred).len() ==> exists|j: int|
                0 <= j < s.len() && s[j] == #[trigger] s.filter(pred)[i],
    decreases s.len(),
{
    reveal(Seq::filter);
    if s.len() > 0 {
        lemma_filter_membership(s.drop_last(), pred);
        let t = s.drop_last().filter(pred);
        assert forall|i: int| 0 <= i < s.filter(pred).len() implies exists|j: int|
            0 <= j < s.len() && s[j] == #[trigger] s.filter(pred)[i] by {
            if i < t.len() {
                assert(s.filter(pred)[i] == t[i]);
                let j = choose|j: int| 0 <= j < s.drop_last().len() && s.drop_last()[j] == t[i];
                assert(s[j] == s.filter(pred)[i]);
            } else {
                assert(s.filter(pred)[i] == s.last());
                assert(s[s.len() - 1] == s.filter(pred)[i]);
            }
        }
    }
}

/// Filtering preserves handle uniqueness.
pub proof fn lemma_filter_ids_unique(s: Seq<Piece>, pred: spec_fn(Piece) -> bool)
    requires
        ids_unique(s),
    ensures
        ids_unique(s.filter(pred)),
    decreases s.len(),
{
    reveal(Seq::filter);
    if s.len() > 0 {
        lemma_filter_ids_unique(s.drop_last(), pred);
        lemma_filter_membership(s.drop_last(), pred);
        let t = s.drop_last().filter(pred);
        if pred(s.last()) {
            assert forall|i: int, j: int| #![trigger s.filter(pred)[i], s.filter(pred)[j]]
                0 <= i < j < s.filter(pred).len() implies s.filter(pred)[i].id != s.filter(
                pred,
            )[j].id by {
                if j < t.len() {
                    assert(s.filter(pred)[i] == t[i] && s.filter(pred)[j] == t[j]);
                } else {
                    assert(s.filter(pred)[j] == s.last());
                    assert(s.filter(pred)[i] == t[i]);
                    let m = choose|m: int|
                        0 <= m < s.drop_last().len() && s.drop_last()[m] == t[i];
                    assert(s[m] == t[i] && m < s.len() - 1);
                    assert(s[s.len() - 1] == s.last());
                }
            }
        }
    }
}

/// Filtering preserves the occupancy invariant.
pub proof fn lemma_filter_occupancy(s: Seq<Piece>, pred: spec_fn(Piece) -> bool)
    requires
        occupancy_ok(s),
    ensures
        occupancy_ok(s.filter(pred)),
    decreases s.len(),
{
    reveal(Seq::filter);
    if s.len() > 0 {
        lemma_filter_occupancy(s.drop_last(), pred);
        lemma_filter_membership(s.drop_last(), pred);
        let t = s.drop_last().filter(pred);
        if pred(s.last()) {
            assert forall|i: int, j: int| #![trigger s.filter(pred)[i], s.filter(pred)[j]]
                0 <= i < j < s.filter(pred).len() && s.filter(pred)[i].pos == s.filter(
                pred,
            )[j].pos implies s.filter(pred)[i].pos.is_sentinel() by {
                if j < t.len() {
                    assert(s.filter(pred)[i] == t[i] && s.filter(pred)[j] == t[j]);
                } else {
                    assert(s.filter(pred)[j] == s.last());
                    assert(s.filter(pred)[i] == t[i]);
                    let m = choose|m: int|
                        0 <= m < s.drop_last().len() && s.drop_last()[m] == t[i];
                    assert(s[m] == t[i] && m < s.len() - 1);
                    assert(s[s.len() - 1] == s.last());
                }
            }
        }
    }
}

/// Filtering preserves the position range bound.
pub proof fn lemma_filter_positions_in_range(s: Seq<Piece>, pred: spec_fn(Piece) -> bool)
    requires
        positions_in_range(s),
    ensures
        positions_in_range(s.filter(pred)),
{
    lemma_filter_membership(s, pred);
    assert forall|i: int|
        0 <= i < s.filter(pred).len() implies ((#[trigger] s.filter(pred)[i]).pos.is_sentinel() || (
    0 <= s.filter(pred)[i].pos.x <= BOARD_SIZE && 0 <= s.filter(pred)[i].pos.y
        <= BOARD_SIZE)) by {
        let j = choose|j: int| 0 <= j < s.len() && s[j] == s.filter(pred)[i];
        assert(s[j].pos.is_sentinel() || (0 <= s[j].pos.x <= BOARD_SIZE && 0 <= s[j].pos.y
            <= BOARD_SIZE));
    }
}

/// One step of a filter over a growing prefix, for loop invariants.
pub proof fn lemma_filter_take_step(s: Seq<Piece>, pred: spec_fn(Piece) -> bool, i: int)
    requires
        0 <= i < s.len(),
    ensures
        s.take(i + 1).filter(pred) == if pred(s[i]) {
            s.take(i).filter(pred).push(s[i])
        } else {
            s.take(i).filter(pred)
        },
{
    reveal(Seq::filter);
    assert(s.take(i + 1) =~= s.take(i).push(s[i]));
    assert(s.take(i + 1).drop_last() =~= s.take(i));
    assert(s.take(i + 1).last() == s[i]);
}

/// Outcome of `place`: the handle of the created piece, and the handles of
/// the pieces that had to be deleted first to keep the cell singly occupied
/// (the non-fatal occupied-cell-overwritten condition).
pub struct PlaceOutcome {
    pub piece: u64,
    pub removed: Vec<u64>,
}

/// The authoritative piece store. It guarantees stable, unique handles;
/// occupancy of cells is a property its callers preserve through the
/// clear-before-occupy mutations below (`move_piece` deliberately does not
/// re-check occupancy itself).
pub struct GridModel {
    pieces: Vec<Piece>,
    next_id: u64,
}

impl View for GridModel {
    type V = Seq<Piece>;

    closed spec fn view(&self) -> Seq<Piece> {
        self.pieces@
    }
}

impl GridModel {
    /// Handle that the next created piece will receive.
    pub closed spec fn next_handle(self) -> u64 {
        self.next_id
    }

    /// Well-formedness: handles are unique and below the fresh-handle counter.
    pub open spec fn wf(self) -> bool {
        &&& ids_unique(self@)
        &&& forall|i: int| 0 <= i < self@.len() ==> (#[trigger] self@[i]).id < self.next_handle()
    }

    /// An empty board.
    pub fn new() -> (g: GridModel)
        ensures
            g@.len() == 0,
            g.next_handle() == 0,
            g.wf(),
    {
        GridModel { pieces: Vec::new(), next_id: 0 }
    }

    /// Whether a fresh handle is still available; callers check this before
    /// an operation that may create a piece.
    pub fn can_allocate(&self) -> (b: bool)
        ensures
            b == (self.next_handle() < u64::MAX),
    {
        self.next_id < u64::MAX
    }

    /// Number of pieces in the store, detached ones included.
    pub fn count(&self) -> (n: usize)
        ensures
            n == self@.len(),
    {
        self.pieces.len()
    }

    /// The piece at store index `i`.
    pub fn get(&self, i: usize) -> (p: Piece)
        requires
            i < self@.len(),
        ensures
            p == self@[i as int],
    {
        self.pieces[i]
    }

    /// The handle of the first piece at `c`, if the cell is occupied.
    pub fn occupant_at(&self, c: Position) -> (r: Option<u64>)
        ensures
            r is Some <==> at_cell(self@, c),
            r matches Some(id) ==> exists|i: int|
                0 <= i < self@.len() && (#[trigger] self@[i]).pos == c && self@[i].id == id && (
                forall|j: int| 0 <= j < i ==> self@[j].pos != c),
    {
        let n = self.pieces.len();
        let mut i: usize = 0;
        while i < n
            invariant
                n == self@.len(),
                i <= n,
                forall|j: int| 0 <= j < i ==> self@[j].pos != c,
            decreases n - i,
        {
            if self.pieces[i].pos == c {
                return Some(self.pieces[i].id);
            }
            i = i + 1;
        }
        None
    }

    /// Creates a fresh piece at `c` with the given catalog triple.
    pub fn spawn(&mut self, c: Position, kind: PieceType, army: Army, color: PieceColor) -> (id:
        u64)
        requires
            old(self).wf(),
            old(self).next_handle() < u64::MAX,
        ensures
            id == old(self).next_handle(),
            final(self)@ == old(self)@.push(
                Piece { id, pos: c, kind, army, color },
            ),
            final(self).next_handle() == old(self).next_handle() + 1,
            final(self).wf(),
    {
        let id = self.next_id;
        self.pieces.push(Piece { id, pos: c, kind, army, color });
        self.next_id = self.next_id + 1;
        id
    }

    /// Deletes every piece at cell `c` (a no-op on an empty cell), returning
    /// the deleted handles in store order.
    pub fn remove_at(&mut self, c: Position) -> (removed: Vec<u64>)
        ensures
            final(self)@ == cleared(old(self)@, c),
            removed@ == ids_at(old(self)@, c),
            final(self).next_handle() == old(self).next_handle(),
            old(self).wf() ==> final(self).wf(),
    {
        let ghost s = self@;
        let n = self.pieces.len();
        let mut kept: Vec<Piece> = Vec::new();
        let mut removed: Vec<u64> = Vec::new();
        let mut i: usize = 0;
        proof {
            assert(s.take(0) =~= Seq::<Piece>::empty());
            reveal(Seq::filter);
        }
        while i < n
            invariant
                n == s.len(),
                s == self@,
                i <= n,
                kept@ == s.take(i as int).filter(|p: Piece| p.pos != c),
                removed@ == s.take(i as int).filter(|p: Piece| p.pos == c).map_values(
                    |p: Piece| p.id,
                ),
            decreases n - i,
        {
            let p = self.pieces[i];
            let ghost prev = i as int;
            if p.pos == c {
                removed.push(p.id);
            } else {
                kept.push(p);
            }
            proof {
                lemma_filter_take_step(s, |q: Piece| q.pos != c, prev);
                lemma_filter_take_step(s, |q: Piece| q.pos == c, prev);
                if p.pos == c {
                    assert(s.take(prev + 1).filter(|q: Piece| q.pos == c).map_values(
                        |q: Piece| q.id,
                    ) =~= s.take(prev).filter(|q: Piece| q.pos == c).map_values(
                        |q: Piece| q.id,
                    ).push(p.id));
                }
            }
            i = i + 1;
        }
        proof {
            assert(s.take(n as int) =~= s);
            if old(self).wf() {
                lemma_filter_ids_unique(s, |q: Piece| q.pos != c);
                lemma_filter_membership(s, |q: Piece| q.pos != c);
                assert forall|k: int|
                    0 <= k < cleared(s, c).len() implies (#[trigger] cleared(s, c)[k]).id < self
                    .next_handle() by {
                    let j = choose|j: int| 0 <= j < s.len() && s[j] == cleared(s, c)[k];
                    assert(s[j].id < self.next_handle());
                }
            }
        }
        self.pieces = kept;
        removed
    }

    /// Deletes the piece with handle `id`; safe to call on a handle that is
    /// no longer present (the call then changes nothing).
    pub fn delete(&mut self, id: u64)
        ensures
            final(self)@ == old(self)@.filter(|p: Piece| p.id != id),
            final(self).next_handle() == old(self).next_handle(),
            old(self).wf() ==> final(self).wf(),
    {
        let ghost s = self@;
        let n = self.pieces.len();
        let mut kept: Vec<Piece> = Vec::new();
        let mut i: usize = 0;
        proof {
            assert(s.take(0) =~= Seq::<Piece>::empty());
            reveal(Seq::filter);
        }
        while i < n
            invariant
                n == s.len(),
                s == self@,
                i <= n,
                kept@ == s.take(i as int).filter(|p: Piece| p.id != id),
            decreases n - i,
        {
            let p = self.pieces[i];
            let ghost prev = i as int;
            if p.id != id {
                kept.push(p);
            }
            proof {
                lemma_filter_take_step(s, |q: Piece| q.id != id, prev);
            }
            i = i + 1;
        }
        proof {
            assert(s.take(n as int) =~= s);
            if old(self).wf() {
                lemma_filter_ids_unique(s, |q: Piece| q.id != id);
                lemma_filter_membership(s, |q: Piece| q.id != id);
                let t = s.filter(|p: Piece| p.id != id);
                assert forall|k: int|
                    0 <= k < t.len() implies (#[trigger] t[k]).id < self.next_handle() by {
                    let j = choose|j: int| 0 <= j < s.len() && s[j] == t[k];
                    assert(s[j].id < self.next_handle());
                }
            }
        }
        self.pieces = kept;
    }

    /// Moves the piece with handle `id` to `c`, in place. Deliberately does
    /// not re-check occupancy: callers resolve overwrites first.
    pub fn move_piece(&mut self, id: u64, c: Position)
        requires
            old(self).wf(),
            has_id(old(self)@, id),
        ensures
            final(self)@ == old(self)@.update(
                index_of_id(old(self)@, id),
                moved(old(self)@[index_of_id(old(self)@, id)], c),
            ),
            final(self).next_handle() == old(self).next_handle(),
            final(self).wf(),
    {
        let ghost s = self@;
        let ghost nid = self.next_handle();
        let n = self.pieces.len();
        let mut i: usize = 0;
        while i < n
            invariant
                n == s.len(),
                s == self@,
                s == old(self)@,
                self.next_handle() == nid,
                nid == old(self).next_handle(),
                ids_unique(s),
                forall|k: int| 0 <= k < s.len() ==> (#[trigger] s[k]).id < nid,
                i <= n,
                has_id(s, id),
                forall|j: int| 0 <= j < i ==> s[j].id != id,
            decreases n - i,
        {
            let p = self.pieces[i];
            if p.id == id {
                proof {
                    let w = index_of_id(s, id);
                    assert(0 <= w < s.len() && s[w].id == id);
                    assert(w == i as int);
                }
                self.pieces.set(i, Piece { id: p.id, pos: c, kind: p.kind, army: p.army, color: p.color });
                proof {
                    assert forall|a: int, b: int| #![trigger self@[a], self@[b]]
                        0 <= a < b < self@.len() implies self@[a].id != self@[b].id by {
                        assert(self@[a].id == s[a].id && self@[b].id == s[b].id);
                    }
                    assert forall|a: int|
                        0 <= a < self@.len() implies (#[trigger] self@[a]).id < self
                        .next_handle() by {
                        assert(self@[a].id == s[a].id);
                    }
                }
                return ;
            }
            i = i + 1;
        }
        proof {
            let w = index_of_id(s, id);
            assert(0 <= w < s.len() && s[w].id == id);
            assert(false);
        }
    }

    /// Marks the piece as detached from the grid (drag start): its position
    /// becomes the sentinel, excluding it from occupancy queries until drop.
    pub fn detach(&mut self, id: u64)
        requires
            old(self).wf(),
            has_id(old(self)@, id),
        ensures
            final(self)@ == old(self)@.update(
                index_of_id(old(self)@, id),
                moved(old(self)@[index_of_id(old(self)@, id)], Position { x: -1i32, y: -1i32 }),
            ),
            final(self).next_handle() == old(self).next_handle(),
            final(self).wf(),
    {
        let s = Position::sentinel();
        self.move_piece(id, s);
    }

    /// Places a new piece at `c`: if the cell was occupied the old occupants
    /// are deleted first (the non-fatal occupied-cell-overwritten condition),
    /// preserving single occupancy.
    pub fn place(&mut self, c: Position, kind: PieceType, army: Army, color: PieceColor) -> (out:
        PlaceOutcome)
        requires
            old(self).wf(),
            old(self).next_handle() < u64::MAX,
        ensures
            out.piece == old(self).next_handle(),
            out.removed@ == ids_at(old(self)@, c),
            final(self)@ == cleared(old(self)@, c).push(
                Piece { id: out.piece, pos: c, kind, army, color },
            ),
            final(self).next_handle() == old(self).next_handle() + 1,
            final(self).wf(),
    {
        let removed = self.remove_at(c);
        let id = self.spawn(c, kind, army, color);
        PlaceOutcome { piece: id, removed }
    }

    /// The editor's startup layout: for each column, a black Nemesis pawn on
    /// rank 6 paired with a white Classic pawn on rank 1.
    pub fn starting_position() -> (g: GridModel)
        ensures
            g@.len() == 16,
            forall|i: int| 0 <= i < 16 ==> #[trigger] g@[i] == spec_starting_piece(i),
            g.next_handle() == 16,
            g.wf(),
            occupancy_ok(g@),
            positions_in_range(g@),
            forall|i: int| 0 <= i < 16 ==> !(#[trigger] g@[i]).pos.is_sentinel(),
    {
        let mut g = GridModel::new();
        let mut x: i32 = 0;
        while x < 8
            invariant
                0 <= x <= 8,
                g@.len() == 2 * x,
                g.next_handle() == 2 * x,
                g.wf(),
                forall|i: int| 0 <= i < g@.len() ==> #[trigger] g@[i] == spec_starting_piece(i),
            decreases 8 - x,
        {
            let ghost len0 = g@.len();
            g.spawn(
                Position { x, y: 6 },
                PieceType::Pawn,
                Army::Nemesis,
                PieceColor::Black,
            );
            g.spawn(
                Position { x, y: 1 },
                PieceType::Pawn,
                Army::Classic,
                PieceColor::White,
            );
            proof {
                assert(len0 == 2 * x);
                assert((2 * x) / 2 == x && (2 * x) % 2 == 0 && (2 * x + 1) / 2 == x && (2 * x + 1)
                    % 2 == 1) by (nonlinear_arith)
                    requires
                        0 <= x < 8,
                ;
            }
            x = x + 1;
        }
        proof {
            assert forall|i: int, j: int| #![trigger g@[i], g@[j]]
                0 <= i < j < g@.len() && g@[i].pos == g@[j].pos implies g@[i].pos.is_sentinel() by {
                assert(i / 2 == j / 2 && i % 2 == j % 2);
                assert(i == 2 * (i / 2) + i % 2 && j == 2 * (j / 2) + j % 2);
            }
        }
        g
    }
}

} // verus!
