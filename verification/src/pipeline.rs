//! The interaction pipeline: per-tick decision logic that, given the active
//! mode and this tick's pointer and key input, mutates the grid model and
//! emits the matching mutation events. Within a tick the order is fixed:
//! pointer sampling, then marker erase-on-interact, then the mode's own
//! piece logic, then the key-driven mode/army/colour transitions (which take
//! effect for the next tick).

use vstd::prelude::*;
use crate::board::{Position, BOARD_SIZE};
use crate::cursor::{spec_cursor_after, cursor_in_range, CursorPos, PointerMove, MAX_WINDOW_DIM};
use crate::drag::DragPlugin;
use crate::events::{deleted_events, spec_deleted_events, MutationEvent};
use crate::grid::{
    cleared, has_id, ids_at, ids_unique, index_of_id, lemma_filter_ids_unique,
    lemma_filter_membership, lemma_filter_occupancy, lemma_filter_positions_in_range, moved,
    occupancy_ok, positions_in_range, spec_starting_piece, GridModel,
};
use crate::modes::{
    next_mode, place_kind, spec_army_at, spec_army_index_after, spec_color_at,
    spec_color_index_after, spec_mode_after, spec_place_kind, ArmySelection, ColorSelection,
    CursorMode, KeyEdges,
};
use crate::pieces::Piece;

verus! {

broadcast use vstd::seq_lib::group_filter_ensures;

/// Everything the pipeline reads in one input tick: the window extents, the
/// tick's pointer-moved events in order, the primary button's state and
/// edges, the secondary button's press edge, and the key press edges.
pub struct TickInput {
    pub width: u32,
    pub height: u32,
    pub moves: Vec<PointerMove>,
    pub left_pressed: bool,
    pub left_just_pressed: bool,
    pub left_just_released: bool,
    pub right_just_pressed: bool,
    pub keys: KeyEdges,
}

impl TickInput {
    /// Validity of one tick's raw input: the window is non-degenerate and
    /// bounded, pointer events stay inside it, and the button edges are
    /// consistent with the button state (a press edge only while pressed, a
    /// release edge only while not pressed).
    pub open spec fn wf(self) -> bool {
        &&& 1 <= self.width <= MAX_WINDOW_DIM
        &&& 1 <= self.height <= MAX_WINDOW_DIM
        &&& forall|i: int|
            0 <= i < self.moves@.len() ==> (#[trigger] self.moves@[i]).x <= self.width
                && self.moves@[i].y <= self.height
        &&& self.left_just_pressed ==> self.left_pressed
        &&& self.left_just_released ==> !self.left_pressed
    }
}

/// The cursor state the pipeline works with this tick: the previous state
/// unless a pointer event arrived, then the last event's translation.
pub open spec fn spec_cursor(ed: Editor, input: TickInput) -> CursorPos {
    spec_cursor_after(ed.cursor, input.moves@, input.width, input.height)
}

/// The grid cell under the pointer this tick.
pub open spec fn spec_target(ed: Editor, input: TickInput) -> Position {
    spec_cursor(ed, input).grid
}

/// The pick-up hit test: whether the pointer's centre-relative offset lies
/// strictly within half a tile of the rendered centre of cell `p` under a
/// `w` by `h` window. The rendered centre per axis is
/// `dimension * (2 * coordinate - 7) / 16` pixels from the window centre and
/// the radius is `w / 16` pixels, so the comparison is exact over the
/// integers once every term is scaled by 16.
pub open spec fn spec_hits(cur: CursorPos, p: Position, w: int, h: int) -> bool {
    let dx = 16 * cur.cursor_x - w * (2 * p.x - 7);
    let dy = 16 * cur.cursor_y - h * (2 * p.y - 7);
    dx * dx + dy * dy < w * w
}

/// The least store index at or after `i` whose piece the pointer hits, or
/// `-1` when there is none.
pub open spec fn spec_first_hit_from(s: Seq<Piece>, cur: CursorPos, w: int, h: int, i: int) -> int
    decreases s.len() - i,
{
    if i < 0 || i >= s.len() {
        -1
    } else if spec_hits(cur, s[i].pos, w, h) {
        i
    } else {
        spec_first_hit_from(s, cur, w, h, i + 1)
    }
}

/// The least store index whose piece the pointer hits, or `-1`: pick-up
/// scans the store in order and takes the first piece within reach.
pub open spec fn spec_first_hit(s: Seq<Piece>, cur: CursorPos, w: int, h: int) -> int {
    spec_first_hit_from(s, cur, w, h, 0)
}

/// The piece a placement tick creates: the next fresh handle, at the cell
/// under the pointer, with the selected type, army and colour.
pub open spec fn spec_new_piece(ed: Editor, input: TickInput) -> Piece {
    Piece {
        id: ed.grid.next_handle(),
        pos: spec_target(ed, input),
        kind: spec_place_kind(ed.mode),
        army: spec_army_at(ed.army.index as int),
        color: spec_color_at(ed.color.index as int),
    }
}

/// The store after a drop of the held piece `id` at `g`: every other piece
/// at `g` is deleted (overwrite-on-drop), then the held piece snaps from the
/// sentinel to `g`.
pub open spec fn spec_drop_pieces(s: Seq<Piece>, id: u64, g: Position) -> Seq<Piece> {
    let kept = cleared(s, g);
    kept.update(index_of_id(kept, id), moved(kept[index_of_id(kept, id)], g))
}

/// The piece store after one tick.
pub open spec fn spec_pieces_after(ed: Editor, input: TickInput) -> Seq<Piece> {
    let s = ed.grid@;
    let g = spec_target(ed, input);
    let cur = spec_cursor(ed, input);
    match ed.mode {
        CursorMode::DragDrop => match ed.drag.held {
            Some(id) => if input.left_just_released {
                spec_drop_pieces(s, id, g)
            } else {
                s
            },
            None => if input.left_just_pressed && spec_first_hit(
                s,
                cur,
                input.width as int,
                input.height as int,
            ) >= 0 {
                let k = spec_first_hit(s, cur, input.width as int, input.height as int);
                s.update(k, moved(s[k], Position { x: -1i32, y: -1i32 }))
            } else {
                s
            },
        },
        CursorMode::Trash => if input.left_just_pressed {
            cleared(s, g)
        } else {
            s
        },
        CursorMode::Place(_) => if input.left_just_pressed {
            cleared(s, g).push(spec_new_piece(ed, input))
        } else {
            s
        },
    }
}

/// The held-piece slot after one tick: emptied by a drop, filled by a
/// successful pick-up, otherwise unchanged.
pub open spec fn spec_held_after(ed: Editor, input: TickInput) -> Option<u64> {
    let s = ed.grid@;
    let cur = spec_cursor(ed, input);
    match ed.mode {
        CursorMode::DragDrop => match ed.drag.held {
            Some(id) => if input.left_just_released {
                None
            } else {
                Some(id)
            },
            None => if input.left_just_pressed && spec_first_hit(
                s,
                cur,
                input.width as int,
                input.height as int,
            ) >= 0 {
                Some(s[spec_first_hit(s, cur, input.width as int, input.height as int)].id)
            } else {
                None
            },
        },
        _ => ed.drag.held,
    }
}

/// The drag highlight after one tick: created at the pointer's cell on
/// pick-up, destroyed exactly once on the matching drop.
pub open spec fn spec_highlight_after(ed: Editor, input: TickInput) -> Option<Position> {
    let s = ed.grid@;
    let cur = spec_cursor(ed, input);
    match ed.mode {
        CursorMode::DragDrop => match ed.drag.held {
            Some(_) => if input.left_just_released {
                None
            } else {
                ed.drag.highlight
            },
            None => if input.left_just_pressed && spec_first_hit(
                s,
                cur,
                input.width as int,
                input.height as int,
            ) >= 0 {
                Some(spec_target(ed, input))
            } else {
                ed.drag.highlight
            },
        },
        _ => ed.drag.highlight,
    }
}

/// The fresh-handle counter after one tick: a placement consumes one handle,
/// nothing else allocates.
pub open spec fn spec_next_handle_after(ed: Editor, input: TickInput) -> u64 {
    if ed.mode is Place && input.left_just_pressed {
        (ed.grid.next_handle() + 1) as u64
    } else {
        ed.grid.next_handle()
    }
}

/// The marker annotations after one tick. Any tick with the primary button
/// down erases every marker first (erase-on-interact), whatever else the
/// tick does; otherwise a secondary-button press edge in drag-and-drop mode
/// adds a marker at the pointer's cell, with no occupancy check.
pub open spec fn spec_markers_after(ed: Editor, input: TickInput) -> Seq<Position> {
    if input.left_pressed {
        Seq::<Position>::empty()
    } else if ed.mode is DragDrop && input.right_just_pressed {
        ed.markers@.push(spec_target(ed, input))
    } else {
        ed.markers@
    }
}

/// The mutation events one tick publishes, in order: deletions first, then
/// the drop or draw they make room for.
pub open spec fn spec_events_after(ed: Editor, input: TickInput) -> Seq<MutationEvent> {
    let s = ed.grid@;
    let g = spec_target(ed, input);
    let cur = spec_cursor(ed, input);
    match ed.mode {
        CursorMode::DragDrop => match ed.drag.held {
            Some(id) => if input.left_just_released {
                spec_deleted_events(ids_at(s, g)).push(MutationEvent::Dropped { piece: id })
            } else {
                Seq::<MutationEvent>::empty()
            },
            None => if input.left_just_pressed && spec_first_hit(
                s,
                cur,
                input.width as int,
                input.height as int,
            ) >= 0 {
                seq![
                    MutationEvent::DragStarted {
                        piece: s[spec_first_hit(
                            s,
                            cur,
                            input.width as int,
                            input.height as int,
                        )].id,
                        at: g,
                    },
                ]
            } else {
                Seq::<MutationEvent>::empty()
            },
        },
        CursorMode::Trash => if input.left_just_pressed {
            spec_deleted_events(ids_at(s, g))
        } else {
            Seq::<MutationEvent>::empty()
        },
        CursorMode::Place(_) => if input.left_just_pressed {
            spec_deleted_events(ids_at(s, g)).push(
                MutationEvent::Drawn { piece: ed.grid.next_handle() },
            )
        } else {
            Seq::<MutationEvent>::empty()
        },
    }
}

/// The whole editor session: the grid model, the active mode and auxiliary
/// selections, the last pointer sample, the drag subsystem, and the
/// transient marker annotations.
pub struct Editor {
    pub grid: GridModel,
    pub mode: CursorMode,
    pub army: ArmySelection,
    pub color: ColorSelection,
    pub cursor: CursorPos,
    pub drag: DragPlugin,
    pub markers: Vec<Position>,
}

impl Editor {
    /// The session invariant every tick preserves:
    /// - the grid's handles are unique and fresh;
    /// - occupancy: at most one piece per coordinate except the sentinel;
    /// - drag exclusivity: a piece sits on the sentinel exactly when it is
    ///   the held one, and nothing is detached while nothing is held;
    /// - highlight pairing: the drag highlight exists iff a drag is in
    ///   progress, and only drag-and-drop mode can hold a piece;
    /// - the auxiliary selections index their catalogs;
    /// - every position and the cursor sample lie in translation range.
    pub open spec fn wf(self) -> bool {
        &&& self.grid.wf()
        &&& occupancy_ok(self.grid@)
        &&& positions_in_range(self.grid@)
        &&& match self.drag.held {
            Some(id) => has_id(self.grid@, id) && forall|i: int|
                0 <= i < self.grid@.len() ==> ((#[trigger] self.grid@[i]).pos.is_sentinel()
                    <==> self.grid@[i].id == id),
            None => forall|i: int|
                0 <= i < self.grid@.len() ==> !(#[trigger] self.grid@[i]).pos.is_sentinel(),
        }
        &&& self.drag.wf()
        &&& (self.drag.held is Some ==> self.mode is DragDrop)
        &&& self.army.wf()
        &&& self.color.wf()
        &&& cursor_in_range(self.cursor)
    }

    /// A fresh session as the editor starts: the default pawn layout on the
    /// grid, drag-and-drop mode, the first army and colour selected, no drag
    /// in progress and no markers.
    pub fn new() -> (ed: Editor)
        ensures
            ed.grid@.len() == 16,
            forall|i: int| 0 <= i < 16 ==> #[trigger] ed.grid@[i] == spec_starting_piece(i),
            ed.grid.next_handle() == 16,
            ed.mode == CursorMode::DragDrop,
            ed.army.index == 0,
            ed.color.index == 0,
            ed.cursor == (CursorPos {
                cursor_x: 0i32,
                cursor_y: 0i32,
                grid: Position { x: 0i32, y: 0i32 },
            }),
            ed.drag == (DragPlugin { held: None::<u64>, highlight: None::<Position> }),
            ed.markers@.len() == 0,
            ed.wf(),
    {
        let ed = Editor {
            grid: GridModel::starting_position(),
            mode: CursorMode::DragDrop,
            army: ArmySelection::start(),
            color: ColorSelection::start(),
            cursor: CursorPos::start(),
            drag: DragPlugin::idle(),
            markers: Vec::new(),
        };
        ed
    }

    /// One input tick. In order: the tick's pointer events are folded into
    /// the cursor sample (last event wins); every marker is erased if the
    /// primary button is down, else a right-click in drag-and-drop mode
    /// places one; the active mode's piece logic runs against the grid and
    /// its mutation events are returned, deletions first; finally the
    /// key-driven mode/army/colour transitions are applied, taking effect
    /// from the next tick. Every benign empty-result condition (release with
    /// nothing held, delete on an empty cell) is a silent no-op.
    ///
    /// Besides the session and input invariants, callers guarantee that a
    /// drag in progress comes with the primary button still down or released
    /// this very tick — true of any real input stream, since a pick-up
    /// happens only on a press edge — and that the handle counter has room
    /// for one more piece.
    pub fn tick(&mut self, input: &TickInput) -> (events: Vec<MutationEvent>)
        requires
            old(self).wf(),
            input.wf(),
            old(self).grid.next_handle() < u64::MAX,
            old(self).drag.held is Some ==> input.left_pressed || input.left_just_released,
        ensures
            final(self).cursor == spec_cursor(*old(self), *input),
            final(self).grid@ == spec_pieces_after(*old(self), *input),
            final(self).grid.next_handle() == spec_next_handle_after(*old(self), *input),
            final(self).drag.held == spec_held_after(*old(self), *input),
            final(self).drag.highlight == spec_highlight_after(*old(self), *input),
            final(self).markers@ == spec_markers_after(*old(self), *input),
            final(self).mode == spec_mode_after(old(self).mode, input.keys, input.left_pressed),
            final(self).army.index == spec_army_index_after(
                old(self).army.index as int,
                input.keys,
            ),
            final(self).color.index == spec_color_index_after(
                old(self).color.index as int,
                input.keys,
            ),
            events@ == spec_events_after(*old(self), *input),
            final(self).wf(),
    {
        let ghost ed0 = *old(self);
        let ghost s = old(self).grid@;

        // Pointer sampling: only the last pointer-moved event of the tick.
        self.cursor.observe(&input.moves, input.width, input.height);
        let g = self.cursor.grid;
        proof {
            assert(self.cursor == spec_cursor(ed0, *input));
            assert(g == spec_target(ed0, *input));
            assert(0 <= g.x <= 8 && 0 <= g.y <= 8);
            assert(!g.is_sentinel());
        }

        // Marker erase-on-interact, before any piece logic of the tick; a
        // right-click adds a marker only in drag-and-drop mode, with no
        // occupancy check.
        if input.left_pressed {
            self.markers = Vec::new();
        } else {
            let in_dragdrop = match self.mode {
                CursorMode::DragDrop => true,
                _ => false,
            };
            if in_dragdrop && input.right_just_pressed {
                self.markers.push(g);
            }
        }
        proof {
            assert(self.markers@ == spec_markers_after(ed0, *input));
        }

        // The active mode's piece logic.
        let mut events: Vec<MutationEvent> = Vec::new();
        match self.mode {
            CursorMode::DragDrop => {
                if input.left_just_released {
                    if self.drag.held.is_some() {
                        let id = self.drag.held.unwrap();
                        proof {
                            lemma_drop_wf(s, id, g);
                        }
                        let removed = self.grid.remove_at(g);
                        self.grid.move_piece(id, g);
                        self.drag.held = None;
                        self.drag.highlight = None;
                        events = deleted_events(&removed);
                        events.push(MutationEvent::Dropped { piece: id });
                        proof {
                            assert(self.grid@ == spec_drop_pieces(s, id, g));
                            assert(self.grid@ == spec_pieces_after(ed0, *input));
                            assert(events@ == spec_events_after(ed0, *input));
                        }
                    }
                } else if input.left_just_pressed {
                    if self.drag.held.is_none() {
                        let hit = find_hit(&self.grid, self.cursor, input.width, input.height);
                        if let Some(k) = hit {
                            let p = self.grid.get(k);
                            proof {
                                assert(0 <= spec_first_hit(
                                    s,
                                    spec_cursor(ed0, *input),
                                    input.width as int,
                                    input.height as int,
                                ) < s.len());
                                assert(s[k as int].id == p.id);
                                assert(has_id(s, p.id));
                                let w = index_of_id(s, p.id);
                                assert(0 <= w < s.len() && s[w].id == p.id);
                                assert(w == k as int);
                                lemma_pickup_wf(s, k as int);
                            }
                            self.grid.detach(p.id);
                            self.drag.held = Some(p.id);
                            self.drag.highlight = Some(g);
                            events.push(MutationEvent::DragStarted { piece: p.id, at: g });
                            proof {
                                assert(self.grid@ == spec_pieces_after(ed0, *input));
                                assert(events@ =~= spec_events_after(ed0, *input));
                            }
                        }
                    }
                }
            }
            CursorMode::Trash => {
                proof {
                    assert(ed0.drag.held is None);
                    lemma_clear_wf(s, g);
                }
                if input.left_just_pressed {
                    let removed = self.grid.remove_at(g);
                    events = deleted_events(&removed);
                }
            }
            CursorMode::Place(_) => {
                proof {
                    assert(ed0.drag.held is None);
                }
                if input.left_just_pressed {
                    let kind = place_kind(self.mode);
                    let army = self.army.army();
                    let color = self.color.color();
                    proof {
                        lemma_place_wf(s, g, spec_new_piece(ed0, *input));
                    }
                    let out = self.grid.place(g, kind, army, color);
                    events = deleted_events(&out.removed);
                    events.push(MutationEvent::Drawn { piece: out.piece });
                    proof {
                        assert(self.grid@ == spec_pieces_after(ed0, *input));
                        assert(events@ == spec_events_after(ed0, *input));
                    }
                }
            }
        }

        // Key-driven transitions, effective from the next tick; mode changes
        // are suppressed while the primary button is down.
        self.mode = next_mode(self.mode, &input.keys, input.left_pressed);
        self.army.step(&input.keys);
        self.color.step(&input.keys);
        events
    }
}

/// Scans the store in order and returns the index of the first piece the
/// pointer hits, as the pick-up step of drag-and-drop mode does.
fn find_hit(grid: &GridModel, cur: CursorPos, w: u32, h: u32) -> (r: Option<usize>)
    requires
        cursor_in_range(cur),
        positions_in_range(grid@),
        1 <= w <= MAX_WINDOW_DIM,
        1 <= h <= MAX_WINDOW_DIM,
    ensures
        r matches Some(k) ==> k < grid@.len() && spec_first_hit(grid@, cur, w as int, h as int)
            == k,
        r is None ==> spec_first_hit(grid@, cur, w as int, h as int) == -1,
{
    let n = grid.count();
    let mut i: usize = 0;
    while i < n
        invariant
            cursor_in_range(cur),
            positions_in_range(grid@),
            1 <= w <= MAX_WINDOW_DIM,
            1 <= h <= MAX_WINDOW_DIM,
            n == grid@.len(),
            i <= n,
            spec_first_hit(grid@, cur, w as int, h as int) == spec_first_hit_from(
                grid@,
                cur,
                w as int,
                h as int,
                i as int,
            ),
        decreases n - i,
    {
        let p = grid.get(i);
        assert(p.pos.is_sentinel() || (0 <= p.pos.x <= BOARD_SIZE && 0 <= p.pos.y <= BOARD_SIZE));
        assert(-1 <= p.pos.x <= 8 && -1 <= p.pos.y <= 8);
        assert(-9 * 65536 <= (w as i64) * (2 * (p.pos.x as i64) - 7) <= 9 * 65536)
            by (nonlinear_arith)
            requires
                1 <= w <= 65536,
                -1 <= p.pos.x <= 8,
        ;
        assert(-9 * 65536 <= (h as i64) * (2 * (p.pos.y as i64) - 7) <= 9 * 65536)
            by (nonlinear_arith)
            requires
                1 <= h <= 65536,
                -1 <= p.pos.y <= 8,
        ;
        let dx: i64 = 16 * (cur.cursor_x as i64) - (w as i64) * (2 * (p.pos.x as i64) - 7);
        let dy: i64 = 16 * (cur.cursor_y as i64) - (h as i64) * (2 * (p.pos.y as i64) - 7);
        assert(dx * dx <= 0x4000_0000_0000 && dy * dy <= 0x4000_0000_0000 && 0 <= dx * dx && 0
            <= dy * dy) by (nonlinear_arith)
            requires
                -0x200000 <= dx <= 0x200000,
                -0x200000 <= dy <= 0x200000,
        ;
        assert((w as i64) * (w as i64) <= 0x1_0000_0000 && 0 <= (w as i64) * (w as i64))
            by (nonlinear_arith)
            requires
                1 <= w <= 65536,
        ;
        if dx * dx + dy * dy < (w as i64) * (w as i64) {
            assert(spec_hits(cur, p.pos, w as int, h as int));
            return Some(i);
        }
        assert(!spec_hits(cur, p.pos, w as int, h as int));
        i = i + 1;
    }
    None
}

/// Clearing a cell preserves the session's grid facts, and nothing remains
/// at the cleared cell.
pub proof fn lemma_clear_wf(s: Seq<Piece>, g: Position)
    requires
        occupancy_ok(s),
        positions_in_range(s),
        forall|i: int| 0 <= i < s.len() ==> !(#[trigger] s[i]).pos.is_sentinel(),
    ensures
        occupancy_ok(cleared(s, g)),
        positions_in_range(cleared(s, g)),
        forall|i: int| 0 <= i < cleared(s, g).len() ==> !(#[trigger] cleared(s, g)[i]).pos.is_sentinel(),
        forall|i: int| 0 <= i < cleared(s, g).len() ==> (#[trigger] cleared(s, g)[i]).pos != g,
{
    let pred = |p: Piece| p.pos != g;
    lemma_filter_occupancy(s, pred);
    lemma_filter_positions_in_range(s, pred);
    lemma_filter_membership(s, pred);
    assert(cleared(s, g) == s.filter(pred));
    assert forall|i: int|
        0 <= i < cleared(s, g).len() implies !(#[trigger] cleared(s, g)[i]).pos.is_sentinel() by {
        let j = choose|j: int| 0 <= j < s.len() && s[j] == s.filter(pred)[i];
        assert(!s[j].pos.is_sentinel());
    }
}

/// A placement tick leaves the board well formed: the target cell is
/// cleared first, so the new piece is its only occupant.
pub proof fn lemma_place_wf(s: Seq<Piece>, g: Position, p: Piece)
    requires
        occupancy_ok(s),
        positions_in_range(s),
        forall|i: int| 0 <= i < s.len() ==> !(#[trigger] s[i]).pos.is_sentinel(),
        p.pos == g,
        0 <= g.x <= BOARD_SIZE,
        0 <= g.y <= BOARD_SIZE,
    ensures
        occupancy_ok(cleared(s, g).push(p)),
        positions_in_range(cleared(s, g).push(p)),
        forall|i: int|
            0 <= i < cleared(s, g).push(p).len() ==> !(#[trigger] cleared(s, g).push(p)[i]).pos.is_sentinel(),
{
    lemma_clear_wf(s, g);
    let kept = cleared(s, g);
    let t = kept.push(p);
    assert(!g.is_sentinel());
    assert forall|i: int, j: int| #![trigger t[i], t[j]]
        0 <= i < j < t.len() && t[i].pos == t[j].pos implies t[i].pos.is_sentinel() by {
        if j < kept.len() {
            assert(t[i] == kept[i] && t[j] == kept[j]);
        } else {
            assert(t[j] == p && t[i] == kept[i]);
            assert(kept[i].pos != g);
        }
    }
    assert forall|i: int| 0 <= i < t.len() implies !(#[trigger] t[i]).pos.is_sentinel() by {
        if i < kept.len() {
            assert(t[i] == kept[i]);
        } else {
            assert(t[i] == p);
        }
    }
    assert forall|i: int|
        0 <= i < t.len() implies ((#[trigger] t[i]).pos.is_sentinel() || (0 <= t[i].pos.x
            <= BOARD_SIZE && 0 <= t[i].pos.y <= BOARD_SIZE)) by {
        if i < kept.len() {
            assert(t[i] == kept[i]);
        } else {
            assert(t[i] == p);
        }
    }
}

/// Detaching the piece at store index `k` keeps the board well formed: it
/// becomes the one sentinel piece, and everything else is untouched.
pub proof fn lemma_pickup_wf(s: Seq<Piece>, k: int)
    requires
        ids_unique(s),
        occupancy_ok(s),
        positions_in_range(s),
        forall|i: int| 0 <= i < s.len() ==> !(#[trigger] s[i]).pos.is_sentinel(),
        0 <= k < s.len(),
    ensures
        occupancy_ok(s.update(k, moved(s[k], Position { x: -1i32, y: -1i32 }))),
        positions_in_range(s.update(k, moved(s[k], Position { x: -1i32, y: -1i32 }))),
        has_id(s.update(k, moved(s[k], Position { x: -1i32, y: -1i32 })), s[k].id),
        forall|i: int|
            0 <= i < s.len() ==> ((#[trigger] s.update(
                k,
                moved(s[k], Position { x: -1i32, y: -1i32 }),
            )[i]).pos.is_sentinel() <==> s.update(
                k,
                moved(s[k], Position { x: -1i32, y: -1i32 }),
            )[i].id == s[k].id),
{
    let t = s.update(k, moved(s[k], Position { x: -1i32, y: -1i32 }));
    assert(t[k].pos.is_sentinel() && t[k].id == s[k].id);
    assert(has_id(t, s[k].id));
    assert forall|i: int, j: int| #![trigger t[i], t[j]]
        0 <= i < j < t.len() && t[i].pos == t[j].pos implies t[i].pos.is_sentinel() by {
        if i != k && j != k {
            assert(t[i] == s[i] && t[j] == s[j]);
        }
    }
    assert forall|i: int|
        0 <= i < s.len() implies ((#[trigger] t[i]).pos.is_sentinel() <==> t[i].id == s[k].id) by {
        if i != k {
            assert(t[i] == s[i]);
            assert(!s[i].pos.is_sentinel());
            assert(s[i].id != s[k].id);
        }
    }
    assert forall|i: int|
        0 <= i < t.len() implies ((#[trigger] t[i]).pos.is_sentinel() || (0 <= t[i].pos.x
            <= BOARD_SIZE && 0 <= t[i].pos.y <= BOARD_SIZE)) by {
        if i != k {
            assert(t[i] == s[i]);
        }
    }
}

/// Dropping the held piece keeps the board well formed: the target cell is
/// cleared of every other piece, the held piece leaves the sentinel for the
/// target cell, and no piece stays detached.
pub proof fn lemma_drop_wf(s: Seq<Piece>, id: u64, g: Position)
    requires
        ids_unique(s),
        occupancy_ok(s),
        positions_in_range(s),
        has_id(s, id),
        forall|i: int|
            0 <= i < s.len() ==> ((#[trigger] s[i]).pos.is_sentinel() <==> s[i].id == id),
        0 <= g.x <= BOARD_SIZE,
        0 <= g.y <= BOARD_SIZE,
    ensures
        has_id(cleared(s, g), id),
        occupancy_ok(spec_drop_pieces(s, id, g)),
        positions_in_range(spec_drop_pieces(s, id, g)),
        forall|i: int|
            0 <= i < spec_drop_pieces(s, id, g).len() ==> !(#[trigger] spec_drop_pieces(
                s,
                id,
                g,
            )[i]).pos.is_sentinel(),
{
    let pred = |p: Piece| p.pos != g;
    let kept = cleared(s, g);
    lemma_filter_ids_unique(s, pred);
    lemma_filter_occupancy(s, pred);
    lemma_filter_positions_in_range(s, pred);
    lemma_filter_membership(s, pred);
    assert(kept == s.filter(pred));
    assert(!g.is_sentinel());
    let i0 = index_of_id(s, id);
    assert(0 <= i0 < s.len() && s[i0].id == id);
    assert(s[i0].pos.is_sentinel());
    assert(s[i0].pos != g);
    assert(s.filter(pred).contains(s[i0])) by {
        s.lemma_filter_contains(pred, i0);
    }
    let j0 = choose|j: int| 0 <= j < kept.len() && kept[j] == s[i0];
    assert(kept[j0].id == id);
    assert(has_id(kept, id));
    let ki = index_of_id(kept, id);
    assert(0 <= ki < kept.len() && kept[ki].id == id);
    let t = spec_drop_pieces(s, id, g);
    assert(t == kept.update(ki, moved(kept[ki], g)));
    assert forall|i: int, j: int| #![trigger t[i], t[j]]
        0 <= i < j < t.len() && t[i].pos == t[j].pos implies t[i].pos.is_sentinel() by {
        if i != ki && j != ki {
            assert(t[i] == kept[i] && t[j] == kept[j]);
        } else if i == ki {
            assert(t[i].pos == g && t[j] == kept[j]);
            assert(pred(kept[j]));
        } else {
            assert(t[j].pos == g && t[i] == kept[i]);
            assert(pred(kept[i]));
        }
    }
    assert forall|i: int| 0 <= i < t.len() implies !(#[trigger] t[i]).pos.is_sentinel() by {
        if i == ki {
            assert(t[i].pos == g);
        } else {
            assert(t[i] == kept[i]);
            assert(kept[i].id != kept[ki].id);
            let m = choose|m: int| 0 <= m < s.len() && s[m] == kept[i];
            assert(!s[m].pos.is_sentinel());
        }
    }
    assert forall|i: int|
        0 <= i < t.len() implies ((#[trigger] t[i]).pos.is_sentinel() || (0 <= t[i].pos.x
            <= BOARD_SIZE && 0 <= t[i].pos.y <= BOARD_SIZE)) by {
        if i == ki {
        } else {
            assert(t[i] == kept[i]);
            assert(kept[i].pos.is_sentinel() || (0 <= kept[i].pos.x <= BOARD_SIZE && 0
                <= kept[i].pos.y <= BOARD_SIZE));
        }
    }
}

/// Occupancy: at every tick boundary — in particular at every quiescent
/// point — at most one piece occupies any given on-board coordinate. Since
/// `tick` requires and re-establishes `Editor::wf`, this holds under every
/// sequence of place, drag, drop and delete operations: two pieces of a
/// well-formed session sharing an on-board coordinate are one and the same.
pub proof fn lemma_occupancy(ed: Editor, i: int, j: int)
    requires
        ed.wf(),
        0 <= i < ed.grid@.len(),
        0 <= j < ed.grid@.len(),
        ed.grid@[i].pos.on_board(),
        ed.grid@[i].pos == ed.grid@[j].pos,
    ensures
        i == j,
{
    if i < j {
        assert(ed.grid@[i].pos.is_sentinel());
    }
    if j < i {
        assert(ed.grid@[j].pos.is_sentinel());
    }
}

/// Drag exclusivity: at most one piece is detached at any time. In a
/// well-formed session, two pieces on the sentinel coordinate are one and
/// the same — and a piece is detached at all only while the single held
/// slot holds it.
pub proof fn lemma_drag_exclusivity(ed: Editor, i: int, j: int)
    requires
        ed.wf(),
        0 <= i < ed.grid@.len(),
        0 <= j < ed.grid@.len(),
        ed.grid@[i].pos.is_sentinel(),
        ed.grid@[j].pos.is_sentinel(),
    ensures
        i == j,
        ed.drag.held == Some(ed.grid@[i].id),
{
    match ed.drag.held {
        Some(id) => {
            assert(ed.grid@[i].id == id && ed.grid@[j].id == id);
            if i < j {
                assert(ed.grid@[i].id != ed.grid@[j].id);
            }
            if j < i {
                assert(ed.grid@[j].id != ed.grid@[i].id);
            }
        },
        None => {
            assert(!ed.grid@[i].pos.is_sentinel());
        },
    }
}

/// Drag atomicity: a piece picked up and not released stays logically
/// detached. Any tick without a release edge leaves the store and the held
/// slot untouched, and the held piece keeps the sentinel coordinate, which
/// excludes it from occupancy and from every trash or placement scan (those
/// scan a cell of the grid, and the sentinel is no such cell).
pub proof fn lemma_drag_atomicity(ed: Editor, input: TickInput, id: u64)
    requires
        ed.wf(),
        input.wf(),
        ed.drag.held == Some(id),
        !input.left_just_released,
    ensures
        spec_pieces_after(ed, input) == ed.grid@,
        spec_held_after(ed, input) == Some(id),
        spec_highlight_after(ed, input) == ed.drag.highlight,
        spec_events_after(ed, input) == Seq::<MutationEvent>::empty(),
        has_id(ed.grid@, id),
        ed.grid@[index_of_id(ed.grid@, id)].pos.is_sentinel(),
{
    let s = ed.grid@;
    let w = index_of_id(s, id);
    assert(0 <= w < s.len() && s[w].id == id);
}

/// Overwrite-on-drop: dropping the held piece `a` onto a cell occupied by
/// another piece deletes that piece and leaves `a` as the cell's only
/// occupant; the drop releases the held slot and its highlight, and the
/// tick's events record the deletion.
pub proof fn lemma_overwrite_on_drop(ed: Editor, input: TickInput, a: u64, j: int)
    requires
        ed.wf(),
        input.wf(),
        ed.drag.held == Some(a),
        input.left_just_released,
        0 <= j < ed.grid@.len(),
        ed.grid@[j].pos == spec_target(ed, input),
    ensures
        forall|i: int|
            0 <= i < spec_pieces_after(ed, input).len() ==> (#[trigger] spec_pieces_after(
                ed,
                input,
            )[i]).id != ed.grid@[j].id,
        exists|i: int|
            0 <= i < spec_pieces_after(ed, input).len() && (#[trigger] spec_pieces_after(
                ed,
                input,
            )[i]).id == a && spec_pieces_after(ed, input)[i].pos == spec_target(ed, input),
        forall|i: int|
            0 <= i < spec_pieces_after(ed, input).len() && (#[trigger] spec_pieces_after(
                ed,
                input,
            )[i]).pos == spec_target(ed, input) ==> spec_pieces_after(ed, input)[i].id == a,
        spec_held_after(ed, input) is None,
        spec_highlight_after(ed, input) is None,
        spec_events_after(ed, input).contains(MutationEvent::Deleted { piece: ed.grid@[j].id }),
{
    let s = ed.grid@;
    let g = spec_target(ed, input);
    let b = s[j].id;
    assert(0 <= g.x <= 8 && 0 <= g.y <= 8) by {
        assert(cursor_in_range(spec_cursor(ed, input)));
    }
    lemma_drop_wf(s, a, g);
    let pred = |p: Piece| p.pos != g;
    let kept = cleared(s, g);
    lemma_filter_membership(s, pred);
    lemma_filter_ids_unique(s, pred);
    assert(kept == s.filter(pred));
    let ki = index_of_id(kept, a);
    assert(0 <= ki < kept.len() && kept[ki].id == a);
    let t = spec_drop_pieces(s, a, g);
    assert(t == kept.update(ki, moved(kept[ki], g)));
    assert(t == spec_pieces_after(ed, input));
    // the overwritten piece is gone: no element of the result carries b
    assert(!s[j].pos.is_sentinel());
    assert(b != a);
    assert forall|i: int| 0 <= i < t.len() implies (#[trigger] t[i]).id != b by {
        if i == ki {
            assert(t[i].id == a);
        } else {
            assert(t[i] == kept[i]);
            let m = choose|m: int| 0 <= m < s.len() && s[m] == kept[i];
            if s[m].id == b {
                if m < j {
                    assert(s[m].id != s[j].id);
                }
                if j < m {
                    assert(s[j].id != s[m].id);
                }
                assert(m == j);
                assert(pred(kept[i]));
                assert(false);
            }
        }
    }
    // the held piece is the cell's only occupant
    assert(t[ki].id == a && t[ki].pos == g);
    assert forall|i: int|
        0 <= i < t.len() && (#[trigger] t[i]).pos == g implies t[i].id == a by {
        if i != ki {
            assert(t[i] == kept[i]);
            assert(pred(kept[i]));
        }
    }
    // the tick's events record the deletion of b
    let hit = s.filter(|p: Piece| p.pos == g);
    assert(hit.contains(s[j])) by {
        s.lemma_filter_contains(|p: Piece| p.pos == g, j);
    }
    let m = choose|m: int| 0 <= m < hit.len() && hit[m] == s[j];
    assert(ids_at(s, g)[m] == b);
    let evs = spec_events_after(ed, input);
    assert(evs[m] == MutationEvent::Deleted { piece: b });
    assert(0 <= m < evs.len());
}

/// Marker lifecycle, persistence half: while no left-click interaction
/// begins, a marker survives the tick — further right-clicks elsewhere only
/// add markers, they never remove one.
pub proof fn lemma_marker_persists(ed: Editor, input: TickInput, c: Position)
    requires
        !input.left_pressed,
        ed.markers@.contains(c),
    ensures
        spec_markers_after(ed, input).contains(c),
{
    let m = choose|i: int| 0 <= i < ed.markers@.len() && ed.markers@[i] == c;
    if ed.mode is DragDrop && input.right_just_pressed {
        assert(spec_markers_after(ed, input)[m] == c);
    } else {
        assert(spec_markers_after(ed, input)[m] == c);
    }
}

/// Marker lifecycle, erasure half: the instant any left-button interaction
/// begins, every marker is erased — whatever the mode, and wherever on the
/// board that click lands.
pub proof fn lemma_marker_erased(ed: Editor, input: TickInput)
    requires
        input.left_pressed,
    ensures
        spec_markers_after(ed, input).len() == 0,
{
}

} // verus!
