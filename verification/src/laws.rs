use vstd::prelude::*;
use crate::board::{Board, count_mines, mines_among, mines_around};
use crate::cell::{Cell, CellKind, CellState, toggled};
use crate::game::{Difficulty, count_hidden_mines, mine_uncovered, reachable, reveal_path, revealed, selection};
use crate::geometry::{Point, Size};
use crate::grid::{
    Vec2, area, flat_index, in_bounds, lemma_flat_index, lemma_point_at, neighbor_candidate, neighbor_offset,
    neighbor_points, neighbors_upto, point_at,
};
use crate::lobby::{ServerMessageView, open_defs, selected_views};
use crate::serializables::SerializablePoint;
use crate::session::uuid_text;
use crate::session::Game as Session;
use crate::multiplayer::{Multiplayer, exact_half_bound, half_mines, on_turn, selected_by_player};

verus! {

/// Writing an element at an in-bounds point and reading it back gives the
/// element; every other in-bounds point reads as before.
pub proof fn law_write_then_read<T>(before: Vec2<T>, after: Vec2<T>, p: Point, e: T)
    requires
        before.wf(),
        in_bounds(before.dims(), p.x as int, p.y as int),
        after.dims() == before.dims(),
        after@ == before@.update(flat_index(before.dims(), p.x as int, p.y as int), e),
    ensures
        after.wf(),
        after.elem(p.x as int, p.y as int) == e,
        forall|q: Point|
            in_bounds(before.dims(), q.x as int, q.y as int) && q != p ==> #[trigger] after.elem(
                q.x as int,
                q.y as int,
            ) == before.elem(q.x as int, q.y as int),
{
    lemma_flat_index(before.dims(), p.x as int, p.y as int);
    assert forall|q: Point|
        in_bounds(before.dims(), q.x as int, q.y as int) && q != p implies #[trigger] after.elem(
        q.x as int,
        q.y as int,
    ) == before.elem(q.x as int, q.y as int) by {
        lemma_flat_index(before.dims(), q.x as int, q.y as int);
    }
}

/// Storage order walks every cell exactly once: flat positions below the
/// area and in-bounds points correspond one to one.
pub proof fn law_storage_order_is_a_bijection(size: Size)
    ensures
        forall|i: int|
            0 <= i < area(size) ==> in_bounds(size, #[trigger] point_at(size, i).x as int, point_at(size, i).y as int)
                && flat_index(size, point_at(size, i).x as int, point_at(size, i).y as int) == i,
        forall|x: int, y: int|
            in_bounds(size, x, y) ==> 0 <= #[trigger] flat_index(size, x, y) < area(size) && point_at(
                size,
                flat_index(size, x, y),
            ) == (Point { x: x as usize, y: y as usize }),
{
    assert forall|i: int| 0 <= i < area(size) implies in_bounds(
        size,
        #[trigger] point_at(size, i).x as int,
        point_at(size, i).y as int,
    ) && flat_index(size, point_at(size, i).x as int, point_at(size, i).y as int) == i by {
        lemma_point_at(size, i);
    }
    assert forall|x: int, y: int| in_bounds(size, x, y) implies 0 <= #[trigger] flat_index(size, x, y) < area(size)
        && point_at(size, flat_index(size, x, y)) == (Point { x: x as usize, y: y as usize }) by {
        lemma_flat_index(size, x, y);
    }
}

/// Walking a grid in storage order, as its iterators do, visits the points
/// `point_at(size, 0)`, `point_at(size, 1)`, ... up to the area: each
/// in-bounds point exactly once and nothing else.
pub proof fn law_iteration_visits_every_cell_once(size: Size)
    ensures
        Seq::new(area(size) as nat, |i: int| point_at(size, i)).no_duplicates(),
        forall|q: Point|
            Seq::new(area(size) as nat, |i: int| point_at(size, i)).contains(q) <==> in_bounds(
                size,
                q.x as int,
                q.y as int,
            ),
{
    law_storage_order_is_a_bijection(size);
    let walk = Seq::new(area(size) as nat, |i: int| point_at(size, i));
    assert(area(size) >= 0) by (nonlinear_arith)
        requires
            size.width >= 0,
            size.height >= 0,
    ;
    assert forall|a: int, b: int| 0 <= a < walk.len() && 0 <= b < walk.len() && a != b implies walk[a]
        != walk[b] by {
        assert(flat_index(size, point_at(size, a).x as int, point_at(size, a).y as int) == a);
        assert(flat_index(size, point_at(size, b).x as int, point_at(size, b).y as int) == b);
    }
    assert forall|q: Point| walk.contains(q) <==> in_bounds(size, q.x as int, q.y as int) by {
        if walk.contains(q) {
            let m = choose|m: int| 0 <= m < walk.len() && walk[m] == q;
            assert(in_bounds(size, point_at(size, m).x as int, point_at(size, m).y as int));
        }
        if in_bounds(size, q.x as int, q.y as int) {
            let m = flat_index(size, q.x as int, q.y as int);
            assert(point_at(size, m) == (Point { x: q.x as usize, y: q.y as usize }));
            assert(walk[m] == q);
        }
    }
}

proof fn lemma_neighbors_upto_contains(size: Size, p: Point, k: nat, q: Point)
    requires
        k <= 8,
    ensures
        neighbors_upto(size, p, k).contains(q) <==> exists|j: int|
            0 <= j < k && in_bounds(size, #[trigger] neighbor_candidate(p, j).0, neighbor_candidate(p, j).1)
                && q == (Point { x: neighbor_candidate(p, j).0 as usize, y: neighbor_candidate(p, j).1 as usize }),
    decreases k,
{
    if k > 0 {
        lemma_neighbors_upto_contains(size, p, (k - 1) as nat, q);
        let prev = neighbors_upto(size, p, (k - 1) as nat);
        let c = neighbor_candidate(p, k - 1);
        if in_bounds(size, c.0, c.1) {
            let np = Point { x: c.0 as usize, y: c.1 as usize };
            assert(prev.push(np).contains(q) <==> prev.contains(q) || q == np) by {
                if prev.push(np).contains(q) {
                    let m = choose|m: int| 0 <= m < prev.push(np).len() && prev.push(np)[m] == q;
                    if m < prev.len() {
                        assert(prev[m] == q);
                    }
                }
                if q == np {
                    assert(prev.push(np)[prev.len() as int] == q);
                }
                if prev.contains(q) {
                    let m = choose|m: int| 0 <= m < prev.len() && prev[m] == q;
                    assert(prev.push(np)[m] == q);
                }
            }
        }
    }
}

/// The neighbour candidates are listed at most once each.
proof fn lemma_neighbors_upto_distinct(size: Size, p: Point, k: nat)
    requires
        k <= 8,
    ensures
        neighbors_upto(size, p, k).no_duplicates(),
    decreases k,
{
    if k > 0 {
        lemma_neighbors_upto_distinct(size, p, (k - 1) as nat);
        let prev = neighbors_upto(size, p, (k - 1) as nat);
        let c = neighbor_candidate(p, k - 1);
        if in_bounds(size, c.0, c.1) {
            let np = Point { x: c.0 as usize, y: c.1 as usize };
            lemma_neighbors_upto_contains(size, p, (k - 1) as nat, np);
            if prev.contains(np) {
                let j = choose|j: int|
                    0 <= j < k - 1 && in_bounds(size, #[trigger] neighbor_candidate(p, j).0, neighbor_candidate(p, j).1)
                        && np == (Point {
                        x: neighbor_candidate(p, j).0 as usize,
                        y: neighbor_candidate(p, j).1 as usize,
                    });
                assert(neighbor_candidate(p, j) == c);
                assert(false);
            }
            assert forall|a: int, b: int|
                0 <= a < prev.push(np).len() && 0 <= b < prev.push(np).len() && a != b implies prev.push(np)[a]
                != prev.push(np)[b] by {
                if a < prev.len() && b < prev.len() {
                } else if a < prev.len() {
                    assert(prev.contains(prev[a]));
                } else if b < prev.len() {
                    assert(prev.contains(prev[b]));
                }
            }
        }
    }
}

/// The neighbours of a cell are exactly the other cells of the board at
/// most one column and one row away from it, each listed once.
pub proof fn law_neighbors_are_adjacent_cells(size: Size, p: Point, q: Point)
    requires
        p.x < i32::MAX,
        p.y < i32::MAX,
    ensures
        neighbor_points(size, p).contains(q) <==> {
            &&& in_bounds(size, q.x as int, q.y as int)
            &&& q != p
            &&& -1 <= q.x - p.x <= 1
            &&& -1 <= q.y - p.y <= 1
        },
        neighbor_points(size, p).no_duplicates(),
{
    lemma_neighbors_upto_distinct(size, p, 8);
    lemma_neighbors_upto_contains(size, p, 8, q);
    assert((p.x as i32) as int == p.x as int);
    assert((p.y as i32) as int == p.y as int);
    if in_bounds(size, q.x as int, q.y as int) && q != p && -1 <= q.x - p.x <= 1 && -1 <= q.y - p.y <= 1 {
        let dx = q.x - p.x;
        let dy = q.y - p.y;
        let j: int = if dx == -1 {
            if dy == -1 {
                0
            } else if dy == 0 {
                1
            } else {
                2
            }
        } else if dx == 0 {
            if dy == -1 {
                3
            } else {
                4
            }
        } else {
            if dy == -1 {
                5
            } else if dy == 0 {
                6
            } else {
                7
            }
        };
        assert(neighbor_offset(j) == (dx, dy));
        assert(in_bounds(size, neighbor_candidate(p, j).0, neighbor_candidate(p, j).1));
    }
}

/// Toggling the flag of the same cell twice gives the cells back.
pub proof fn law_toggle_flag_twice(cells: Seq<Cell>, i: int)
    requires
        0 <= i < cells.len(),
    ensures
        ({
            let once = cells.update(i, Cell { kind: cells[i].kind, state: toggled(cells[i].state) });
            once.update(i, Cell { kind: once[i].kind, state: toggled(once[i].state) })
        }) == cells,
{
    let once = cells.update(i, Cell { kind: cells[i].kind, state: toggled(cells[i].state) });
    let twice = once.update(i, Cell { kind: once[i].kind, state: toggled(once[i].state) });
    assert(twice =~= cells);
}

/// Selecting an unflagged cell on the board uncovers it.
pub proof fn law_selection_uncovers_the_cell(size: Size, before: Seq<Cell>, start: Point, after: Seq<Cell>)
    requires
        before.len() == area(size),
        in_bounds(size, start.x as int, start.y as int),
        before[flat_index(size, start.x as int, start.y as int)].state != CellState::Flagged,
        selection(size, before, start, after),
    ensures
        after[flat_index(size, start.x as int, start.y as int)].state == CellState::Cleared,
{
    lemma_flat_index(size, start.x as int, start.y as int);
    let path = seq![start];
    assert(reveal_path(size, before, start, path));
    assert(reachable(size, before, start, start));
    let i = flat_index(size, start.x as int, start.y as int);
    assert(point_at(size, i) == start);
}

/// Selection never removes a flag, never covers a cleared cell, and never
/// changes what lies under a cell.
pub proof fn law_selection_keeps_flags_and_cleared(size: Size, before: Seq<Cell>, start: Point, after: Seq<Cell>)
    requires
        before.len() == area(size),
        selection(size, before, start, after),
    ensures
        forall|i: int|
            0 <= i < before.len() ==> {
                &&& (#[trigger] after[i]).kind == before[i].kind
                &&& (before[i].state == CellState::Flagged <==> after[i].state == CellState::Flagged)
                &&& before[i].state == CellState::Cleared ==> after[i].state == CellState::Cleared
            },
{
    assert forall|i: int| 0 <= i < before.len() implies {
        &&& (#[trigger] after[i]).kind == before[i].kind
        &&& (before[i].state == CellState::Flagged <==> after[i].state == CellState::Flagged)
        &&& before[i].state == CellState::Cleared ==> after[i].state == CellState::Cleared
    } by {
        if revealed(size, before, start, point_at(size, i)) {
            lemma_revealed_not_flagged_at(size, before, start, i);
        }
    }
}

proof fn lemma_revealed_not_flagged_at(size: Size, cells: Seq<Cell>, start: Point, i: int)
    requires
        0 <= i < cells.len(),
        cells.len() == area(size),
        revealed(size, cells, start, point_at(size, i)),
    ensures
        cells[i].state != CellState::Flagged,
{
    lemma_point_at(size, i);
}

/// Selecting a numbered cell or a mine uncovers that cell alone: only empty
/// cells spread to their neighbours.
pub proof fn law_numbers_do_not_spread(size: Size, before: Seq<Cell>, start: Point, after: Seq<Cell>)
    requires
        before.len() == area(size),
        in_bounds(size, start.x as int, start.y as int),
        before[flat_index(size, start.x as int, start.y as int)].kind != CellKind::Empty,
        selection(size, before, start, after),
    ensures
        forall|i: int|
            0 <= i < before.len() && i != flat_index(size, start.x as int, start.y as int) ==> #[trigger] after[i]
                == before[i],
{
    lemma_flat_index(size, start.x as int, start.y as int);
    assert forall|i: int|
        0 <= i < before.len() && i != flat_index(size, start.x as int, start.y as int) implies #[trigger] after[i]
        == before[i] by {
        if reachable(size, before, start, point_at(size, i)) {
            let path = choose|path: Seq<Point>| #[trigger]
                reveal_path(size, before, start, path) && path.last() == point_at(size, i);
            if path.len() > 1 {
                assert(path[0] == start);
            } else {
                lemma_point_at(size, i);
                assert(point_at(size, i) == start);
            }
        }
    }
}

/// A revealing path depends only on what lies under the cells and on the
/// flags, so it survives a selection.
proof fn lemma_reveal_path_after_selection(
    size: Size,
    before: Seq<Cell>,
    start: Point,
    after: Seq<Cell>,
    s2: Point,
    path: Seq<Point>,
)
    requires
        before.len() == area(size),
        selection(size, before, start, after),
    ensures
        reveal_path(size, before, s2, path) <==> reveal_path(size, after, s2, path),
{
    law_selection_keeps_flags_and_cleared(size, before, start, after);
    if reveal_path(size, before, s2, path) || reveal_path(size, after, s2, path) {
        assert forall|k: int| 0 <= k < path.len() - 1 implies {
            let i = flat_index(size, (#[trigger] path[k]).x as int, path[k].y as int);
            &&& before[i].kind == after[i].kind
            &&& (before[i].state == CellState::Flagged <==> after[i].state == CellState::Flagged)
        } by {
            lemma_flat_index(size, path[k].x as int, path[k].y as int);
        }
    }
}

/// Selecting the same cell a second time changes nothing.
pub proof fn law_selection_is_idempotent(
    size: Size,
    before: Seq<Cell>,
    start: Point,
    once: Seq<Cell>,
    twice: Seq<Cell>,
)
    requires
        before.len() == area(size),
        selection(size, before, start, once),
        selection(size, once, start, twice),
    ensures
        twice == once,
{
    law_selection_keeps_flags_and_cleared(size, before, start, once);
    assert forall|i: int| 0 <= i < once.len() implies #[trigger] twice[i] == once[i] by {
        let q = point_at(size, i);
        if reachable(size, once, start, q) {
            let path = choose|path: Seq<Point>| #[trigger] reveal_path(size, once, start, path) && path.last() == q;
            lemma_reveal_path_after_selection(size, before, start, once, start, path);
            assert(reachable(size, before, start, q));
        }
        if reachable(size, before, start, q) {
            let path = choose|path: Seq<Point>| #[trigger] reveal_path(size, before, start, path) && path.last() == q;
            lemma_reveal_path_after_selection(size, before, start, once, start, path);
            assert(reachable(size, once, start, q));
        }
        lemma_point_at(size, i);
    }
    assert(twice =~= once);
}

/// A game is won (no mine hidden, none uncovered) exactly when every mine
/// is flagged.
pub proof fn law_won_iff_every_mine_flagged(cells: Seq<Cell>)
    ensures
        (count_hidden_mines(cells) == 0 && !mine_uncovered(cells)) <==> forall|i: int|
            0 <= i < cells.len() && (#[trigger] cells[i]).kind == CellKind::Mine ==> cells[i].state
                == CellState::Flagged,
    decreases cells.len(),
{
    if cells.len() > 0 {
        let t = cells.drop_last();
        law_won_iff_every_mine_flagged(t);
        assert(mine_uncovered(t) ==> mine_uncovered(cells)) by {
            if mine_uncovered(t) {
                let i = choose|i: int|
                    0 <= i < t.len() && (#[trigger] t[i]).kind == CellKind::Mine && t[i].state == CellState::Cleared;
                assert(cells[i] == t[i]);
            }
        }
        assert((forall|i: int|
            0 <= i < cells.len() && (#[trigger] cells[i]).kind == CellKind::Mine ==> cells[i].state
                == CellState::Flagged) ==> (forall|i: int|
            0 <= i < t.len() && (#[trigger] t[i]).kind == CellKind::Mine ==> t[i].state
                == CellState::Flagged)) by {
            assert forall|i: int| 0 <= i < t.len() implies t[i] == cells[i] by {}
        }
        let last = cells.len() - 1;
        assert(cells.last() == cells[last]);
        if count_hidden_mines(cells) == 0 && !mine_uncovered(cells) {
            assert(!mine_uncovered(t));
            assert forall|i: int|
                0 <= i < cells.len() && (#[trigger] cells[i]).kind == CellKind::Mine implies cells[i].state
                == CellState::Flagged by {
                if i < t.len() {
                    assert(t[i] == cells[i]);
                } else {
                    assert(!(cells[last].kind == CellKind::Mine && cells[last].state == CellState::Cleared));
                }
            }
        }
        if forall|i: int|
            0 <= i < cells.len() && (#[trigger] cells[i]).kind == CellKind::Mine ==> cells[i].state
                == CellState::Flagged {
            assert(cells[last].kind == CellKind::Mine ==> cells[last].state == CellState::Flagged);
            assert(!mine_uncovered(cells));
        }
    }
}

/// Exactly one player is on turn before a selection, so exactly one is
/// after it.
pub proof fn law_one_player_on_turn(before: Multiplayer, coordinates: Point, after: Multiplayer)
    requires
        selected_by_player(before, coordinates, after),
        before.local_player.is_active != before.remote_player.is_active,
    ensures
        after.local_player.is_active != after.remote_player.is_active,
{
}

/// A mine that a player scores by selecting it, and that carried no flag,
/// is uncovered afterwards and cannot be scored again.
pub proof fn law_scored_mine_is_uncovered(before: Multiplayer, coordinates: Point, after: Multiplayer)
    requires
        before.wf(),
        selected_by_player(before, coordinates, after),
        in_bounds(before.game.board.dims(), coordinates.x as int, coordinates.y as int),
        before.game.board.cell(coordinates.x as int, coordinates.y as int).kind == CellKind::Mine,
        before.game.board.cell(coordinates.x as int, coordinates.y as int).state == CellState::Hidden,
    ensures
        after.game.board.cell(coordinates.x as int, coordinates.y as int).state == CellState::Cleared,
        after.local_player.mines_found@.len() + after.remote_player.mines_found@.len()
            == before.local_player.mines_found@.len() + before.remote_player.mines_found@.len() + 1,
{
    law_selection_uncovers_the_cell(
        before.game.board.dims(),
        before.game.board.cells@,
        coordinates,
        after.game.board.cells@,
    );
}

/// While neither player has passed half the mines, nothing remains to be
/// found exactly when the game is finished.
pub proof fn law_nothing_remaining_iff_finished(m: Multiplayer)
    requires
        m.game.total_mines <= exact_half_bound(),
        m.local_player.mines_found@.len() <= half_mines(m.game.total_mines as int),
        m.remote_player.mines_found@.len() <= half_mines(m.game.total_mines as int),
    ensures
        m.finished() <==> half_mines(m.game.total_mines as int) - if m.local_player.mines_found@.len()
            >= m.remote_player.mines_found@.len() {
            m.local_player.mines_found@.len()
        } else {
            m.remote_player.mines_found@.len()
        } == 0,
{
    let a = m.local_player.mines_found@.len();
    let b = m.remote_player.mines_found@.len();
    assert(a <= i32::MAX && b <= i32::MAX);
    assert((a as i32) as int == a);
    assert((b as i32) as int == b);
}

/// The entry of a game in the list of open games.
pub open spec fn open_entry(g: Session) -> (Seq<char>, Seq<char>, Difficulty) {
    (g.multi_game().local_player.name@, g.id(), g.multi_game().game.difficulty)
}

/// `e` is the entry of some game without a client.
pub open spec fn entry_of_open_game(games: Seq<Session>, e: (Seq<char>, Seq<char>, Difficulty)) -> bool {
    exists|i: int| 0 <= i < games.len() && (#[trigger] games[i]).client() is None && open_entry(games[i]) == e
}

/// The listed open games are the games without a client: every entry
/// comes from such a game, and every such game has an entry.
pub proof fn law_open_games_are_the_games_without_client(games: Seq<Session>)
    ensures
        forall|k: int| 0 <= k < open_defs(games).len() ==> entry_of_open_game(games, #[trigger] open_defs(games)[k]),
        forall|i: int|
            0 <= i < games.len() && (#[trigger] games[i]).client() is None ==> open_defs(games).contains(
                open_entry(games[i]),
            ),
    decreases games.len(),
{
    if games.len() > 0 {
        let t = games.drop_last();
        law_open_games_are_the_games_without_client(t);
        let prev = open_defs(t);
        let g = games.last();
        let entry = open_entry(g);
        assert forall|k: int| 0 <= k < open_defs(games).len() implies entry_of_open_game(
            games,
            #[trigger] open_defs(games)[k],
        ) by {
            if k < prev.len() {
                if g.client() is None {
                    assert(open_defs(games) == prev.push(entry));
                    assert(prev.push(entry)[k] == prev[k]);
                } else {
                    assert(open_defs(games) == prev);
                }
                assert(entry_of_open_game(t, prev[k]));
                let i = choose|i: int| 0 <= i < t.len() && (#[trigger] t[i]).client() is None && open_entry(t[i]) == prev[k];
                assert(games[i] == t[i]);
            } else {
                assert(g.client() is None);
                assert(open_defs(games) == prev.push(entry));
                assert(open_defs(games)[k] == entry);
                assert(games[games.len() - 1] == g);
            }
        }
        assert forall|i: int| 0 <= i < games.len() && (#[trigger] games[i]).client() is None implies open_defs(
            games,
        ).contains(open_entry(games[i])) by {
            if i < t.len() {
                assert(games[i] == t[i]);
                let e = open_entry(t[i]);
                assert(prev.contains(e));
                let m = choose|m: int| 0 <= m < prev.len() && prev[m] == e;
                if g.client() is None {
                    assert(prev.push(entry)[m] == e);
                }
            } else {
                assert(prev.push(entry)[prev.len() as int] == entry);
            }
        }
    }
}


/// The cell at `q` holds a mine.
pub open spec fn holds_mine(size: Size, cells: Seq<Cell>, q: Point) -> bool {
    cells[flat_index(size, q.x as int, q.y as int)].kind == CellKind::Mine
}

/// Counting the mines among distinct points counts the points that hold one.
proof fn lemma_mines_among_card(size: Size, cells: Seq<Cell>, pts: Seq<Point>)
    requires
        pts.no_duplicates(),
    ensures
        pts.to_set().filter(|q: Point| holds_mine(size, cells, q)).finite(),
        mines_among(size, cells, pts) == pts.to_set().filter(|q: Point| holds_mine(size, cells, q)).len(),
    decreases pts.len(),
{
    let pred = |q: Point| holds_mine(size, cells, q);
    if pts.len() == 0 {
        assert(pts.to_set().filter(pred) =~= Set::empty());
    } else {
        let prev = pts.drop_last();
        let x = pts.last();
        assert(prev.push(x) =~= pts);
        assert(prev.no_duplicates());
        assert(!prev.contains(x)) by {
            if prev.contains(x) {
                let m = choose|m: int| 0 <= m < prev.len() && prev[m] == x;
                assert(pts[m] == pts[pts.len() - 1]);
            }
        }
        lemma_mines_among_card(size, cells, prev);
        prev.lemma_push_to_set_commute(x);
        let fp = prev.to_set().filter(pred);
        if pred(x) {
            assert(pts.to_set().filter(pred) =~= fp.insert(x));
            assert(!fp.contains(x));
        } else {
            assert(pts.to_set().filter(pred) =~= fp);
        }
    }
}

/// A numbered cell counts exactly the mines on the cells adjacent to it:
/// the number of mines around `p` is the number of in-bounds cells other
/// than `p`, at most one column and one row away, that hold a mine.
pub proof fn law_numbers_count_adjacent_mines(size: Size, cells: Seq<Cell>, p: Point)
    requires
        p.x < i32::MAX,
        p.y < i32::MAX,
    ensures
        mines_around(size, cells, p) == Set::new(
            |q: Point|
                {
                    &&& in_bounds(size, q.x as int, q.y as int)
                    &&& q != p
                    &&& -1 <= q.x - p.x <= 1
                    &&& -1 <= q.y - p.y <= 1
                    &&& holds_mine(size, cells, q)
                },
        ).len(),
{
    let pts = neighbor_points(size, p);
    law_neighbors_are_adjacent_cells(size, p, p);
    lemma_mines_among_card(size, cells, pts);
    let target = Set::new(
        |q: Point|
            {
                &&& in_bounds(size, q.x as int, q.y as int)
                &&& q != p
                &&& -1 <= q.x - p.x <= 1
                &&& -1 <= q.y - p.y <= 1
                &&& holds_mine(size, cells, q)
            },
    );
    assert forall|q: Point| #[trigger] target.contains(q) <==> pts.to_set().filter(
        |q: Point| holds_mine(size, cells, q),
    ).contains(q) by {
        law_neighbors_are_adjacent_cells(size, p, q);
    }
    assert(target =~= pts.to_set().filter(|q: Point| holds_mine(size, cells, q)));
}


/// `s` holds the unflagged start of a selection and, with every unflagged
/// empty cell it holds, every unflagged neighbour of that cell.
pub open spec fn closed_under_reveal(size: Size, cells: Seq<Cell>, start: Point, s: Set<Point>) -> bool {
    &&& in_bounds(size, start.x as int, start.y as int) && cells[flat_index(
        size,
        start.x as int,
        start.y as int,
    )].state != CellState::Flagged ==> s.contains(start)
    &&& forall|p: Point, q: Point|
        #![trigger s.contains(p), neighbor_points(size, p).contains(q)]
        s.contains(p) && cells[flat_index(size, p.x as int, p.y as int)].state != CellState::Flagged
            && cells[flat_index(size, p.x as int, p.y as int)].kind == CellKind::Empty && neighbor_points(
            size,
            p,
        ).contains(q) && cells[flat_index(size, q.x as int, q.y as int)].state != CellState::Flagged
            ==> s.contains(q)
}

/// The neighbours of a point lie on the board.
proof fn lemma_neighbors_in_bounds(size: Size, p: Point, q: Point)
    requires
        neighbor_points(size, p).contains(q),
    ensures
        in_bounds(size, q.x as int, q.y as int),
{
    lemma_neighbors_upto_contains(size, p, 8, q);
}

/// Every revealed cell lies in each set closed under revealing.
proof fn lemma_revealed_in_closed_set(
    size: Size,
    cells: Seq<Cell>,
    start: Point,
    s: Set<Point>,
    path: Seq<Point>,
)
    requires
        closed_under_reveal(size, cells, start, s),
        reveal_path(size, cells, start, path),
        cells[flat_index(size, path.last().x as int, path.last().y as int)].state != CellState::Flagged,
    ensures
        s.contains(path.last()),
    decreases path.len(),
{
    if path.len() > 1 {
        let prev = path.drop_last();
        assert forall|k: int| 0 <= k < prev.len() implies in_bounds(
            size,
            (#[trigger] prev[k]).x as int,
            prev[k].y as int,
        ) by {
            assert(prev[k] == path[k]);
        }
        assert forall|k: int| 0 <= k < prev.len() - 1 implies {
            let c = cells[flat_index(size, (#[trigger] prev[k]).x as int, prev[k].y as int)];
            &&& c.state != CellState::Flagged
            &&& c.kind == CellKind::Empty
            &&& neighbor_points(size, prev[k]).contains(prev[k + 1])
        } by {
            assert(prev[k] == path[k]);
            assert(prev[k + 1] == path[k + 1]);
        }
        let m = path.len() - 2;
        assert(prev.last() == path[m]);
        assert(path[m + 1] == path.last());
        lemma_revealed_in_closed_set(size, cells, start, s, prev);
        assert(neighbor_points(size, path[m]).contains(path[m + 1]));
    }
}

/// The cells that a selection uncovers form the least set closed under
/// revealing: the unflagged start, and every unflagged neighbour of an
/// unflagged empty cell uncovered. They are closed under those rules, and
/// any set closed under them holds them all.
pub proof fn law_selection_is_least_closed_set(size: Size, cells: Seq<Cell>, start: Point, s: Set<Point>)
    ensures
        closed_under_reveal(size, cells, start, Set::new(|q: Point| revealed(size, cells, start, q))),
        closed_under_reveal(size, cells, start, s) ==> forall|q: Point|
            #[trigger] revealed(size, cells, start, q) ==> s.contains(q),
{
    let r = Set::new(|q: Point| revealed(size, cells, start, q));
    if in_bounds(size, start.x as int, start.y as int) && cells[flat_index(
        size,
        start.x as int,
        start.y as int,
    )].state != CellState::Flagged {
        let path = seq![start];
        assert(reveal_path(size, cells, start, path));
        assert(r.contains(start));
    }
    assert forall|p: Point, q: Point|
        r.contains(p) && cells[flat_index(size, p.x as int, p.y as int)].state != CellState::Flagged
            && cells[flat_index(size, p.x as int, p.y as int)].kind == CellKind::Empty && neighbor_points(
            size,
            p,
        ).contains(q) && cells[flat_index(size, q.x as int, q.y as int)].state
            != CellState::Flagged implies r.contains(q) by {
        let path = choose|path: Seq<Point>| #[trigger] reveal_path(size, cells, start, path) && path.last() == p;
        let longer = path.push(q);
        lemma_neighbors_in_bounds(size, p, q);
        assert forall|k: int| 0 <= k < longer.len() implies in_bounds(
            size,
            (#[trigger] longer[k]).x as int,
            longer[k].y as int,
        ) by {
            if k < path.len() {
                assert(longer[k] == path[k]);
            }
        }
        assert forall|k: int| 0 <= k < longer.len() - 1 implies {
            let c = cells[flat_index(size, (#[trigger] longer[k]).x as int, longer[k].y as int)];
            &&& c.state != CellState::Flagged
            &&& c.kind == CellKind::Empty
            &&& neighbor_points(size, longer[k]).contains(longer[k + 1])
        } by {
            assert(longer[k] == path[k]);
            if k < path.len() - 1 {
                assert(longer[k + 1] == path[k + 1]);
            } else {
                assert(path[k] == path.last());
            }
        }
        assert(reveal_path(size, cells, start, longer));
        assert(longer.last() == q);
    }
    if closed_under_reveal(size, cells, start, s) {
        assert forall|q: Point| #[trigger] revealed(size, cells, start, q) implies s.contains(q) by {
            let path = choose|path: Seq<Point>| #[trigger] reveal_path(size, cells, start, path) && path.last() == q;
            lemma_revealed_in_closed_set(size, cells, start, s, path);
        }
    }
}


/// On a board whose cells are all hidden, as a new game's are, every mine
/// is a hidden mine: the count of remaining mines is the count of mines.
pub proof fn law_fresh_board_hides_every_mine(cells: Seq<Cell>)
    requires
        forall|i: int| 0 <= i < cells.len() ==> (#[trigger] cells[i]).state == CellState::Hidden,
    ensures
        count_hidden_mines(cells) == count_mines(cells),
    decreases cells.len(),
{
    if cells.len() > 0 {
        let t = cells.drop_last();
        assert forall|i: int| 0 <= i < t.len() implies (#[trigger] t[i]).state == CellState::Hidden by {
            assert(t[i] == cells[i]);
        }
        law_fresh_board_hides_every_mine(t);
        assert(cells.last() == cells[cells.len() - 1]);
    }
}


/// The game is over exactly when some mine lies uncovered, whatever the
/// other cells hold: a mine anywhere on the board that is cleared ends it.
pub proof fn law_game_over_iff_a_mine_is_uncovered(cells: Seq<Cell>, i: int)
    ensures
        0 <= i < cells.len() && cells[i].kind == CellKind::Mine && cells[i].state == CellState::Cleared
            ==> mine_uncovered(cells),
        mine_uncovered(cells) ==> exists|j: int|
            0 <= j < cells.len() && (#[trigger] cells[j]).kind == CellKind::Mine && cells[j].state
                == CellState::Cleared,
{
}

/// Selecting an unflagged mine ends the game, whatever other mines the
/// board holds and wherever they lie.
pub proof fn law_selecting_a_mine_ends_the_game(size: Size, before: Seq<Cell>, start: Point, after: Seq<Cell>)
    requires
        before.len() == area(size),
        in_bounds(size, start.x as int, start.y as int),
        before[flat_index(size, start.x as int, start.y as int)].kind == CellKind::Mine,
        before[flat_index(size, start.x as int, start.y as int)].state != CellState::Flagged,
        selection(size, before, start, after),
    ensures
        mine_uncovered(after),
{
    law_selection_uncovers_the_cell(size, before, start, after);
    lemma_flat_index(size, start.x as int, start.y as int);
    let i = flat_index(size, start.x as int, start.y as int);
    law_game_over_iff_a_mine_is_uncovered(after, i);
}

/// Selecting a cell that is already uncovered, mine or not, changes
/// neither player: nothing is scored and the turn stays where it was. So a
/// mine, once found, can never be scored again.
pub proof fn law_selecting_a_cleared_cell_changes_no_player(
    before: Multiplayer,
    coordinates: Point,
    after: Multiplayer,
)
    requires
        selected_by_player(before, coordinates, after),
        in_bounds(before.game.board.dims(), coordinates.x as int, coordinates.y as int),
        before.game.board.cell(coordinates.x as int, coordinates.y as int).state == CellState::Cleared,
    ensures
        after.local_player == before.local_player,
        after.remote_player == before.remote_player,
{
}

/// Every message sent after a selection tells its recipient the truth: it
/// comes from the other player exactly when the recipient did not send the
/// selection, and the recipient is on turn exactly when it is the player
/// on turn in the game after the move. The host hears first, then the
/// client.
pub proof fn law_selection_messages_tell_sender_and_turn(
    g: Session,
    coordinates: SerializablePoint,
    sender: u128,
    connected: Seq<u128>,
)
    ensures
        forall|k: int|
            0 <= k < selected_views(g, coordinates, sender, connected).len() ==> {
                let (r, v) = #[trigger] selected_views(g, coordinates, sender, connected)[k];
                &&& k == 0 ==> r == g.host()
                &&& k == 1 ==> g.client() == Some(r)
                &&& connected.contains(r)
                &&& v matches ServerMessageView::CellSelected {
                    coordinates: c,
                    is_remote_sender,
                    is_active_player,
                    ..
                } && c == coordinates && is_remote_sender == (r != sender) && is_active_player == (on_turn(
                    g.multi_game().local_player,
                    g.multi_game().remote_player,
                ).id@ == uuid_text(r))
            },
        selected_views(g, coordinates, sender, connected).len() <= 2,
{
}

} // verus!
