//! What holds of the engine whatever the arena looks like, proved from the
//! model in `resolver` and `model`.

use vstd::prelude::*;
use crate::arena::{
    cell_index, count, inside, is_arena, lemma_count_grows, lemma_count_same_cells,
    lemma_count_single, lemma_count_update, lemma_count_zero, lemma_index_inside,
    lemma_index_join, lemma_index_unique, robots,
};
use crate::enums::{GameState, ObjectType, PlayerCommand};
use crate::model::GameView;
use crate::resolver::{
    advance, between_passes, distance, fits, kill_weight, lemma_advance_adjacent,
    lemma_advance_keeps_heaps, lemma_advance_keeps_player, lemma_advance_within, within, lemma_advance_robots, lemma_staged_shape, lemma_step_inside,
    only_heaps, opening, push_target, pushed, resolve, robot_step, room, staged, steps_in_pass,
    sweep, toward, without_fast, Chase, Scene, ScoreTable,
};

verus! {

/// After every turn exactly one cell holds the player, and it is the cell
/// they have moved to. This is so whether or not a robot has caught them:
/// the robot that does leaves the player's marker where it is.
pub proof fn law_one_player_after_turn(
    cells: Seq<ObjectType>,
    width: int,
    height: int,
    px: int,
    py: int,
    dx: int,
    dy: int,
    push: bool,
    table: ScoreTable,
)
    requires
        is_arena(cells, width, height),
        resolve(cells, width, height, px, py, dx, dy, push, table).is_some(),
    ensures
        ({
            let after = resolve(cells, width, height, px, py, dx, dy, push, table).unwrap();
            &&& inside(px + dx, py + dy, width, height)
            &&& after.cells.len() == cells.len()
            &&& after.cells[cell_index(px + dx, py + dy, width)] == ObjectType::Player
            &&& count(after.cells, ObjectType::Player) == 1
        }),
{
    lemma_staged_shape(cells, width, height, px, py, dx, dy, push);
    let candidate = staged(cells, width, height, px, py, dx, dy, push).unwrap();
    let c = Chase { width, height, player_x: px + dx, player_y: py + dy, table };
    let after = advance(cells, candidate, c);
    let to = cell_index(px + dx, py + dy, width);
    lemma_advance_keeps_player(cells, candidate, c);
    assert forall|i: int| 0 <= i < after.cells.len() implies (after.cells[i]
        == ObjectType::Player <==> i == to) by {
        assert(after.cells[i] == ObjectType::Player <==> candidate[i] == ObjectType::Player);
    }
    lemma_count_single(after.cells, ObjectType::Player, to);
}

/// A turn never adds a robot: after it there are at most as many as before.
pub proof fn law_turn_adds_no_robot(
    cells: Seq<ObjectType>,
    width: int,
    height: int,
    px: int,
    py: int,
    dx: int,
    dy: int,
    push: bool,
    table: ScoreTable,
)
    requires
        is_arena(cells, width, height),
        resolve(cells, width, height, px, py, dx, dy, push, table).is_some(),
    ensures
        robots(resolve(cells, width, height, px, py, dx, dy, push, table).unwrap().cells)
            <= robots(cells),
{
    lemma_staged_shape(cells, width, height, px, py, dx, dy, push);
    let candidate = staged(cells, width, height, px, py, dx, dy, push).unwrap();
    let c = Chase { width, height, player_x: px + dx, player_y: py + dy, table };
    lemma_count_zero(candidate, ObjectType::Robot1);
    lemma_count_zero(candidate, ObjectType::Robot2);
    lemma_advance_robots(cells, candidate, c);
}

/// No command of the player adds a robot to the level.
pub proof fn law_command_adds_no_robot(before: GameView, after: GameView, command: PlayerCommand)
    requires
        before.wf(),
        after.obeys(before, command),
    ensures
        after.wf(),
        robots(after.cells) <= robots(before.cells),
{
    if before.state == GameState::Playing {
        match command {
            PlayerCommand::SafeTeleport => {
                if before.safeteleports > 0 && before.has_landing(true) {
                    let (x, y) = choose|x: int, y: int|
                        #[trigger] before.can_land(x, y, true) && after == before.landed(
                            x,
                            y,
                            true,
                        ).charged(1);
                    before.lemma_after_move(x - before.player_x, y - before.player_y, true);
                }
            },
            PlayerCommand::RandomTeleport => {
                let (x, y) = choose|x: int, y: int|
                    #[trigger] before.is_free(x, y) && after == before.landed(x, y, false);
                before.lemma_after_move(x - before.player_x, y - before.player_y, false);
            },
            PlayerCommand::Wait => {},
            _ => {
                before.lemma_after_move(
                    command.direction().0 as int,
                    command.direction().1 as int,
                    before.safe_moves,
                );
            },
        }
    }
}

/// No step of waiting adds a robot to the level.
pub proof fn law_waiting_adds_no_robot(before: GameView, kills: int)
    requires
        before.wf(),
        0 <= kills <= u16::MAX,
    ensures
        before.after_wait(kills).wf(),
        robots(before.after_wait(kills).cells) <= robots(before.cells),
{
    before.lemma_after_move(0, 0, false);
}

/// While the player waits the robots close in: if every robot is at most
/// `reach` steps away from the player, then after one step of waiting every
/// robot that is left is at most `reach - 1` steps away. The player has not
/// moved. If every robot was at most one step away, the waiting is over:
/// either no robot was left, or the player is dead.
pub proof fn law_waiting_closes_in(g: GameView, kills: int, reach: int)
    requires
        g.wf(),
        g.state == GameState::Waiting,
        within(g.cells, g.chase(g.player_x, g.player_y), reach),
    ensures
        ({
            let after = g.after_wait(kills);
            &&& after.wf()
            &&& after.width == g.width
            &&& after.height == g.height
            &&& after.player_x == g.player_x
            &&& after.player_y == g.player_y
            &&& after.profile == g.profile
            &&& within(after.cells, g.chase(g.player_x, g.player_y), reach - 1)
            &&& reach <= 1 ==> after.state != GameState::Waiting
        }),
{
    g.lemma_after_move(0, 0, false);
    let c = g.chase(g.player_x, g.player_y);
    let at = cell_index(g.player_x, g.player_y, g.width);
    lemma_index_inside(g.player_x, g.player_y, g.width, g.height);
    let candidate = only_heaps(g.cells).update(at, ObjectType::Player);
    assert(staged(
        g.cells,
        g.width,
        g.height,
        g.player_x,
        g.player_y,
        0,
        0,
        g.profile.moveable_heaps,
    ) == Some(candidate));
    let s = advance(g.cells, candidate, c);
    assert(g.resolution(0, 0) == Some(s));
    assert(g.after_wait(kills).cells == s.cells);
    lemma_advance_within(g.cells, candidate, c, reach - 1);
    if reach <= 1 {
        if robots(g.cells) == 0 {
        } else {
            lemma_count_zero(g.cells, ObjectType::Robot1);
            lemma_count_zero(g.cells, ObjectType::Robot2);
            let k = choose|k: int| 0 <= k < g.cells.len() && g.cells[k].is_robot();
            lemma_advance_adjacent(g.cells, candidate, c, k);
        }
    }
}

/// No robot is further from the player than the longer side of the arena
/// is long, less one.
proof fn lemma_within_arena(g: GameView)
    requires
        g.wf(),
    ensures
        within(g.cells, g.chase(g.player_x, g.player_y), g.longest_side() - 1),
{
    let c = g.chase(g.player_x, g.player_y);
    assert forall|i: int| 0 <= i < g.cells.len() && (#[trigger] g.cells[i]).is_robot() implies distance(
        i % c.width,
        i / c.width,
        c,
    ) <= g.longest_side() - 1 by {
        lemma_index_join(i, g.width, g.height);
    }
}

/// Waiting that starts with every robot at most `reach` steps away is over
/// after `reach` steps, and after one step if `reach` is less.
proof fn lemma_waiting_ends_within(g: GameView, kills: int, reach: int, ticks: nat)
    requires
        g.wf(),
        within(g.cells, g.chase(g.player_x, g.player_y), reach),
        ticks >= 1,
        ticks >= reach,
    ensures
        g.waited(kills, ticks).state != GameState::Waiting,
    decreases ticks,
{
    if g.state == GameState::Waiting {
        law_waiting_closes_in(g, kills, reach);
        let after = g.after_wait(kills);
        let rest = (ticks - 1) as nat;
        assert(g.waited(kills, ticks) == after.waited(g.kills_left(kills), rest));
        if after.state == GameState::Waiting {
            assert(after.chase(after.player_x, after.player_y) == g.chase(
                g.player_x,
                g.player_y,
            ));
            lemma_waiting_ends_within(after, g.kills_left(kills), reach - 1, rest);
        } else {
            assert(after.waited(g.kills_left(kills), rest) == after);
        }
    }
}

/// Waiting comes to an end: after at most as many steps as the longer side
/// of the arena is long, the player is dead or the level is won.
pub proof fn law_waiting_ends(g: GameView, kills: int)
    requires
        g.wf(),
        g.state == GameState::Waiting,
    ensures
        g.waited(kills, g.longest_side() as nat).state != GameState::Waiting,
        g.waited(kills, g.longest_side() as nat).state == GameState::Dead || g.waited(
            kills,
            g.longest_side() as nat,
        ).state == GameState::LevelComplete,
{
    lemma_within_arena(g);
    lemma_waiting_ends_within(g, kills, g.longest_side() - 1, g.longest_side() as nat);
    lemma_waited_state(g, kills, g.longest_side() as nat);
}

/// Waiting leads to no state but `Waiting`, `Dead` and `LevelComplete`.
proof fn lemma_waited_state(g: GameView, kills: int, ticks: nat)
    requires
        g.wf(),
        g.state == GameState::Waiting,
    ensures
        g.waited(kills, ticks).state == GameState::Waiting || g.waited(kills, ticks).state
            == GameState::Dead || g.waited(kills, ticks).state == GameState::LevelComplete,
    decreases ticks,
{
    if ticks > 0 {
        g.lemma_after_move(0, 0, false);
        let after = g.after_wait(kills);
        let rest = (ticks - 1) as nat;
        assert(g.waited(kills, ticks) == after.waited(g.kills_left(kills), rest));
        if after.state == GameState::Waiting {
            lemma_waited_state(after, g.kills_left(kills), rest);
        } else {
            assert(after.waited(g.kills_left(kills), rest) == after);
        }
    }
}

/// A move across the border of the arena is refused, and leaves the session
/// and the running kill weight exactly as they were.
pub proof fn law_border_refuses(g: GameView, dx: int, dy: int, safe: bool, kills: int)
    requires
        g.wf(),
        !inside(g.player_x + dx, g.player_y + dy, g.width, g.height),
    ensures
        g.resolution(dx, dy).is_none(),
        !g.accepts(dx, dy, safe),
        g.after_move(dx, dy, safe) == g,
        g.kills_after(dx, dy, safe, kills) == kills,
{
}

/// A move that is not carried out, for whatever reason, leaves the session
/// and the running kill weight exactly as they were.
pub proof fn law_refused_move_is_no_move(g: GameView, dx: int, dy: int, safe: bool, kills: int)
    requires
        !g.accepts(dx, dy, safe),
    ensures
        g.after_move(dx, dy, safe) == g,
        g.kills_after(dx, dy, safe, kills) == kills,
{
}

/// A row of `n` heaps can be pushed exactly if the cell right after the row
/// is a free cell of the arena. Pushing it empties the first cell of the row
/// and puts a heap on the cell after the row.
///
/// The row starts at `(x, y)` and runs on in steps of `(dx, dy)`.
pub proof fn law_push_row(
    cells: Seq<ObjectType>,
    x: int,
    y: int,
    dx: int,
    dy: int,
    width: int,
    height: int,
    n: nat,
)
    requires
        cells.len() == width * height,
        dx != 0 || dy != 0,
        n >= 1,
        forall|k: int|
            0 <= k < n ==> inside(x + k * dx, y + k * dy, width, height) && #[trigger] cells[cell_index(
                x + k * dx,
                y + k * dy,
                width,
            )] == ObjectType::Heap,
        !(inside(x + n * dx, y + n * dy, width, height) && cells[cell_index(
            x + n * dx,
            y + n * dy,
            width,
        )] == ObjectType::Heap),
    ensures
        ({
            let past_x = x + n * dx;
            let past_y = y + n * dy;
            let past = cell_index(past_x, past_y, width);
            pushed(cells, x, y, dx, dy, width, height) == if inside(past_x, past_y, width, height)
                && cells[past] == ObjectType::Empty {
                Some(
                    cells.update(cell_index(x, y, width), ObjectType::Empty).update(
                        past,
                        ObjectType::Heap,
                    ),
                )
            } else {
                None
            }
        }),
{
    lemma_row_target(cells, x, y, dx, dy, width, height, n);
}

/// Where the push of a row of `n` heaps goes to: the cell right after the
/// row, if it is a free cell of the arena.
proof fn lemma_row_target(
    cells: Seq<ObjectType>,
    x: int,
    y: int,
    dx: int,
    dy: int,
    width: int,
    height: int,
    n: nat,
)
    requires
        cells.len() == width * height,
        dx != 0 || dy != 0,
        n >= 1,
        forall|k: int|
            0 <= k < n ==> inside(x + k * dx, y + k * dy, width, height) && #[trigger] cells[cell_index(
                x + k * dx,
                y + k * dy,
                width,
            )] == ObjectType::Heap,
        !(inside(x + n * dx, y + n * dy, width, height) && cells[cell_index(
            x + n * dx,
            y + n * dy,
            width,
        )] == ObjectType::Heap),
    ensures
        push_target(cells, x, y, dx, dy, width, height) == if inside(
            x + n * dx,
            y + n * dy,
            width,
            height,
        ) && cells[cell_index(x + n * dx, y + n * dy, width)] == ObjectType::Empty {
            Some(cell_index(x + n * dx, y + n * dy, width))
        } else {
            None
        },
    decreases n,
{
    assert(x + 0 * dx == x && y + 0 * dy == y);
    assert(inside(x, y, width, height)) by {
        assert(cells[cell_index(x + 0 * dx, y + 0 * dy, width)] == ObjectType::Heap);
    }
    assert(x + 1 * dx == x + dx && y + 1 * dy == y + dy);
    if n == 1 {
    } else {
        assert(cells[cell_index(x + 1 * dx, y + 1 * dy, width)] == ObjectType::Heap);
        assert forall|k: int| 0 <= k < n - 1 implies inside(
            (x + dx) + k * dx,
            (y + dy) + k * dy,
            width,
            height,
        ) && #[trigger] cells[cell_index((x + dx) + k * dx, (y + dy) + k * dy, width)]
            == ObjectType::Heap by {
            assert((x + dx) + k * dx == x + (k + 1) * dx) by (nonlinear_arith);
            assert((y + dy) + k * dy == y + (k + 1) * dy) by (nonlinear_arith);
            assert(cells[cell_index(x + (k + 1) * dx, y + (k + 1) * dy, width)]
                == ObjectType::Heap);
        }
        assert((x + dx) + (n - 1) * dx == x + n * dx) by (nonlinear_arith);
        assert((y + dy) + (n - 1) * dy == y + n * dy) by (nonlinear_arith);
        lemma_row_target(cells, x + dx, y + dy, dx, dy, width, height, (n - 1) as nat);
    }
}

/// A player who may push heaps and walks into a row of `n` heaps is only
/// stopped by the border: the move is refused exactly if the cell right
/// after the row lies outside the arena, and then the session stays as it
/// was. A robot on that cell does not stop the row; the heap lands on it.
///
/// The row starts on the cell the player goes to and runs on in steps of
/// `(dx, dy)`.
pub proof fn law_player_pushes_row(g: GameView, dx: int, dy: int, n: nat, safe: bool)
    requires
        g.wf(),
        g.profile.moveable_heaps,
        dx != 0 || dy != 0,
        n >= 1,
        forall|k: int|
            1 <= k <= n ==> inside(g.player_x + k * dx, g.player_y + k * dy, g.width, g.height)
                && #[trigger] g.cells[cell_index(
                g.player_x + k * dx,
                g.player_y + k * dy,
                g.width,
            )] == ObjectType::Heap,
        !(inside(g.player_x + (n + 1) * dx, g.player_y + (n + 1) * dy, g.width, g.height)
            && g.cells[cell_index(
            g.player_x + (n + 1) * dx,
            g.player_y + (n + 1) * dy,
            g.width,
        )] == ObjectType::Heap),
    ensures
        g.resolution(dx, dy).is_some() <==> inside(
            g.player_x + (n + 1) * dx,
            g.player_y + (n + 1) * dy,
            g.width,
            g.height,
        ),
        !inside(g.player_x + (n + 1) * dx, g.player_y + (n + 1) * dy, g.width, g.height)
            ==> !g.accepts(dx, dy, safe) && g.after_move(dx, dy, safe) == g,
{
    let heaps = only_heaps(g.cells);
    let x = g.player_x + dx;
    let y = g.player_y + dy;
    assert(g.player_x + 1 * dx == x && g.player_y + 1 * dy == y);
    assert(inside(x, y, g.width, g.height)) by {
        assert(g.cells[cell_index(g.player_x + 1 * dx, g.player_y + 1 * dy, g.width)]
            == ObjectType::Heap);
    }
    lemma_index_inside(x, y, g.width, g.height);
    assert forall|k: int| 0 <= k < n implies inside(x + k * dx, y + k * dy, g.width, g.height)
        && #[trigger] heaps[cell_index(x + k * dx, y + k * dy, g.width)]
        == ObjectType::Heap by {
        assert(x + k * dx == g.player_x + (k + 1) * dx) by (nonlinear_arith)
            requires
                x == g.player_x + dx,
        ;
        assert(y + k * dy == g.player_y + (k + 1) * dy) by (nonlinear_arith)
            requires
                y == g.player_y + dy,
        ;
        assert(g.cells[cell_index(
            g.player_x + (k + 1) * dx,
            g.player_y + (k + 1) * dy,
            g.width,
        )] == ObjectType::Heap);
        lemma_index_inside(x + k * dx, y + k * dy, g.width, g.height);
    }
    assert(x + n * dx == g.player_x + (n + 1) * dx) by (nonlinear_arith)
        requires
            x == g.player_x + dx,
    ;
    assert(y + n * dy == g.player_y + (n + 1) * dy) by (nonlinear_arith)
        requires
            y == g.player_y + dy,
    ;
    if inside(x + n * dx, y + n * dy, g.width, g.height) {
        lemma_index_inside(x + n * dx, y + n * dy, g.width, g.height);
    }
    assert(x + 0 * dx == x && y + 0 * dy == y);
    assert(heaps[cell_index(x + 0 * dx, y + 0 * dy, g.width)] == ObjectType::Heap);
    lemma_row_target(heaps, x, y, dx, dy, g.width, g.height, n);
}

/// A player who may push heaps and walks into a row of `n` heaps with room
/// behind it moves the row on by one cell: the move is carried out, the
/// player stands where the row began, the cells of the row after that one
/// and the cell behind the row hold heaps, every other heap is where it
/// was, and there are no fewer heaps than before.
///
/// The row starts on the cell the player goes to and runs on in steps of
/// `(dx, dy)`. Whether the robots reach the player is left open: the move
/// is one that need not be safe.
pub proof fn law_pushed_row_moves_on(g: GameView, dx: int, dy: int, n: nat)
    requires
        g.wf(),
        g.profile.moveable_heaps,
        dx != 0 || dy != 0,
        n >= 1,
        forall|k: int|
            1 <= k <= n ==> inside(g.player_x + k * dx, g.player_y + k * dy, g.width, g.height)
                && #[trigger] g.cells[cell_index(
                g.player_x + k * dx,
                g.player_y + k * dy,
                g.width,
            )] == ObjectType::Heap,
        inside(g.player_x + (n + 1) * dx, g.player_y + (n + 1) * dy, g.width, g.height),
        g.cells[cell_index(g.player_x + (n + 1) * dx, g.player_y + (n + 1) * dy, g.width)]
            != ObjectType::Heap,
    ensures
        g.accepts(dx, dy, false),
        ({
            let after = g.after_move(dx, dy, false);
            &&& after.player_x == g.player_x + dx
            &&& after.player_y == g.player_y + dy
            &&& after.cells.len() == g.cells.len()
            &&& after.cells[cell_index(g.player_x + dx, g.player_y + dy, g.width)]
                == ObjectType::Player
            &&& forall|k: int|
                2 <= k <= n + 1 ==> #[trigger] after.cells[cell_index(
                    g.player_x + k * dx,
                    g.player_y + k * dy,
                    g.width,
                )] == ObjectType::Heap
            &&& forall|i: int|
                0 <= i < g.cells.len() && i != cell_index(
                    g.player_x + dx,
                    g.player_y + dy,
                    g.width,
                ) && g.cells[i] == ObjectType::Heap ==> after.cells[i] == ObjectType::Heap
            &&& count(after.cells, ObjectType::Heap) >= count(g.cells, ObjectType::Heap)
        }),
{
    law_player_pushes_row(g, dx, dy, n, false);
    g.lemma_after_move(dx, dy, false);
    let heaps = only_heaps(g.cells);
    let x = g.player_x + dx;
    let y = g.player_y + dy;
    let to = cell_index(x, y, g.width);
    let past_x = g.player_x + (n + 1) * dx;
    let past_y = g.player_y + (n + 1) * dy;
    let past = cell_index(past_x, past_y, g.width);
    assert(g.player_x + 1 * dx == x && g.player_y + 1 * dy == y);
    assert(inside(x, y, g.width, g.height) && g.cells[to] == ObjectType::Heap) by {
        assert(g.cells[cell_index(g.player_x + 1 * dx, g.player_y + 1 * dy, g.width)]
            == ObjectType::Heap);
    }
    lemma_index_inside(x, y, g.width, g.height);
    lemma_index_inside(past_x, past_y, g.width, g.height);

    // where the push goes to
    assert forall|k: int| 0 <= k < n implies inside(x + k * dx, y + k * dy, g.width, g.height)
        && #[trigger] heaps[cell_index(x + k * dx, y + k * dy, g.width)]
        == ObjectType::Heap by {
        assert(x + k * dx == g.player_x + (k + 1) * dx) by (nonlinear_arith)
            requires
                x == g.player_x + dx,
        ;
        assert(y + k * dy == g.player_y + (k + 1) * dy) by (nonlinear_arith)
            requires
                y == g.player_y + dy,
        ;
        assert(g.cells[cell_index(
            g.player_x + (k + 1) * dx,
            g.player_y + (k + 1) * dy,
            g.width,
        )] == ObjectType::Heap);
        lemma_index_inside(x + k * dx, y + k * dy, g.width, g.height);
    }
    assert(x + n * dx == past_x) by (nonlinear_arith)
        requires
            x == g.player_x + dx,
            past_x == g.player_x + (n + 1) * dx,
    ;
    assert(y + n * dy == past_y) by (nonlinear_arith)
        requires
            y == g.player_y + dy,
            past_y == g.player_y + (n + 1) * dy,
    ;
    lemma_row_target(heaps, x, y, dx, dy, g.width, g.height, n);
    assert(push_target(heaps, x, y, dx, dy, g.width, g.height) == Some(past));
    assert(past != to);

    // the candidate, and what the robots leave of it
    let moved = heaps.update(to, ObjectType::Empty).update(past, ObjectType::Heap);
    let candidate = moved.update(to, ObjectType::Player);
    assert(staged(
        g.cells,
        g.width,
        g.height,
        g.player_x,
        g.player_y,
        dx,
        dy,
        g.profile.moveable_heaps,
    ) == Some(candidate));
    let c = g.chase(x, y);
    let s = advance(g.cells, candidate, c);
    assert(g.resolution(dx, dy) == Some(s));
    let after = g.after_move(dx, dy, false);
    assert(after.cells == s.cells);
    lemma_advance_keeps_heaps(g.cells, candidate, c);
    lemma_advance_keeps_player(g.cells, candidate, c);

    assert forall|k: int| 2 <= k <= n + 1 implies #[trigger] after.cells[cell_index(
        g.player_x + k * dx,
        g.player_y + k * dy,
        g.width,
    )] == ObjectType::Heap by {
        let at = cell_index(g.player_x + k * dx, g.player_y + k * dy, g.width);
        if k <= n {
            assert(g.cells[at] == ObjectType::Heap);
            lemma_index_inside(g.player_x + k * dx, g.player_y + k * dy, g.width, g.height);
            if at == to {
                lemma_index_unique(
                    g.player_x + k * dx,
                    g.player_y + k * dy,
                    x,
                    y,
                    g.width,
                );
                assert(dx == 0 && dy == 0) by (nonlinear_arith)
                    requires
                        g.player_x + k * dx == g.player_x + dx,
                        g.player_y + k * dy == g.player_y + dy,
                        k >= 2,
                ;
            }
            assert(candidate[at] == ObjectType::Heap);
        } else {
            assert(at == past);
            assert(candidate[at] == ObjectType::Heap);
        }
    }
    assert forall|i: int|
        0 <= i < g.cells.len() && i != to && g.cells[i] == ObjectType::Heap implies after.cells[i]
        == ObjectType::Heap by {
        assert(candidate[i] == ObjectType::Heap);
    }

    // no heap is lost
    lemma_count_same_cells(heaps, g.cells, ObjectType::Heap);
    lemma_count_update(heaps, to, ObjectType::Empty, ObjectType::Heap);
    lemma_count_update(
        heaps.update(to, ObjectType::Empty),
        past,
        ObjectType::Heap,
        ObjectType::Heap,
    );
    lemma_count_update(moved, to, ObjectType::Player, ObjectType::Heap);
    lemma_count_grows(candidate, s.cells, ObjectType::Heap);
}

/// Two robots that step into the same free cell one after the other end
/// each other there: the cell holds a heap, no robot has been added to the
/// arena, and both robots pay their collision score and add their kill
/// weight. Nothing else changes.
///
/// The first robot comes from `(x1, y1)`, the second from `(x2, y2)`; neither
/// is stopped on its own cell by the player or by a heap.
pub proof fn law_robots_collide(
    s: Scene,
    first: ObjectType,
    x1: int,
    y1: int,
    second: ObjectType,
    x2: int,
    y2: int,
    c: Chase,
)
    requires
        fits(s.cells, c),
        s.cells[cell_index(c.player_x, c.player_y, c.width)] == ObjectType::Player,
        first.is_robot(),
        second.is_robot(),
        inside(x1, y1, c.width, c.height),
        inside(x2, y2, c.width, c.height),
        s.cells[cell_index(x1, y1, c.width)] != ObjectType::Player,
        s.cells[cell_index(x1, y1, c.width)] != ObjectType::Heap,
        s.cells[cell_index(x2, y2, c.width)] != ObjectType::Player,
        s.cells[cell_index(x2, y2, c.width)] != ObjectType::Heap,
        toward(x1, c.player_x) == toward(x2, c.player_x),
        toward(y1, c.player_y) == toward(y2, c.player_y),
        s.cells[cell_index(toward(x1, c.player_x), toward(y1, c.player_y), c.width)]
            == ObjectType::Empty,
    ensures
        ({
            let there = cell_index(toward(x1, c.player_x), toward(y1, c.player_y), c.width);
            let after = robot_step(robot_step(s, first, x1, y1, c), second, x2, y2, c);
            &&& after.cells == s.cells.update(there, ObjectType::Heap)
            &&& robots(after.cells) == robots(s.cells)
            &&& after.score == s.score + c.table.collision(first) + c.table.collision(second)
            &&& after.kills == s.kills + kill_weight(first) + kill_weight(second)
            &&& after.dead == s.dead
        }),
{
    lemma_step_inside(x1, y1, c);
    lemma_step_inside(x2, y2, c);
    let there = cell_index(toward(x1, c.player_x), toward(y1, c.player_y), c.width);
    let here2 = cell_index(x2, y2, c.width);
    if here2 == there {
        // a robot whose step leads nowhere stands on the player's cell
        assert(toward(x2, c.player_x) + toward(y2, c.player_y) * c.width == x2 + y2 * c.width);
        crate::arena::lemma_index_split(x2, y2, c.width);
        crate::arena::lemma_index_split(
            toward(x2, c.player_x),
            toward(y2, c.player_y),
            c.width,
        );
    }
    let middle = robot_step(s, first, x1, y1, c);
    let after = robot_step(middle, second, x2, y2, c);
    assert(after.cells =~= s.cells.update(there, ObjectType::Heap));
    lemma_count_update(s.cells, there, ObjectType::Heap, ObjectType::Robot1);
    lemma_count_update(s.cells, there, ObjectType::Heap, ObjectType::Robot2);
}

/// A pass in which a single cell steps is the step of that cell.
proof fn lemma_sweep_single(
    source: Seq<ObjectType>,
    s: Scene,
    n: nat,
    second: bool,
    c: Chase,
    k: int,
)
    requires
        0 <= k < source.len(),
        n <= source.len(),
        forall|i: int| 0 <= i < source.len() && i != k ==> !steps_in_pass(source[i], second),
    ensures
        sweep(source, s, n, second, c) == if n > k && steps_in_pass(source[k], second) {
            robot_step(s, source[k], k % c.width, k / c.width, c)
        } else {
            s
        },
    decreases n,
{
    if n > 0 {
        lemma_sweep_single(source, s, (n - 1) as nat, second, c, k);
    }
}

/// A slow robot steps once in a turn.
///
/// `current` holds a slow robot in the cell `k` and no other robot, and
/// `candidate` is the arena the robots step into. What the turn makes of it
/// is what the one step of that robot makes of it.
pub proof fn law_slow_robot_steps_once(
    current: Seq<ObjectType>,
    candidate: Seq<ObjectType>,
    c: Chase,
    k: int,
)
    requires
        fits(candidate, c),
        current.len() == candidate.len(),
        0 <= k < current.len(),
        current[k] == ObjectType::Robot1,
        forall|i: int| 0 <= i < current.len() && i != k ==> !current[i].is_robot(),
        forall|i: int| 0 <= i < candidate.len() ==> !candidate[i].is_robot(),
    ensures
        advance(current, candidate, c) == robot_step(
            opening(candidate),
            ObjectType::Robot1,
            k % c.width,
            k / c.width,
            c,
        ),
{
    let x = k % c.width;
    let y = k / c.width;
    lemma_index_join(k, c.width, c.height);
    lemma_step_inside(x, y, c);
    lemma_sweep_single(current, opening(candidate), current.len(), false, c, k);
    let first = robot_step(opening(candidate), ObjectType::Robot1, x, y, c);
    assert(without_fast(first.cells) =~= first.cells);
    assert(between_passes(first) == first);
    lemma_sweep_none(first.cells, first, first.cells.len(), c);
}

/// A second pass over an arena without fast robots changes nothing.
proof fn lemma_sweep_none(source: Seq<ObjectType>, s: Scene, n: nat, c: Chase)
    requires
        n <= source.len(),
        forall|i: int| 0 <= i < source.len() ==> source[i] != ObjectType::Robot2,
    ensures
        sweep(source, s, n, true, c) == s,
    decreases n,
{
    if n > 0 {
        lemma_sweep_none(source, s, (n - 1) as nat, c);
    }
}

/// A fast robot steps twice in a turn, if its first step takes it to a free
/// cell.
///
/// `current` holds a fast robot in the cell `k` and no other robot, and
/// `candidate` is the arena the robots step into. If the first step of the
/// robot ends on a free cell, the turn makes of the candidate what a second
/// step from that cell makes of it; if the first step ends the robot or the
/// player, that is all that happens.
pub proof fn law_fast_robot_steps_twice(
    current: Seq<ObjectType>,
    candidate: Seq<ObjectType>,
    c: Chase,
    k: int,
)
    requires
        fits(candidate, c),
        current.len() == candidate.len(),
        0 <= k < current.len(),
        current[k] == ObjectType::Robot2,
        forall|i: int| 0 <= i < current.len() && i != k ==> !current[i].is_robot(),
        forall|i: int| 0 <= i < candidate.len() ==> !candidate[i].is_robot(),
    ensures
        ({
            let x = k % c.width;
            let y = k / c.width;
            let next_x = toward(x, c.player_x);
            let next_y = toward(y, c.player_y);
            let first = robot_step(opening(candidate), ObjectType::Robot2, x, y, c);
            advance(current, candidate, c) == if first.cells[cell_index(next_x, next_y, c.width)]
                == ObjectType::Robot2 {
                robot_step(opening(candidate), ObjectType::Robot2, next_x, next_y, c)
            } else {
                first
            }
        }),
{
    let x = k % c.width;
    let y = k / c.width;
    lemma_index_join(k, c.width, c.height);
    lemma_step_inside(x, y, c);
    let next_x = toward(x, c.player_x);
    let next_y = toward(y, c.player_y);
    let there = cell_index(next_x, next_y, c.width);
    crate::arena::lemma_index_split(next_x, next_y, c.width);
    lemma_sweep_single(current, opening(candidate), current.len(), false, c, k);
    let first = robot_step(opening(candidate), ObjectType::Robot2, x, y, c);
    if first.cells[there] == ObjectType::Robot2 {
        assert(first.cells == candidate.update(there, ObjectType::Robot2));
        assert(without_fast(first.cells) =~= candidate);
        assert(between_passes(first) == opening(candidate));
        lemma_sweep_single(first.cells, opening(candidate), first.cells.len(), true, c, there);
    } else {
        assert(first.cells == candidate);
        assert(without_fast(first.cells) =~= first.cells);
        assert(between_passes(first) == first);
        lemma_sweep_none(first.cells, first, first.cells.len(), c);
    }
}

/// A safe teleport costs one safe teleport if it is carried out, and
/// nothing if it is not.
///
/// It is carried out if a safe teleport is left and some free cell is safe
/// to land on. Then the player stands on a cell that was free and is not
/// dead. Otherwise, which is also the case when no safe teleport is left,
/// the session stays exactly as it was.
pub proof fn law_safe_teleport_costs_one(before: GameView, after: GameView)
    requires
        before.wf(),
        after.obeys(before, PlayerCommand::SafeTeleport),
    ensures
        before.carries_out(PlayerCommand::SafeTeleport) <==> before.state == GameState::Playing
            && before.safeteleports > 0 && before.has_landing(true),
        before.carries_out(PlayerCommand::SafeTeleport) ==> {
            &&& after.safeteleports == before.safeteleports - 1
            &&& before.is_free(after.player_x, after.player_y)
            &&& after.cells[cell_index(after.player_x, after.player_y, after.width)]
                == ObjectType::Player
            &&& after.state != GameState::Dead
        },
        !before.carries_out(PlayerCommand::SafeTeleport) ==> after == before,
        before.safeteleports == 0 ==> after == before,
{
    if before.carries_out(PlayerCommand::SafeTeleport) {
        let (x, y) = choose|x: int, y: int|
            #[trigger] before.can_land(x, y, true) && after == before.landed(x, y, true).charged(
                1,
            );
        before.lemma_after_move(x - before.player_x, y - before.player_y, true);
    }
}

/// A teleport that need not be safe can go to every free cell, and takes
/// the player there. So a random teleport works as long as any cell is
/// free.
pub proof fn law_random_teleport_lands(g: GameView, x: int, y: int)
    requires
        g.wf(),
        g.is_free(x, y),
    ensures
        g.can_land(x, y, false),
        g.has_landing(false),
        g.landed(x, y, false).player_x == x,
        g.landed(x, y, false).player_y == y,
        g.landed(x, y, false).cells[cell_index(x, y, g.width)] == ObjectType::Player,
{
    g.lemma_free_cell_lands(x, y);
    g.lemma_after_move(x - g.player_x, y - g.player_y, false);
}

/// A level that asks for more robots than half of the cells of the arena
/// is not set up: the game is complete, and no robot stands in the arena.
pub proof fn law_overcrowded_level_completes(before: GameView, after: GameView)
    requires
        before.wf(),
        before.overcrowded(),
        after.starts_level_of(before),
    ensures
        after.state == GameState::GameComplete,
        robots(after.cells) == 0,
        after.cells == before.cleared().cells,
{
    before.lemma_cleared();
}

} // verus!
