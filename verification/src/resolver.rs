//! What one turn does to an arena, stated on plain values.
//!
//! A turn starts from the arena as it stands, the *current* arena, and builds
//! a *candidate*: the heaps are carried over, the heap in the player's way is
//! pushed, the player is put down, and then the robots step into the
//! candidate one after the other, in row-major order of the cells they start
//! from. Every robot of the current arena steps once; the fast robots that
//! stand in the candidate after that step a second time.
//!
//! The functions here are the model that the executable engine is verified
//! against. Scores and kill weights are unbounded numbers in the model; the
//! engine's counters stop at the top of their range.

use vstd::prelude::*;
use crate::arena::{
    cell_index, count, inside, lemma_count_same_cells, lemma_count_update, lemma_count_zero,
    lemma_index_inside, lemma_index_join, robots,
};
use crate::enums::ObjectType;

verus! {

/// What the death of a robot pays in one state of the session.
pub struct ScoreTable {
    /// Paid for a slow robot that dies in a collision with another robot.
    pub collision1: nat,
    /// Paid for a fast robot that dies in a collision with another robot.
    pub collision2: nat,
    /// Paid for a slow robot that a heap ends.
    pub splatted1: nat,
    /// Paid for a fast robot that a heap ends.
    pub splatted2: nat,
}

impl ScoreTable {
    pub open spec fn collision(self, robot: ObjectType) -> nat {
        match robot {
            ObjectType::Robot1 => self.collision1,
            ObjectType::Robot2 => self.collision2,
            _ => 0,
        }
    }

    pub open spec fn splatted(self, robot: ObjectType) -> nat {
        match robot {
            ObjectType::Robot1 => self.splatted1,
            ObjectType::Robot2 => self.splatted2,
            _ => 0,
        }
    }
}

/// What a robot that dies in a collision adds to the kill weight, the counter
/// that earns safe teleports.
pub open spec fn kill_weight(robot: ObjectType) -> nat {
    match robot {
        ObjectType::Robot1 => 1,
        ObjectType::Robot2 => 2,
        _ => 0,
    }
}

/// Who is chased where: the dimensions of the arena, the cell the player has
/// moved to, and what dead robots pay.
pub struct Chase {
    pub width: int,
    pub height: int,
    pub player_x: int,
    pub player_y: int,
    pub table: ScoreTable,
}

impl Chase {
    pub open spec fn wf(self) -> bool {
        &&& 0 < self.width
        &&& 0 < self.height
        &&& inside(self.player_x, self.player_y, self.width, self.height)
    }
}

/// A candidate arena and what has happened while it was built.
#[verifier::ext_equal]
pub struct Scene {
    pub cells: Seq<ObjectType>,
    /// A robot has caught the player.
    pub dead: bool,
    pub score: nat,
    pub kills: nat,
}

/// A candidate in which nothing has happened yet.
pub open spec fn opening(cells: Seq<ObjectType>) -> Scene {
    Scene { cells, dead: false, score: 0, kills: 0 }
}

/// Only the heaps of an arena; every other cell is empty.
pub open spec fn only_heaps(cells: Seq<ObjectType>) -> Seq<ObjectType> {
    Seq::new(
        cells.len(),
        |i: int|
            if cells[i] == ObjectType::Heap {
                ObjectType::Heap
            } else {
                ObjectType::Empty
            },
    )
}

/// An arena without its fast robots.
pub open spec fn without_fast(cells: Seq<ObjectType>) -> Seq<ObjectType> {
    Seq::new(
        cells.len(),
        |i: int|
            if cells[i] == ObjectType::Robot2 {
                ObjectType::Empty
            } else {
                cells[i]
            },
    )
}

/// How many steps of `(dx, dy)` can at most be taken from `(x, y)` before
/// the arena ends.
pub open spec fn room(x: int, y: int, dx: int, dy: int, width: int, height: int) -> nat {
    if !inside(x, y, width, height) {
        0
    } else if dx > 0 {
        (width - x) as nat
    } else if dx < 0 {
        (x + 1) as nat
    } else if dy > 0 {
        (height - y) as nat
    } else if dy < 0 {
        (y + 1) as nat
    } else {
        0
    }
}

/// The index of the cell that a row of heaps can be pushed into.
///
/// `(x, y)` holds the first heap of the row, and the row runs on in steps of
/// `(dx, dy)`. The result is the first cell after the row if that cell lies
/// inside the arena and is empty, and `None` if the row ends at the border
/// or at anything else.
pub open spec fn push_target(
    cells: Seq<ObjectType>,
    x: int,
    y: int,
    dx: int,
    dy: int,
    width: int,
    height: int,
) -> Option<int>
    decreases room(x, y, dx, dy, width, height),
{
    let next_x = x + dx;
    let next_y = y + dy;
    if !inside(x, y, width, height) || (dx == 0 && dy == 0) || !inside(
        next_x,
        next_y,
        width,
        height,
    ) {
        None
    } else {
        let next = cells[cell_index(next_x, next_y, width)];
        if next == ObjectType::Empty {
            Some(cell_index(next_x, next_y, width))
        } else if next == ObjectType::Heap {
            push_target(cells, next_x, next_y, dx, dy, width, height)
        } else {
            None
        }
    }
}

/// The arena after the row of heaps that starts at `(x, y)` has been pushed
/// one step in the direction `(dx, dy)`: the first cell of the row is empty
/// and the cell after the row holds a heap. `None` if the row cannot move.
pub open spec fn pushed(
    cells: Seq<ObjectType>,
    x: int,
    y: int,
    dx: int,
    dy: int,
    width: int,
    height: int,
) -> Option<Seq<ObjectType>> {
    match push_target(cells, x, y, dx, dy, width, height) {
        Some(target) => Some(
            cells.update(cell_index(x, y, width), ObjectType::Empty).update(
                target,
                ObjectType::Heap,
            ),
        ),
        None => None,
    }
}

/// One step along one axis from `from` towards `to`.
pub open spec fn toward(from: int, to: int) -> int {
    if to < from {
        from - 1
    } else if to > from {
        from + 1
    } else {
        from
    }
}

/// The step of one robot that started the turn at `(x, y)`.
///
/// In order: a player standing on the robot's own cell catches it out, and
/// the player dies; a heap on the robot's own cell has been pushed onto it
/// and ends it. Otherwise the robot goes one cell towards the player on each
/// axis: onto the player, who dies; onto a heap, which ends it; onto another
/// robot, which ends both and leaves a heap; or onto the empty cell, which it
/// then holds.
pub open spec fn robot_step(s: Scene, robot: ObjectType, x: int, y: int, c: Chase) -> Scene {
    let here = cell_index(x, y, c.width);
    let there = cell_index(toward(x, c.player_x), toward(y, c.player_y), c.width);
    if s.cells[here] == ObjectType::Player {
        Scene { dead: true, ..s }
    } else if s.cells[here] == ObjectType::Heap {
        Scene { score: s.score + c.table.splatted(robot), ..s }
    } else if s.cells[there] == ObjectType::Player {
        Scene { dead: true, ..s }
    } else if s.cells[there] == ObjectType::Heap {
        Scene { score: s.score + c.table.splatted(robot), ..s }
    } else if s.cells[there].is_robot() {
        Scene {
            cells: s.cells.update(there, ObjectType::Heap),
            dead: s.dead,
            score: s.score + c.table.collision(robot) + c.table.collision(s.cells[there]),
            kills: s.kills + kill_weight(robot) + kill_weight(s.cells[there]),
        }
    } else {
        Scene { cells: s.cells.update(there, robot), ..s }
    }
}

/// Whether a cell that holds `what` at the start of a pass steps in it: every
/// robot in the first pass, the fast ones in the second.
pub open spec fn steps_in_pass(what: ObjectType, second: bool) -> bool {
    if second {
        what == ObjectType::Robot2
    } else {
        what.is_robot()
    }
}

/// One pass over the first `n` cells of `source`: every robot of `source`
/// that takes part in the pass steps into the scene, in the order of the
/// cells.
pub open spec fn sweep(source: Seq<ObjectType>, s: Scene, n: nat, second: bool, c: Chase) -> Scene
    decreases n,
{
    if n == 0 {
        s
    } else {
        let before = sweep(source, s, (n - 1) as nat, second, c);
        let i = n - 1;
        if steps_in_pass(source[i], second) {
            robot_step(before, source[i], i % c.width, i / c.width, c)
        } else {
            before
        }
    }
}

/// The scene between the two passes: the fast robots are taken off the
/// candidate, to be put down again where their second step leads.
pub open spec fn between_passes(first: Scene) -> Scene {
    Scene { cells: without_fast(first.cells), ..first }
}

/// Both passes: every robot of `current` steps into `candidate`, then every
/// fast robot of the result steps again.
pub open spec fn advance(current: Seq<ObjectType>, candidate: Seq<ObjectType>, c: Chase) -> Scene {
    let first = sweep(current, opening(candidate), current.len(), false, c);
    sweep(first.cells, between_passes(first), first.cells.len(), true, c)
}

/// The candidate before any robot steps, for a player who wants to go from
/// `(px, py)` by `(dx, dy)`: the heaps of `cells`, the row of heaps in the
/// player's way pushed on if `push` allows it, and the player on the cell
/// they go to. `None` if that cell lies outside the arena, or holds a heap
/// that cannot or may not be pushed.
pub open spec fn staged(
    cells: Seq<ObjectType>,
    width: int,
    height: int,
    px: int,
    py: int,
    dx: int,
    dy: int,
    push: bool,
) -> Option<Seq<ObjectType>> {
    let x = px + dx;
    let y = py + dy;
    let heaps = only_heaps(cells);
    let to = cell_index(x, y, width);
    if !inside(x, y, width, height) {
        None
    } else if heaps[to] != ObjectType::Heap {
        Some(heaps.update(to, ObjectType::Player))
    } else if !push {
        None
    } else {
        match pushed(heaps, x, y, dx, dy, width, height) {
            Some(moved) => Some(moved.update(to, ObjectType::Player)),
            None => None,
        }
    }
}

/// A whole turn: the arena and the outcome after the player has gone from
/// `(px, py)` by `(dx, dy)` and the robots have answered, or `None` if the
/// move is refused and nothing happens.
pub open spec fn resolve(
    cells: Seq<ObjectType>,
    width: int,
    height: int,
    px: int,
    py: int,
    dx: int,
    dy: int,
    push: bool,
    table: ScoreTable,
) -> Option<Scene> {
    match staged(cells, width, height, px, py, dx, dy, push) {
        Some(candidate) => Some(
            advance(
                cells,
                candidate,
                Chase { width, height, player_x: px + dx, player_y: py + dy, table },
            ),
        ),
        None => None,
    }
}

/// A chase fits an arena when it has the arena's dimensions and the player
/// stands inside of it.
pub open spec fn fits(cells: Seq<ObjectType>, c: Chase) -> bool {
    c.wf() && cells.len() == c.width * c.height
}

/// A robot inside the arena steps to a cell inside the arena.
pub proof fn lemma_step_inside(x: int, y: int, c: Chase)
    requires
        c.wf(),
        inside(x, y, c.width, c.height),
    ensures
        inside(toward(x, c.player_x), toward(y, c.player_y), c.width, c.height),
        0 <= cell_index(x, y, c.width) < c.width * c.height,
        0 <= cell_index(toward(x, c.player_x), toward(y, c.player_y), c.width) < c.width
            * c.height,
{
    lemma_index_inside(x, y, c.width, c.height);
    lemma_index_inside(toward(x, c.player_x), toward(y, c.player_y), c.width, c.height);
}

/// What a step does to a scene is what it does to the cells, added to what
/// had happened before.
pub proof fn lemma_step_adds(s: Scene, robot: ObjectType, x: int, y: int, c: Chase)
    requires
        fits(s.cells, c),
        inside(x, y, c.width, c.height),
    ensures
        ({
            let step = robot_step(opening(s.cells), robot, x, y, c);
            &&& step.cells.len() == s.cells.len()
            &&& robot_step(s, robot, x, y, c) == Scene {
                cells: step.cells,
                dead: s.dead || step.dead,
                score: s.score + step.score,
                kills: s.kills + step.kills,
            }
        }),
{
    lemma_step_inside(x, y, c);
}

/// A pass leaves the arena its size.
pub proof fn lemma_sweep_len(source: Seq<ObjectType>, s: Scene, n: nat, second: bool, c: Chase)
    requires
        fits(s.cells, c),
        n <= c.width * c.height,
    ensures
        sweep(source, s, n, second, c).cells.len() == s.cells.len(),
    decreases n,
{
    if n > 0 {
        lemma_sweep_len(source, s, (n - 1) as nat, second, c);
        let before = sweep(source, s, (n - 1) as nat, second, c);
        lemma_index_join(n - 1, c.width, c.height);
        lemma_step_adds(before, source[n - 1], (n - 1) % c.width, (n - 1) / c.width, c);
    }
}

/// A cell that a push can go to lies inside the arena, is empty, and is not
/// the cell the row starts at.
pub proof fn lemma_push_target_free(
    cells: Seq<ObjectType>,
    x: int,
    y: int,
    dx: int,
    dy: int,
    width: int,
    height: int,
)
    requires
        cells.len() == width * height,
        cells[cell_index(x, y, width)] == ObjectType::Heap,
    ensures
        match push_target(cells, x, y, dx, dy, width, height) {
            Some(target) => 0 <= target < cells.len() && cells[target] == ObjectType::Empty
                && target != cell_index(x, y, width),
            None => true,
        },
    decreases room(x, y, dx, dy, width, height),
{
    if inside(x, y, width, height) && (dx != 0 || dy != 0) && inside(
        x + dx,
        y + dy,
        width,
        height,
    ) {
        lemma_index_inside(x + dx, y + dy, width, height);
        if cells[cell_index(x + dx, y + dy, width)] == ObjectType::Heap {
            lemma_push_target_free(cells, x + dx, y + dy, dx, dy, width, height);
        }
    }
}

/// The candidate that the robots step into holds the player on the cell they
/// have moved to, and heaps and nothing else on the others.
pub proof fn lemma_staged_shape(
    cells: Seq<ObjectType>,
    width: int,
    height: int,
    px: int,
    py: int,
    dx: int,
    dy: int,
    push: bool,
)
    requires
        cells.len() == width * height,
    ensures
        match staged(cells, width, height, px, py, dx, dy, push) {
            Some(candidate) => {
                &&& inside(px + dx, py + dy, width, height)
                &&& 0 <= cell_index(px + dx, py + dy, width) < cells.len()
                &&& candidate.len() == cells.len()
                &&& forall|i: int|
                    0 <= i < cells.len() ==> if i == cell_index(px + dx, py + dy, width) {
                        candidate[i] == ObjectType::Player
                    } else {
                        candidate[i] == ObjectType::Heap || candidate[i] == ObjectType::Empty
                    }
            },
            None => true,
        },
{
    let x = px + dx;
    let y = py + dy;
    if inside(x, y, width, height) {
        lemma_index_inside(x, y, width, height);
        let heaps = only_heaps(cells);
        if heaps[cell_index(x, y, width)] == ObjectType::Heap && push {
            lemma_push_target_free(heaps, x, y, dx, dy, width, height);
        }
    }
}

/// A step neither puts a player down nor takes one away.
pub proof fn lemma_step_keeps_player(s: Scene, robot: ObjectType, x: int, y: int, c: Chase)
    requires
        fits(s.cells, c),
        inside(x, y, c.width, c.height),
        robot.is_robot(),
    ensures
        forall|i: int|
            0 <= i < s.cells.len() ==> (robot_step(s, robot, x, y, c).cells[i]
                == ObjectType::Player <==> s.cells[i] == ObjectType::Player),
{
    lemma_step_inside(x, y, c);
}

/// A pass neither puts a player down nor takes one away.
pub proof fn lemma_sweep_keeps_player(
    source: Seq<ObjectType>,
    s: Scene,
    n: nat,
    second: bool,
    c: Chase,
)
    requires
        fits(s.cells, c),
        n <= c.width * c.height,
    ensures
        sweep(source, s, n, second, c).cells.len() == s.cells.len(),
        forall|i: int|
            0 <= i < s.cells.len() ==> (sweep(source, s, n, second, c).cells[i]
                == ObjectType::Player <==> s.cells[i] == ObjectType::Player),
    decreases n,
{
    if n > 0 {
        let before = sweep(source, s, (n - 1) as nat, second, c);
        lemma_sweep_keeps_player(source, s, (n - 1) as nat, second, c);
        lemma_index_join(n - 1, c.width, c.height);
        if steps_in_pass(source[n - 1], second) {
            lemma_step_adds(before, source[n - 1], (n - 1) % c.width, (n - 1) / c.width, c);
            lemma_step_keeps_player(
                before,
                source[n - 1],
                (n - 1) % c.width,
                (n - 1) / c.width,
                c,
            );
        }
    }
}

/// The robots never move the player: after both passes the player stands
/// where the candidate had them, and nowhere else.
pub proof fn lemma_advance_keeps_player(
    current: Seq<ObjectType>,
    candidate: Seq<ObjectType>,
    c: Chase,
)
    requires
        fits(candidate, c),
        current.len() == candidate.len(),
    ensures
        advance(current, candidate, c).cells.len() == candidate.len(),
        forall|i: int|
            0 <= i < candidate.len() ==> (advance(current, candidate, c).cells[i]
                == ObjectType::Player <==> candidate[i] == ObjectType::Player),
{
    let first = sweep(current, opening(candidate), current.len(), false, c);
    let middle = between_passes(first);
    let last = sweep(first.cells, middle, first.cells.len(), true, c);
    lemma_sweep_keeps_player(current, opening(candidate), current.len(), false, c);
    lemma_sweep_keeps_player(first.cells, middle, first.cells.len(), true, c);
    assert forall|i: int| 0 <= i < candidate.len() implies (last.cells[i] == ObjectType::Player
        <==> candidate[i] == ObjectType::Player) by {
        assert(first.cells[i] == ObjectType::Player <==> candidate[i] == ObjectType::Player);
        assert(middle.cells[i] == ObjectType::Player <==> first.cells[i] == ObjectType::Player);
    }
}

/// A step adds at most one robot to the candidate.
pub proof fn lemma_step_robots(s: Scene, robot: ObjectType, x: int, y: int, c: Chase)
    requires
        fits(s.cells, c),
        inside(x, y, c.width, c.height),
        robot.is_robot(),
    ensures
        robots(robot_step(s, robot, x, y, c).cells) <= robots(s.cells) + 1,
{
    lemma_step_inside(x, y, c);
    let there = cell_index(toward(x, c.player_x), toward(y, c.player_y), c.width);
    lemma_count_update(s.cells, there, ObjectType::Heap, ObjectType::Robot1);
    lemma_count_update(s.cells, there, ObjectType::Heap, ObjectType::Robot2);
    lemma_count_update(s.cells, there, robot, ObjectType::Robot1);
    lemma_count_update(s.cells, there, robot, ObjectType::Robot2);
}

/// How many of the first `n` cells of `source` step in a pass.
pub open spec fn steppers(source: Seq<ObjectType>, n: nat, second: bool) -> nat {
    if second {
        count(source.take(n as int), ObjectType::Robot2)
    } else {
        robots(source.take(n as int))
    }
}

/// A pass adds no more robots to the candidate than step in it.
pub proof fn lemma_sweep_robots(
    source: Seq<ObjectType>,
    s: Scene,
    n: nat,
    second: bool,
    c: Chase,
)
    requires
        fits(s.cells, c),
        n <= c.width * c.height,
        n <= source.len(),
    ensures
        robots(sweep(source, s, n, second, c).cells) <= robots(s.cells) + steppers(
            source,
            n,
            second,
        ),
    decreases n,
{
    if n > 0 {
        let before = sweep(source, s, (n - 1) as nat, second, c);
        lemma_sweep_robots(source, s, (n - 1) as nat, second, c);
        lemma_sweep_len(source, s, (n - 1) as nat, second, c);
        lemma_index_join(n - 1, c.width, c.height);
        assert(source.take(n as int).drop_last() =~= source.take(n - 1));
        assert(source.take(n as int).last() == source[n - 1]);
        if steps_in_pass(source[n - 1], second) {
            lemma_step_robots(before, source[n - 1], (n - 1) % c.width, (n - 1) / c.width, c);
        }
    } else {
        assert(source.take(0).len() == 0);
    }
}

/// Taking the fast robots off an arena leaves the slow ones, and nothing
/// else that is a robot.
pub proof fn lemma_without_fast_robots(cells: Seq<ObjectType>)
    ensures
        count(without_fast(cells), ObjectType::Robot1) == count(cells, ObjectType::Robot1),
        count(without_fast(cells), ObjectType::Robot2) == 0,
{
    lemma_count_same_cells(without_fast(cells), cells, ObjectType::Robot1);
    lemma_count_zero(without_fast(cells), ObjectType::Robot2);
}

/// The robots do not multiply: into a candidate without robots, no more
/// robots step than the current arena holds.
pub proof fn lemma_advance_robots(
    current: Seq<ObjectType>,
    candidate: Seq<ObjectType>,
    c: Chase,
)
    requires
        fits(candidate, c),
        current.len() == candidate.len(),
        robots(candidate) == 0,
    ensures
        robots(advance(current, candidate, c).cells) <= robots(current),
{
    let first = sweep(current, opening(candidate), current.len(), false, c);
    lemma_sweep_robots(current, opening(candidate), current.len(), false, c);
    lemma_sweep_len(current, opening(candidate), current.len(), false, c);
    assert(current.take(current.len() as int) =~= current);
    lemma_without_fast_robots(first.cells);
    lemma_sweep_robots(first.cells, between_passes(first), first.cells.len(), true, c);
    assert(first.cells.take(first.cells.len() as int) =~= first.cells);
}

/// A step takes no heap away.
pub proof fn lemma_step_keeps_heaps(s: Scene, robot: ObjectType, x: int, y: int, c: Chase)
    requires
        fits(s.cells, c),
        inside(x, y, c.width, c.height),
    ensures
        forall|i: int|
            0 <= i < s.cells.len() && s.cells[i] == ObjectType::Heap ==> robot_step(
                s,
                robot,
                x,
                y,
                c,
            ).cells[i] == ObjectType::Heap,
{
    lemma_step_inside(x, y, c);
}

/// A pass takes no heap away.
pub proof fn lemma_sweep_keeps_heaps(
    source: Seq<ObjectType>,
    s: Scene,
    n: nat,
    second: bool,
    c: Chase,
)
    requires
        fits(s.cells, c),
        n <= c.width * c.height,
    ensures
        sweep(source, s, n, second, c).cells.len() == s.cells.len(),
        forall|i: int|
            0 <= i < s.cells.len() && s.cells[i] == ObjectType::Heap ==> sweep(
                source,
                s,
                n,
                second,
                c,
            ).cells[i] == ObjectType::Heap,
    decreases n,
{
    if n > 0 {
        let before = sweep(source, s, (n - 1) as nat, second, c);
        lemma_sweep_keeps_heaps(source, s, (n - 1) as nat, second, c);
        lemma_index_join(n - 1, c.width, c.height);
        if steps_in_pass(source[n - 1], second) {
            lemma_step_adds(before, source[n - 1], (n - 1) % c.width, (n - 1) / c.width, c);
            lemma_step_keeps_heaps(
                before,
                source[n - 1],
                (n - 1) % c.width,
                (n - 1) / c.width,
                c,
            );
        }
    }
}

/// The robots take no heap away: every heap of the candidate is still
/// there after both passes.
pub proof fn lemma_advance_keeps_heaps(
    current: Seq<ObjectType>,
    candidate: Seq<ObjectType>,
    c: Chase,
)
    requires
        fits(candidate, c),
        current.len() == candidate.len(),
    ensures
        advance(current, candidate, c).cells.len() == candidate.len(),
        forall|i: int|
            0 <= i < candidate.len() && candidate[i] == ObjectType::Heap ==> advance(
                current,
                candidate,
                c,
            ).cells[i] == ObjectType::Heap,
{
    let first = sweep(current, opening(candidate), current.len(), false, c);
    let middle = between_passes(first);
    let last = sweep(first.cells, middle, first.cells.len(), true, c);
    lemma_sweep_keeps_heaps(current, opening(candidate), current.len(), false, c);
    lemma_sweep_keeps_heaps(first.cells, middle, first.cells.len(), true, c);
    assert forall|i: int|
        0 <= i < candidate.len() && candidate[i] == ObjectType::Heap implies last.cells[i]
        == ObjectType::Heap by {
        assert(first.cells[i] == ObjectType::Heap);
        assert(middle.cells[i] == ObjectType::Heap);
    }
}

/// How many steps a robot on `(x, y)` is away from the player: the larger
/// of the two distances along the axes.
pub open spec fn distance(x: int, y: int, c: Chase) -> int {
    let across = if x < c.player_x {
        c.player_x - x
    } else {
        x - c.player_x
    };
    let down = if y < c.player_y {
        c.player_y - y
    } else {
        y - c.player_y
    };
    if across < down {
        down
    } else {
        across
    }
}

/// Whether every robot of the arena is at most `reach` steps away from the
/// player.
pub open spec fn within(cells: Seq<ObjectType>, c: Chase, reach: int) -> bool {
    forall|i: int|
        0 <= i < cells.len() && (#[trigger] cells[i]).is_robot() ==> distance(
            i % c.width,
            i / c.width,
            c,
        ) <= reach
}

/// A step puts no robot down further from the player than one step less
/// than the robot was.
pub proof fn lemma_step_within(
    s: Scene,
    robot: ObjectType,
    x: int,
    y: int,
    c: Chase,
    reach: int,
)
    requires
        fits(s.cells, c),
        inside(x, y, c.width, c.height),
        robot.is_robot(),
        s.cells[cell_index(c.player_x, c.player_y, c.width)] == ObjectType::Player,
        within(s.cells, c, reach),
        distance(x, y, c) <= reach + 1,
    ensures
        within(robot_step(s, robot, x, y, c).cells, c, reach),
{
    lemma_step_inside(x, y, c);
    let after = robot_step(s, robot, x, y, c).cells;
    let there = cell_index(toward(x, c.player_x), toward(y, c.player_y), c.width);
    crate::arena::lemma_index_split(toward(x, c.player_x), toward(y, c.player_y), c.width);
    assert forall|i: int| 0 <= i < after.len() && (#[trigger] after[i]).is_robot() implies distance(
        i % c.width,
        i / c.width,
        c,
    ) <= reach by {
        if i == there && after[i] != s.cells[i] {
            // the robot has moved, so it did not stand on the player's cell
            assert(s.cells[cell_index(x, y, c.width)] != ObjectType::Player);
            assert(x != c.player_x || y != c.player_y);
        } else {
            assert(s.cells[i].is_robot());
        }
    }
}

/// A pass in which every robot that steps starts at most `reach + 1` steps
/// away from the player leaves every robot at most `reach` steps away.
pub proof fn lemma_sweep_within(
    source: Seq<ObjectType>,
    s: Scene,
    n: nat,
    second: bool,
    c: Chase,
    reach: int,
)
    requires
        fits(s.cells, c),
        n <= c.width * c.height,
        s.cells[cell_index(c.player_x, c.player_y, c.width)] == ObjectType::Player,
        within(s.cells, c, reach),
        forall|i: int|
            0 <= i < n && steps_in_pass(#[trigger] source[i], second) ==> distance(
                i % c.width,
                i / c.width,
                c,
            ) <= reach + 1,
    ensures
        within(sweep(source, s, n, second, c).cells, c, reach),
    decreases n,
{
    if n > 0 {
        let before = sweep(source, s, (n - 1) as nat, second, c);
        lemma_sweep_within(source, s, (n - 1) as nat, second, c, reach);
        lemma_sweep_keeps_player(source, s, (n - 1) as nat, second, c);
        lemma_index_join(n - 1, c.width, c.height);
        lemma_index_inside(c.player_x, c.player_y, c.width, c.height);
        if steps_in_pass(source[n - 1], second) {
            lemma_step_within(
                before,
                source[n - 1],
                (n - 1) % c.width,
                (n - 1) / c.width,
                c,
                reach,
            );
        }
    }
}

/// The robots close in: if every robot is at most `reach + 1` steps away
/// from the player before they move, every robot is at most `reach` steps
/// away after.
pub proof fn lemma_advance_within(
    current: Seq<ObjectType>,
    candidate: Seq<ObjectType>,
    c: Chase,
    reach: int,
)
    requires
        fits(candidate, c),
        current.len() == candidate.len(),
        candidate[cell_index(c.player_x, c.player_y, c.width)] == ObjectType::Player,
        forall|i: int| 0 <= i < candidate.len() ==> !candidate[i].is_robot(),
        within(current, c, reach + 1),
    ensures
        within(advance(current, candidate, c).cells, c, reach),
{
    let first = sweep(current, opening(candidate), current.len(), false, c);
    let middle = between_passes(first);
    lemma_index_inside(c.player_x, c.player_y, c.width, c.height);
    lemma_sweep_within(current, opening(candidate), current.len(), false, c, reach);
    lemma_sweep_keeps_player(current, opening(candidate), current.len(), false, c);
    assert(within(middle.cells, c, reach)) by {
        assert forall|i: int|
            0 <= i < middle.cells.len() && (#[trigger] middle.cells[i]).is_robot() implies distance(
            i % c.width,
            i / c.width,
            c,
        ) <= reach by {
            assert(first.cells[i].is_robot());
        }
    }
    assert forall|i: int|
        0 <= i < first.cells.len() && steps_in_pass(
            #[trigger] first.cells[i],
            true,
        ) implies distance(i % c.width, i / c.width, c) <= reach + 1 by {
        assert(first.cells[i].is_robot());
    }
    lemma_sweep_within(first.cells, middle, first.cells.len(), true, c, reach);
}

/// Once the player is caught they stay caught: a pass does not undo it.
pub proof fn lemma_sweep_stays_dead(
    source: Seq<ObjectType>,
    s: Scene,
    n: nat,
    second: bool,
    c: Chase,
)
    requires
        s.dead,
    ensures
        sweep(source, s, n, second, c).dead,
    decreases n,
{
    if n > 0 {
        lemma_sweep_stays_dead(source, s, (n - 1) as nat, second, c);
    }
}

/// A pass in which every robot that steps stands next to the player, with
/// no heap on its cell, catches the player if any robot steps at all, and
/// leaves the arena as it is.
pub proof fn lemma_sweep_adjacent(
    source: Seq<ObjectType>,
    s: Scene,
    n: nat,
    second: bool,
    c: Chase,
)
    requires
        fits(s.cells, c),
        n <= c.width * c.height,
        s.cells[cell_index(c.player_x, c.player_y, c.width)] == ObjectType::Player,
        forall|i: int|
            0 <= i < n && steps_in_pass(#[trigger] source[i], second) ==> distance(
                i % c.width,
                i / c.width,
                c,
            ) <= 1 && s.cells[i] != ObjectType::Heap,
    ensures
        sweep(source, s, n, second, c).cells == s.cells,
        s.dead ==> sweep(source, s, n, second, c).dead,
        forall|k: int|
            0 <= k < n && steps_in_pass(#[trigger] source[k], second) ==> sweep(
                source,
                s,
                n,
                second,
                c,
            ).dead,
    decreases n,
{
    if n > 0 {
        let before = sweep(source, s, (n - 1) as nat, second, c);
        lemma_sweep_adjacent(source, s, (n - 1) as nat, second, c);
        lemma_index_join(n - 1, c.width, c.height);
        if steps_in_pass(source[n - 1], second) {
            let x = (n - 1) % c.width;
            let y = (n - 1) / c.width;
            assert(distance(x, y, c) <= 1);
            assert(toward(x, c.player_x) == c.player_x);
            assert(toward(y, c.player_y) == c.player_y);
            assert(before.cells[n - 1] != ObjectType::Heap);
            assert(robot_step(before, source[n - 1], x, y, c).dead);
        }
    }
}

/// Robots that all stand next to the player catch them: if every robot is
/// at most one step away, none has a heap on its cell, and there is a robot
/// at all, the player is dead after the robots have moved.
pub proof fn lemma_advance_adjacent(
    current: Seq<ObjectType>,
    candidate: Seq<ObjectType>,
    c: Chase,
    k: int,
)
    requires
        fits(candidate, c),
        current.len() == candidate.len(),
        candidate[cell_index(c.player_x, c.player_y, c.width)] == ObjectType::Player,
        within(current, c, 1),
        forall|i: int|
            0 <= i < current.len() && (#[trigger] current[i]).is_robot() ==> candidate[i]
                != ObjectType::Heap,
        0 <= k < current.len(),
        current[k].is_robot(),
    ensures
        advance(current, candidate, c).dead,
{
    let first = sweep(current, opening(candidate), current.len(), false, c);
    assert forall|i: int|
        0 <= i < current.len() && steps_in_pass(#[trigger] current[i], false) implies distance(
        i % c.width,
        i / c.width,
        c,
    ) <= 1 && opening(candidate).cells[i] != ObjectType::Heap by {
        assert(current[i].is_robot());
    }
    lemma_sweep_adjacent(current, opening(candidate), current.len(), false, c);
    assert(steps_in_pass(current[k], false));
    assert(first.dead);
    lemma_sweep_stays_dead(first.cells, between_passes(first), first.cells.len(), true, c);
}

} // verus!
