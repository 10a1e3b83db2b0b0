//! The session: the arena with everything that is counted around it, and the
//! engine that moves it from turn to turn.

use vstd::prelude::*;
use crate::arena::{
    cell_index, count, empty_cells, inside, is_arena, lemma_area_bound, lemma_count_partition,
    lemma_count_zero, lemma_index_inside, lemma_index_join, robots, MAX_SIDE,
};
use crate::enums::{GameState, ObjectType, PlayerCommand};
use crate::model::{capped, first_hit, no_hit, quota, GameView};
use crate::options::Options;
use crate::profiles::Profile;
use crate::random::{lemma_order_covers, shuffled};
use crate::resolver::{
    advance, between_passes, kill_weight, lemma_push_target_free, lemma_step_adds,
    lemma_sweep_len, only_heaps, opening, push_target, pushed, robot_step, room, staged, sweep,
    without_fast, Scene,
};

verus! {

/// What the robots have done in one turn.
#[derive(Clone, Copy, Debug)]
pub struct MoveRobotsResult {
    /// A robot has caught the player.
    pub dead: bool,
    /// The score the dead robots pay.
    pub score: u64,
    /// The kill weight of the robots that died in collisions.
    pub kills: u16,
}

impl MoveRobotsResult {
    pub fn new() -> (result: Self)
        ensures
            !result.dead,
            result.score == 0,
            result.kills == 0,
    {
        MoveRobotsResult { dead: false, score: 0, kills: 0 }
    }

    /// Whether this is what a scene amounts to, with the two counters
    /// stopped at the top of their range.
    pub open spec fn records(self, s: Scene) -> bool {
        &&& self.dead == s.dead
        &&& self.score == capped(s.score as int, u64::MAX as int)
        &&& self.kills == capped(s.kills as int, u16::MAX as int)
    }
}

/// A session: an arena, the player in it, and the counters and rules of the
/// game around them.
pub struct Game {
    safe_moves: bool,
    arena_width: usize,
    arena_height: usize,
    arena: Vec<ObjectType>,
    state: GameState,
    level: u16,
    score: u64,
    safeteleports: u16,
    player_x: usize,
    player_y: usize,
    profile: Profile,
}

impl View for Game {
    type V = GameView;

    closed spec fn view(&self) -> GameView {
        GameView {
            safe_moves: self.safe_moves,
            width: self.arena_width as int,
            height: self.arena_height as int,
            cells: self.arena@,
            state: self.state,
            level: self.level as int,
            score: self.score as int,
            safeteleports: self.safeteleports as int,
            player_x: self.player_x as int,
            player_y: self.player_y as int,
            profile: self.profile,
        }
    }
}

impl Game {
    /// The session is one the engine can work on.
    pub open spec fn wf(&self) -> bool {
        self@.wf()
    }

    /// Pushes the row of heaps that starts at `(x, y)` one step in the
    /// direction `(dx, dy)`, if the cell after the row is free.
    ///
    /// Returns whether the row has moved; if it has not, `new_arena` is as it
    /// was.
    pub fn try_push_heap(
        &self,
        new_arena: &mut Vec<ObjectType>,
        x: usize,
        y: usize,
        dx: i16,
        dy: i16,
    ) -> (moved: bool)
        requires
            self.wf(),
            old(new_arena)@.len() == self@.width * self@.height,
            inside(x as int, y as int, self@.width, self@.height),
            old(new_arena)@[cell_index(x as int, y as int, self@.width)] == ObjectType::Heap,
            dx != 0 || dy != 0,
        ensures
            match pushed(
                old(new_arena)@,
                x as int,
                y as int,
                dx as int,
                dy as int,
                self@.width,
                self@.height,
            ) {
                Some(after) => moved && final(new_arena)@ == after,
                None => !moved && final(new_arena)@ == old(new_arena)@,
            },
            final(new_arena)@.len() == old(new_arena)@.len(),
    {
        let width = self.arena_width;
        let height = self.arena_height;
        proof {
            lemma_push_target_free(
                new_arena@,
                x as int,
                y as int,
                dx as int,
                dy as int,
                width as int,
                height as int,
            );
            lemma_area_bound(width as int, height as int);
            lemma_index_inside(x as int, y as int, width as int, height as int);
        }
        let start = x + y * width;
        let mut at_x = x;
        let mut at_y = y;
        loop
            invariant
                1 <= width <= MAX_SIDE,
                1 <= height <= MAX_SIDE,
                width == self@.width,
                height == self@.height,
                new_arena@ == old(new_arena)@,
                new_arena@.len() == width * height,
                width * height <= 0x3fff_0001,
                start == cell_index(x as int, y as int, width as int),
                0 <= start < new_arena@.len(),
                inside(at_x as int, at_y as int, width as int, height as int),
                new_arena@[cell_index(at_x as int, at_y as int, width as int)]
                    == ObjectType::Heap,
                dx != 0 || dy != 0,
                push_target(
                    new_arena@,
                    at_x as int,
                    at_y as int,
                    dx as int,
                    dy as int,
                    width as int,
                    height as int,
                ) == push_target(
                    new_arena@,
                    x as int,
                    y as int,
                    dx as int,
                    dy as int,
                    width as int,
                    height as int,
                ),
            decreases room(at_x as int, at_y as int, dx as int, dy as int, width as int, height as int),
        {
            let next_x: i64 = at_x as i64 + dx as i64;
            let next_y: i64 = at_y as i64 + dy as i64;
            if next_x < 0 || next_y < 0 || next_x >= width as i64 || next_y >= height as i64 {
                return false;
            }
            proof {
                lemma_index_inside(next_x as int, next_y as int, width as int, height as int);
            }
            let target = next_x as usize + next_y as usize * width;
            let next = new_arena[target];
            if next == ObjectType::Empty {
                new_arena.set(start, ObjectType::Empty);
                new_arena.set(target, ObjectType::Heap);
                return true;
            } else if next == ObjectType::Heap {
                at_x = next_x as usize;
                at_y = next_y as usize;
            } else {
                return false;
            }
        }
    }

    /// What a robot that dies in a collision pays in the state the session
    /// is in.
    fn collision_score(&self, robot: ObjectType) -> (score: u64)
        ensures
            score == self@.table().collision(robot),
    {
        match robot {
            ObjectType::Robot1 => if self.state == GameState::Waiting {
                self.profile.score_type1_waiting
            } else {
                self.profile.score_type1
            },
            ObjectType::Robot2 => if self.state == GameState::Waiting {
                self.profile.score_type2_waiting
            } else {
                self.profile.score_type2
            },
            _ => 0,
        }
    }

    /// What a robot that a heap ends pays.
    fn splatted_score(&self, robot: ObjectType) -> (score: u64)
        ensures
            score == self@.table().splatted(robot),
    {
        match robot {
            ObjectType::Robot1 => self.profile.score_type1_splatted,
            ObjectType::Robot2 => self.profile.score_type2_splatted,
            _ => 0,
        }
    }

    /// Lets the robot that started the turn at `(x, y)` take one step
    /// towards the player at `(player_x, player_y)` in the candidate
    /// `new_arena`, and adds what happens to `result`.
    pub fn move_robot(
        &self,
        robot: ObjectType,
        x: usize,
        y: usize,
        new_arena: &mut Vec<ObjectType>,
        player_x: usize,
        player_y: usize,
        result: &mut MoveRobotsResult,
    )
        requires
            self.wf(),
            robot.is_robot(),
            old(new_arena)@.len() == self@.width * self@.height,
            inside(x as int, y as int, self@.width, self@.height),
            inside(player_x as int, player_y as int, self@.width, self@.height),
        ensures
            ({
                let step = robot_step(
                    opening(old(new_arena)@),
                    robot,
                    x as int,
                    y as int,
                    self@.chase(player_x as int, player_y as int),
                );
                &&& final(new_arena)@ == step.cells
                &&& final(result).dead == (old(result).dead || step.dead)
                &&& final(result).score == capped(old(result).score + step.score, u64::MAX as int)
                &&& final(result).kills == capped(old(result).kills + step.kills, u16::MAX as int)
            }),
    {
        let width = self.arena_width;
        let new_x = if player_x < x {
            x - 1
        } else if player_x > x {
            x + 1
        } else {
            x
        };
        let new_y = if player_y < y {
            y - 1
        } else if player_y > y {
            y + 1
        } else {
            y
        };
        proof {
            lemma_area_bound(width as int, self.arena_height as int);
            lemma_index_inside(x as int, y as int, width as int, self.arena_height as int);
            lemma_index_inside(new_x as int, new_y as int, width as int, self.arena_height as int);
        }
        let here = x + y * width;
        let there = new_x + new_y * width;

        if new_arena[here] == ObjectType::Player {
            // the player has stepped onto the robot
            result.dead = true;
            return ;
        }
        if new_arena[here] == ObjectType::Heap {
            // a heap has been pushed onto the robot
            result.score = result.score.saturating_add(self.splatted_score(robot));
            return ;
        }
        let target = new_arena[there];
        if target == ObjectType::Player {
            result.dead = true;
            return ;
        }
        if target == ObjectType::Heap {
            result.score = result.score.saturating_add(self.splatted_score(robot));
            return ;
        }
        if target.is_robot() {
            result.score = result.score.saturating_add(self.collision_score(robot)).saturating_add(
                self.collision_score(target),
            );
            result.kills = result.kills.saturating_add(kills_of(robot)).saturating_add(
                kills_of(target),
            );
            new_arena.set(there, ObjectType::Heap);
            return ;
        }
        new_arena.set(there, robot);
    }

    /// One pass over the arena `source`: every robot of it that takes part
    /// in the pass steps into `new_arena`.
    fn sweep_robots(
        &self,
        source: &Vec<ObjectType>,
        second: bool,
        new_arena: &mut Vec<ObjectType>,
        player_x: usize,
        player_y: usize,
        result: &mut MoveRobotsResult,
        Ghost(before): Ghost<Scene>,
    )
        requires
            self.wf(),
            source@.len() == self@.width * self@.height,
            old(new_arena)@.len() == self@.width * self@.height,
            inside(player_x as int, player_y as int, self@.width, self@.height),
            before.cells == old(new_arena)@,
            old(result).records(before),
        ensures
            ({
                let after = sweep(
                    source@,
                    before,
                    source@.len(),
                    second,
                    self@.chase(player_x as int, player_y as int),
                );
                &&& final(new_arena)@ == after.cells
                &&& final(result).records(after)
            }),
    {
        let width = self.arena_width;
        let total = source.len();
        let ghost c = self@.chase(player_x as int, player_y as int);
        for i in 0..total
            invariant
                self.wf(),
                width == self@.width,
                total == source@.len(),
                total == self@.width * self@.height,
                inside(player_x as int, player_y as int, self@.width, self@.height),
                c == self@.chase(player_x as int, player_y as int),
                new_arena@ == sweep(source@, before, i as nat, second, c).cells,
                new_arena@.len() == total,
                result.records(sweep(source@, before, i as nat, second, c)),
        {
            let what = source[i];
            let steps = if second {
                what == ObjectType::Robot2
            } else {
                what.is_robot()
            };
            if steps {
                proof {
                    lemma_index_join(i as int, width as int, self@.height);
                    lemma_step_adds(
                        sweep(source@, before, i as nat, second, c),
                        what,
                        i as int % width as int,
                        i as int / width as int,
                        c,
                    );
                }
                self.move_robot(what, i % width, i / width, new_arena, player_x, player_y, result);
            }
        }
    }

    /// Lets the robots answer the player's move to `(player_x, player_y)`:
    /// every robot of the arena steps into the candidate `new_arena`, then
    /// the fast robots that stand there step a second time.
    pub fn move_robots(
        &self,
        new_arena: &mut Vec<ObjectType>,
        player_x: usize,
        player_y: usize,
    ) -> (result: MoveRobotsResult)
        requires
            self.wf(),
            old(new_arena)@.len() == self@.width * self@.height,
            inside(player_x as int, player_y as int, self@.width, self@.height),
        ensures
            ({
                let after = advance(
                    self@.cells,
                    old(new_arena)@,
                    self@.chase(player_x as int, player_y as int),
                );
                &&& final(new_arena)@ == after.cells
                &&& result.records(after)
            }),
    {
        let mut result = MoveRobotsResult::new();
        let ghost c = self@.chase(player_x as int, player_y as int);

        // every robot takes one step
        self.sweep_robots(
            &self.arena,
            false,
            new_arena,
            player_x,
            player_y,
            &mut result,
            Ghost(opening(new_arena@)),
        );
        let ghost first = sweep(self@.cells, opening(old(new_arena)@), self@.cells.len(), false, c);
        proof {
            lemma_sweep_len(self@.cells, opening(old(new_arena)@), self@.cells.len(), false, c);
        }

        // the fast robots take a second one
        let total = new_arena.len();
        let mut arena2: Vec<ObjectType> = Vec::with_capacity(total);
        for i in 0..total
            invariant
                total == first.cells.len(),
                new_arena@.len() == total,
                arena2@ == first.cells.take(i as int),
                forall|k: int|
                    0 <= k < total ==> new_arena@[k] == if k < i {
                        without_fast(first.cells)[k]
                    } else {
                        first.cells[k]
                    },
        {
            let what = new_arena[i];
            arena2.push(what);
            if what == ObjectType::Robot2 {
                new_arena.set(i, ObjectType::Empty);
            }
        }
        assert(arena2@ == first.cells);
        assert(new_arena@ == without_fast(first.cells));
        self.sweep_robots(
            &arena2,
            true,
            new_arena,
            player_x,
            player_y,
            &mut result,
            Ghost(between_passes(first)),
        );
        result
    }

    /// How many robots stand in the arena.
    pub fn count_robots(&self) -> (n: usize)
        ensures
            n == robots(self@.cells),
    {
        let mut n: usize = 0;
        let total = self.arena.len();
        for i in 0..total
            invariant
                total == self.arena@.len(),
                n == robots(self.arena@.take(i as int)),
                n <= i,
        {
            assert(self.arena@.take(i + 1).drop_last() =~= self.arena@.take(i as int));
            if self.arena[i].is_robot() {
                n += 1;
            }
        }
        assert(self.arena@.take(total as int) =~= self.arena@);
        n
    }

    /// Takes over the outcome of a turn: the player's cell, the arena and
    /// the score.
    fn update_status(
        &mut self,
        player_x: usize,
        player_y: usize,
        new_arena: Vec<ObjectType>,
        result: &MoveRobotsResult,
    )
        ensures
            final(self)@ == (GameView {
                cells: new_arena@,
                player_x: player_x as int,
                player_y: player_y as int,
                score: capped(old(self)@.score + result.score, u64::MAX as int),
                ..old(self)@
            }),
    {
        self.player_x = player_x;
        self.player_y = player_y;
        self.arena = new_arena;
        self.score = self.score.saturating_add(result.score);
    }

    /// Moves the player by `(dx, dy)` and lets the robots answer.
    ///
    /// Returns whether the move was carried out. It is not, and the session
    /// stays as it is, if the player would leave the arena, if they would
    /// run into a heap that cannot or may not be pushed, or if `safe` is set
    /// and a robot would catch them. The kill weight of a move that is
    /// carried out is added to `kills`; a move that is not leaves `kills`
    /// alone.
    pub fn player_move_k(&mut self, dx: i16, dy: i16, safe: bool, kills: &mut u16) -> (moved: bool)
        requires
            old(self).wf(),
            old(self)@.active(),
        ensures
            final(self).wf(),
            moved == old(self)@.accepts(dx as int, dy as int, safe),
            final(self)@ == old(self)@.after_move(dx as int, dy as int, safe),
            *final(kills) == old(self)@.kills_after(dx as int, dy as int, safe, *old(kills) as int),
            robots(final(self)@.cells) <= robots(old(self)@.cells),
    {
        proof {
            self@.lemma_after_move(dx as int, dy as int, safe);
        }
        let width = self.arena_width;
        let height = self.arena_height;
        let next_x: i64 = self.player_x as i64 + dx as i64;
        let next_y: i64 = self.player_y as i64 + dy as i64;
        if next_x < 0 || next_y < 0 || next_x >= width as i64 || next_y >= height as i64 {
            return false;
        }
        let player_x = next_x as usize;
        let player_y = next_y as usize;
        proof {
            lemma_area_bound(width as int, height as int);
            lemma_index_inside(player_x as int, player_y as int, width as int, height as int);
        }

        // a new arena with only the heaps
        let total = width * height;
        let mut new_arena: Vec<ObjectType> = Vec::with_capacity(total);
        for i in 0..total
            invariant
                total == self.arena@.len(),
                new_arena@ == only_heaps(self.arena@).take(i as int),
        {
            new_arena.push(
                if self.arena[i] == ObjectType::Heap {
                    ObjectType::Heap
                } else {
                    ObjectType::Empty
                },
            );
            assert(new_arena@ =~= only_heaps(self.arena@).take(i + 1));
        }
        assert(new_arena@ =~= only_heaps(self.arena@));

        // the heap in the way is pushed on, if it can be
        let to = player_x + player_y * width;
        if new_arena[to] == ObjectType::Heap {
            if self.profile.moveable_heaps {
                if !self.try_push_heap(&mut new_arena, player_x, player_y, dx, dy) {
                    return false;
                }
            } else {
                return false;
            }
        }
        new_arena.set(to, ObjectType::Player);
        assert(Some(new_arena@) == staged(
            self@.cells,
            self@.width,
            self@.height,
            self@.player_x,
            self@.player_y,
            dx as int,
            dy as int,
            self@.profile.moveable_heaps,
        ));

        let result = self.move_robots(&mut new_arena, player_x, player_y);

        // with safe moves nobody walks into their death
        if result.dead && safe {
            return false;
        }
        *kills = kills.saturating_add(result.kills);
        self.update_status(player_x, player_y, new_arena, &result);
        if result.dead {
            self.state = GameState::Dead;
        } else {
            let left = self.count_robots();
            if left == 0 {
                self.state = GameState::LevelComplete;
            }
        }
        true
    }

    /// Moves the player by `(dx, dy)` and lets the robots answer, as
    /// `player_move_k` does, without keeping the kill weight.
    pub fn player_move(&mut self, dx: i16, dy: i16, safe: bool) -> (moved: bool)
        requires
            old(self).wf(),
            old(self)@.active(),
        ensures
            final(self).wf(),
            moved == old(self)@.accepts(dx as int, dy as int, safe),
            final(self)@ == old(self)@.after_move(dx as int, dy as int, safe),
            robots(final(self)@.cells) <= robots(old(self)@.cells),
    {
        let mut kills: u16 = 0;
        self.player_move_k(dx, dy, safe, &mut kills)
    }

    /// Puts `object` into the first free cell that the lists lead to: rows
    /// are tried in the order of `y_list` and, within a row, columns in the
    /// order of `x_list`.
    ///
    /// Returns whether a free cell was found; if none was, the session is as
    /// it was.
    pub fn place_in_order(
        &mut self,
        x_list: &Vec<usize>,
        y_list: &Vec<usize>,
        object: ObjectType,
    ) -> (placed: bool)
        requires
            old(self).wf(),
            object != ObjectType::Player,
            forall|i: int| 0 <= i < x_list@.len() ==> x_list@[i] < old(self)@.width,
            forall|j: int| 0 <= j < y_list@.len() ==> y_list@[j] < old(self)@.height,
        ensures
            final(self).wf(),
            placed ==> exists|j: int, i: int|
                #[trigger] first_hit(x_list@, y_list@, j, i, old(self)@.free()) && final(self)@
                    == old(self)@.with_cell(x_list@[i] as int, y_list@[j] as int, object),
            !placed ==> no_hit(x_list@, y_list@, old(self)@.free()) && final(self)@ == old(self)@,
    {
        let width = self.arena_width;
        let rows = y_list.len();
        let columns = x_list.len();
        let ghost free = self@.free();
        proof {
            lemma_area_bound(width as int, self.arena_height as int);
        }
        for j in 0..rows
            invariant
                self.wf(),
                self@ == old(self)@,
                *self == *old(self),
                width == self@.width,
                self@.width * self@.height <= 0x3fff_0001,
                rows == y_list@.len(),
                columns == x_list@.len(),
                free == self@.free(),
                object != ObjectType::Player,
                forall|i: int| 0 <= i < x_list@.len() ==> x_list@[i] < self@.width,
                forall|j: int| 0 <= j < y_list@.len() ==> y_list@[j] < self@.height,
                forall|j2: int, i2: int|
                    0 <= j2 < j && 0 <= i2 < columns ==> !#[trigger] free(
                        x_list@[i2] as int,
                        y_list@[j2] as int,
                    ),
        {
            let y = y_list[j];
            for i in 0..columns
                invariant
                    self.wf(),
                    self@ == old(self)@,
                    *self == *old(self),
                    width == self@.width,
                    self@.width * self@.height <= 0x3fff_0001,
                    rows == y_list@.len(),
                    columns == x_list@.len(),
                    0 <= j < rows,
                    y == y_list@[j as int],
                    free == self@.free(),
                    object != ObjectType::Player,
                    forall|i: int| 0 <= i < x_list@.len() ==> x_list@[i] < self@.width,
                    forall|j: int| 0 <= j < y_list@.len() ==> y_list@[j] < self@.height,
                    forall|j2: int, i2: int|
                        0 <= j2 < j && 0 <= i2 < columns ==> !#[trigger] free(
                            x_list@[i2] as int,
                            y_list@[j2] as int,
                        ),
                    forall|i2: int|
                        0 <= i2 < i ==> !#[trigger] free(x_list@[i2] as int, y_list@[j as int] as int),
            {
                let x = x_list[i];
                proof {
                    lemma_index_inside(x as int, y as int, width as int, self@.height);
                }
                let at = x + y * width;
                if self.arena[at] == ObjectType::Empty {
                    proof {
                        self@.lemma_with_cell(x as int, y as int, object);
                        assert(free(x as int, y as int));
                        assert(first_hit(x_list@, y_list@, j as int, i as int, free));
                    }
                    self.arena.set(at, object);
                    return true;
                }
            }
        }
        false
    }

    /// Puts `object` into a free cell that chance picks.
    pub fn place_randomly(&mut self, object: ObjectType)
        requires
            old(self).wf(),
            old(self)@.has_free(),
            object != ObjectType::Player,
        ensures
            final(self).wf(),
            exists|x: int, y: int|
                #[trigger] old(self)@.is_free(x, y) && final(self)@ == old(self)@.with_cell(
                    x,
                    y,
                    object,
                ),
    {
        let mut rng = rand::thread_rng();
        let x_list = shuffled(self.arena_width, &mut rng);
        let y_list = shuffled(self.arena_height, &mut rng);
        proof {
            lemma_order_covers(x_list@, self.arena_width as nat);
            lemma_order_covers(y_list@, self.arena_height as nat);
            let (x, y) = self@.lemma_free_cell();
            assert(x_list@.contains(x as usize));
            assert(y_list@.contains(y as usize));
            let i = choose|i: int| 0 <= i < x_list@.len() && x_list@[i] == x as usize;
            let j = choose|j: int| 0 <= j < y_list@.len() && y_list@[j] == y as usize;
            assert(self@.free()(x_list@[i] as int, y_list@[j] as int));
        }
        let placed = self.place_in_order(&x_list, &y_list, object);
        proof {
            let (j, i) = choose|j: int, i: int|
                #[trigger] first_hit(x_list@, y_list@, j, i, old(self)@.free()) && self@ == old(self)@.with_cell(x_list@[i] as int, y_list@[j] as int, object);
            assert(old(self)@.is_free(x_list@[i] as int, y_list@[j] as int));
        }
    }

    /// Takes the player to the first cell that the lists lead to and that a
    /// teleport can go to, and lets the robots answer. Rows are tried in the
    /// order of `y_list` and, within a row, columns in the order of
    /// `x_list`. With `safe`, cells on which a robot would catch the player
    /// are passed over.
    ///
    /// Returns whether the player has moved; if they have not, the session
    /// is as it was.
    pub fn teleport_in_order(
        &mut self,
        x_list: &Vec<usize>,
        y_list: &Vec<usize>,
        safe: bool,
    ) -> (moved: bool)
        requires
            old(self).wf(),
            old(self)@.active(),
            forall|i: int| 0 <= i < x_list@.len() ==> x_list@[i] < old(self)@.width,
            forall|j: int| 0 <= j < y_list@.len() ==> y_list@[j] < old(self)@.height,
        ensures
            final(self).wf(),
            moved ==> exists|j: int, i: int|
                #[trigger] first_hit(x_list@, y_list@, j, i, old(self)@.landing(safe)) && final(self)@ == old(self)@.landed(x_list@[i] as int, y_list@[j] as int, safe),
            !moved ==> no_hit(x_list@, y_list@, old(self)@.landing(safe)) && final(self)@ == old(self)@,
            robots(final(self)@.cells) <= robots(old(self)@.cells),
    {
        let width = self.arena_width;
        let rows = y_list.len();
        let columns = x_list.len();
        let ghost landing = self@.landing(safe);
        proof {
            lemma_area_bound(width as int, self.arena_height as int);
        }
        for j in 0..rows
            invariant
                self.wf(),
                self@ == old(self)@,
                width == self@.width,
                self@.width * self@.height <= 0x3fff_0001,
                rows == y_list@.len(),
                columns == x_list@.len(),
                landing == self@.landing(safe),
                self@.active(),
                forall|i: int| 0 <= i < x_list@.len() ==> x_list@[i] < self@.width,
                forall|j: int| 0 <= j < y_list@.len() ==> y_list@[j] < self@.height,
                forall|j2: int, i2: int|
                    0 <= j2 < j && 0 <= i2 < columns ==> !#[trigger] landing(
                        x_list@[i2] as int,
                        y_list@[j2] as int,
                    ),
        {
            let y = y_list[j];
            for i in 0..columns
                invariant
                    self.wf(),
                    self@ == old(self)@,
                    width == self@.width,
                    self@.width * self@.height <= 0x3fff_0001,
                    rows == y_list@.len(),
                    columns == x_list@.len(),
                    0 <= j < rows,
                    y == y_list@[j as int],
                    landing == self@.landing(safe),
                    self@.active(),
                    forall|i: int| 0 <= i < x_list@.len() ==> x_list@[i] < self@.width,
                    forall|j: int| 0 <= j < y_list@.len() ==> y_list@[j] < self@.height,
                    forall|j2: int, i2: int|
                        0 <= j2 < j && 0 <= i2 < columns ==> !#[trigger] landing(
                            x_list@[i2] as int,
                            y_list@[j2] as int,
                        ),
                    forall|i2: int|
                        0 <= i2 < i ==> !#[trigger] landing(
                            x_list@[i2] as int,
                            y_list@[j as int] as int,
                        ),
            {
                let x = x_list[i];
                proof {
                    lemma_index_inside(x as int, y as int, width as int, self@.height);
                }
                let at = x + y * width;
                if self.arena[at] == ObjectType::Empty {
                    let dx = x as i16 - self.player_x as i16;
                    let dy = y as i16 - self.player_y as i16;
                    let moved = self.player_move(dx, dy, safe);
                    if moved {
                        proof {
                            assert(landing(x as int, y as int));
                            assert(first_hit(x_list@, y_list@, j as int, i as int, landing));
                        }
                        return true;
                    }
                }
            }
        }
        false
    }

    /// Takes the player to a free cell that chance picks, and lets the
    /// robots answer. With `safe`, only a cell on which no robot catches the
    /// player will do.
    ///
    /// Returns whether the player has moved. They have if there is any cell
    /// to go to; if there is none, the session is as it was.
    pub fn teleport(&mut self, safe: bool) -> (moved: bool)
        requires
            old(self).wf(),
            old(self)@.active(),
        ensures
            final(self).wf(),
            moved == old(self)@.has_landing(safe),
            moved ==> exists|x: int, y: int|
                #[trigger] old(self)@.can_land(x, y, safe) && final(self)@ == old(self)@.landed(
                    x,
                    y,
                    safe,
                ),
            !moved ==> final(self)@ == old(self)@,
            robots(final(self)@.cells) <= robots(old(self)@.cells),
    {
        let mut rng = rand::thread_rng();
        let x_list = shuffled(self.arena_width, &mut rng);
        let y_list = shuffled(self.arena_height, &mut rng);
        proof {
            lemma_order_covers(x_list@, self.arena_width as nat);
            lemma_order_covers(y_list@, self.arena_height as nat);
        }
        let moved = self.teleport_in_order(&x_list, &y_list, safe);
        proof {
            let landing = old(self)@.landing(safe);
            if moved {
                let (j, i) = choose|j: int, i: int|
                    #[trigger] first_hit(x_list@, y_list@, j, i, landing) && self@ == old(self)@.landed(x_list@[i] as int, y_list@[j] as int, safe);
                assert(old(self)@.can_land(x_list@[i] as int, y_list@[j] as int, safe));
            } else if old(self)@.has_landing(safe) {
                let (x, y) = choose|x: int, y: int| #[trigger] old(self)@.can_land(x, y, safe);
                assert(x_list@.contains(x as usize));
                assert(y_list@.contains(y as usize));
                let i = choose|i: int| 0 <= i < x_list@.len() && x_list@[i] == x as usize;
                let j = choose|j: int| 0 <= j < y_list@.len() && y_list@[j] == y as usize;
                assert(landing(x_list@[i] as int, y_list@[j] as int));
            }
        }
        moved
    }

    /// Spends a safe teleport, if one is left and there is a cell to go to
    /// on which no robot catches the player: the player is taken to such a
    /// cell that chance picks, and the robots answer. Otherwise the session
    /// stays as it is.
    pub fn safe_teleport(&mut self)
        requires
            old(self).wf(),
            old(self)@.active(),
        ensures
            final(self).wf(),
            old(self)@.safeteleports > 0 && old(self)@.has_landing(true) ==> exists|
                x: int,
                y: int,
            |
                #[trigger] old(self)@.can_land(x, y, true) && final(self)@ == old(self)@.landed(
                    x,
                    y,
                    true,
                ).charged(1),
            !(old(self)@.safeteleports > 0 && old(self)@.has_landing(true)) ==> final(self)@
                == old(self)@,
            robots(final(self)@.cells) <= robots(old(self)@.cells),
    {
        if self.safeteleports > 0 {
            let moved = self.teleport(true);
            if moved {
                proof {
                    let (x, y) = choose|x: int, y: int|
                        #[trigger] old(self)@.can_land(x, y, true) && self@ == old(self)@.landed(x, y, true);
                    assert(old(self)@.can_land(x, y, true));
                }
                self.safeteleports -= 1;
            }
        }
    }

    /// Takes the player to a free cell that chance picks, whatever waits
    /// there, and lets the robots answer.
    pub fn random_teleport(&mut self)
        requires
            old(self).wf(),
            old(self)@.active(),
            old(self)@.has_free(),
        ensures
            final(self).wf(),
            exists|x: int, y: int|
                #[trigger] old(self)@.is_free(x, y) && final(self)@ == old(self)@.landed(
                    x,
                    y,
                    false,
                ),
            robots(final(self)@.cells) <= robots(old(self)@.cells),
    {
        proof {
            let (x, y) = self@.lemma_free_cell();
            self@.lemma_free_cell_lands(x, y);
        }
        let moved = self.teleport(false);
        proof {
            let (x, y) = choose|x: int, y: int|
                #[trigger] old(self)@.can_land(x, y, false) && self@ == old(self)@.landed(
                    x,
                    y,
                    false,
                );
            assert(old(self)@.is_free(x, y));
        }
    }

    /// Empties the arena and puts the player in its middle.
    pub fn clear_arena(&mut self)
        requires
            old(self).wf(),
        ensures
            final(self).wf(),
            final(self)@ == old(self)@.cleared(),
    {
        self.fill_cleared();
    }

    /// A session for the arena that the board of `options` leaves room for,
    /// with the knobs of `options`: level 0, nothing scored, no safe
    /// teleport, and the player alone in the middle of the arena.
    pub fn new(options: &Options) -> (game: Self)
        ensures
            game.wf(),
            game@ == GameView::fresh(
                *options,
                options.arena_size().0 as int,
                options.arena_size().1 as int,
            ),
    {
        let (arena_width, arena_height) = options.arena_size();
        let mut game = Game {
            safe_moves: options.safe_moves,
            arena_width,
            arena_height,
            arena: Vec::new(),
            state: GameState::Playing,
            level: 0,
            score: 0,
            safeteleports: 0,
            player_x: 0,
            player_y: 0,
            profile: options.profile(),
        };
        game.fill_cleared();
        game
    }

    /// Gives a session that has its dimensions its first arena.
    fn fill_cleared(&mut self)
        requires
            1 <= old(self).arena_width <= MAX_SIDE,
            1 <= old(self).arena_height <= MAX_SIDE,
        ensures
            final(self).wf(),
            final(self)@ == old(self)@.cleared(),
    {
        proof {
            self@.lemma_cleared();
            lemma_area_bound(self.arena_width as int, self.arena_height as int);
            lemma_index_inside(
                self.arena_width as int / 2,
                self.arena_height as int / 2,
                self.arena_width as int,
                self.arena_height as int,
            );
        }
        let total = self.arena_width * self.arena_height;
        let mut arena: Vec<ObjectType> = Vec::with_capacity(total);
        for i in 0..total
            invariant
                arena@ == empty_cells(i as nat),
        {
            arena.push(ObjectType::Empty);
            assert(arena@ =~= empty_cells((i + 1) as nat));
        }
        let player_x = self.arena_width / 2;
        let player_y = self.arena_height / 2;
        arena.set(player_x + player_y * self.arena_width, ObjectType::Player);
        self.arena = arena;
        self.player_x = player_x;
        self.player_y = player_y;
    }

    /// How many robots of one kind the level of the session starts with.
    fn robots_of_level(&self, initial: u16, increment: u16, maximum: u16) -> (n: u16)
        ensures
            n == quota(initial as int, increment as int, maximum as int, self@.level),
    {
        assert(increment as int * self.level as int <= 0xffff * 0xffff) by (nonlinear_arith)
            requires
                0 <= increment as int <= 0xffff,
                0 <= self.level as int <= 0xffff,
        ;
        assert(0 <= increment as int * self.level as int) by (nonlinear_arith)
            requires
                0 <= increment as int,
                0 <= self.level as int,
        ;
        let wanted: u64 = initial as u64 + increment as u64 * self.level as u64;
        if wanted > maximum as u64 {
            maximum
        } else {
            wanted as u16
        }
    }

    /// Grants a number of safe teleports, up to the most the profile allows.
    fn grant_safe_teleports(&mut self, more: u16)
        ensures
            final(self)@ == (GameView {
                safeteleports: old(self)@.granted(more as int),
                ..old(self)@
            }),
    {
        let sum: u32 = self.safeteleports as u32 + more as u32;
        if sum > self.profile.max_safe_teleports as u32 {
            self.safeteleports = self.profile.max_safe_teleports;
        } else {
            self.safeteleports = sum as u16;
        }
    }

    /// Sets up the level of the session: clears the arena, grants the free
    /// safe teleports of a level, and puts the robots of the level down
    /// where chance has it.
    ///
    /// If the level asks for more robots than half of the cells, none is put
    /// down and the game is complete.
    pub fn generate_level(&mut self)
        requires
            old(self).wf(),
        ensures
            final(self).wf(),
            final(self)@.starts_level_of(old(self)@),
    {
        self.clear_arena();
        proof {
            old(self)@.lemma_cleared();
            lemma_area_bound(self.arena_width as int, self.arena_height as int);
        }
        let num_robots1 = self.robots_of_level(
            self.profile.initial_type1,
            self.profile.increment_type1,
            self.profile.maximum_type1,
        );
        let num_robots2 = self.robots_of_level(
            self.profile.initial_type2,
            self.profile.increment_type2,
            self.profile.maximum_type2,
        );
        let max_robots = self.arena_width * self.arena_height / 2;
        self.grant_safe_teleports(self.profile.free_safe_teleports);

        if num_robots1 as usize + num_robots2 as usize > max_robots {
            self.state = GameState::GameComplete;
            return ;
        }
        self.state = GameState::Playing;
        proof {
            lemma_count_partition(self@.cells);
        }
        self.place_robots(ObjectType::Robot1, num_robots1);
        proof {
            lemma_count_partition(self@.cells);
        }
        self.place_robots(ObjectType::Robot2, num_robots2);
    }

    /// Puts `number` robots of one kind down where chance has it. Nothing
    /// else changes.
    fn place_robots(&mut self, robot: ObjectType, number: u16)
        requires
            old(self).wf(),
            robot.is_robot(),
            number <= count(old(self)@.cells, ObjectType::Empty),
        ensures
            final(self).wf(),
            final(self)@ == (GameView { cells: final(self)@.cells, ..old(self)@ }),
            final(self)@.cells.len() == old(self)@.cells.len(),
            forall|kind: ObjectType|
                kind != ObjectType::Empty ==> #[trigger] count(final(self)@.cells, kind) == count(
                    old(self)@.cells,
                    kind,
                ) + if kind == robot {
                    number as nat
                } else {
                    0nat
                },
    {
        for placed in 0..number
            invariant
                self.wf(),
                robot.is_robot(),
                self@ == (GameView { cells: self@.cells, ..old(self)@ }),
                self@.cells.len() == old(self)@.cells.len(),
                number <= count(old(self)@.cells, ObjectType::Empty),
                forall|kind: ObjectType|
                    kind != ObjectType::Empty ==> #[trigger] count(self@.cells, kind) == count(
                        old(self)@.cells,
                        kind,
                    ) + if kind == robot {
                        placed as nat
                    } else {
                        0nat
                    },
        {
            let ghost before = self@;
            proof {
                lemma_count_partition(self@.cells);
                lemma_count_partition(old(self)@.cells);
            }
            self.place_randomly(robot);
            proof {
                let (x, y) = choose|x: int, y: int|
                    #[trigger] before.is_free(x, y) && self@ == before.with_cell(x, y, robot);
                before.lemma_with_cell(x, y, robot);
            }
        }
    }

    /// Starts a new game: score and level go back to zero, the first level
    /// is set up, and the player gets the safe teleports a game starts with.
    pub fn new_game(&mut self)
        requires
            old(self).wf(),
        ensures
            final(self).wf(),
            final(self)@.starts_game_of(old(self)@),
    {
        self.score = 0;
        self.level = 0;
        self.generate_level();
        self.safeteleports = self.profile.initial_safe_teleports;
    }

    /// Goes on to the next level and sets it up.
    pub fn next_level(&mut self)
        requires
            old(self).wf(),
        ensures
            final(self).wf(),
            final(self)@.starts_level_of(old(self)@.promoted()),
    {
        self.level = self.level.saturating_add(1);
        self.generate_level();
    }

    /// A session that starts from an arena as given, as a new game would:
    /// level 0, nothing scored, and the safe teleports a game starts with.
    ///
    /// `None` unless both dimensions lie between 1 and `MAX_SIDE`, `cells`
    /// holds the `width * height` cells of the arena row by row, and exactly
    /// one of them holds the player.
    pub fn with_arena(
        options: &Options,
        width: usize,
        height: usize,
        cells: Vec<ObjectType>,
    ) -> (made: Option<Self>)
        ensures
            made.is_some() <==> is_arena(cells@, width as int, height as int) && count(
                cells@,
                ObjectType::Player,
            ) == 1,
            match made {
                Some(game) => game.wf() && game@ == (GameView {
                    cells: cells@,
                    player_x: game@.player_x,
                    player_y: game@.player_y,
                    safeteleports: options.initial_safe_teleports as int,
                    ..GameView::fresh(*options, width as int, height as int)
                }),
                None => true,
            },
    {
        if width < 1 || width > MAX_SIDE || height < 1 || height > MAX_SIDE {
            return None;
        }
        proof {
            lemma_area_bound(width as int, height as int);
        }
        if cells.len() != width * height {
            return None;
        }
        let total = cells.len();
        let mut players: usize = 0;
        let mut at: usize = 0;
        for i in 0..total
            invariant
                total == cells@.len(),
                players == count(cells@.take(i as int), ObjectType::Player),
                players <= i,
                players > 0 ==> at < i && cells@[at as int] == ObjectType::Player,
        {
            assert(cells@.take(i + 1).drop_last() =~= cells@.take(i as int));
            if cells[i] == ObjectType::Player {
                players += 1;
                at = i;
            }
        }
        assert(cells@.take(total as int) =~= cells@);
        if players != 1 {
            return None;
        }
        proof {
            lemma_index_join(at as int, width as int, height as int);
        }
        Some(
            Game {
                safe_moves: options.safe_moves,
                arena_width: width,
                arena_height: height,
                arena: cells,
                state: GameState::Playing,
                level: 0,
                score: 0,
                safeteleports: options.initial_safe_teleports,
                player_x: at % width,
                player_y: at / width,
                profile: options.profile(),
            },
        )
    }

    /// Adds the safe teleports that waiting has earned.
    fn reward(&mut self, bonus: u64)
        ensures
            final(self)@ == old(self)@.rewarded(bonus as int),
    {
        if bonus > 0 {
            let sum: u64 = bonus.saturating_add(self.safeteleports as u64);
            if sum > self.profile.max_safe_teleports as u64 {
                self.safeteleports = self.profile.max_safe_teleports;
            } else {
                self.safeteleports = sum as u16;
            }
        }
    }

    /// One step of waiting: the player stays where they are and the robots
    /// answer, whatever comes of it.
    ///
    /// `kills` is the kill weight that the steps before have left over.
    /// What this step adds to it, and what this step adds to the score, is
    /// turned into safe teleports at the prices of the profile; the kill
    /// weight that is left goes back into `kills`. The waiting is over when
    /// the session is no longer `Waiting`.
    pub fn waiting_step(&mut self, kills: &mut u16)
        requires
            old(self).wf(),
            old(self)@.state == GameState::Waiting,
        ensures
            final(self).wf(),
            final(self)@ == old(self)@.after_wait(*old(kills) as int),
            *final(kills) == old(self)@.kills_left(*old(kills) as int),
            robots(final(self)@.cells) <= robots(old(self)@.cells),
    {
        let prev_score = self.score;
        self.player_move_k(0, 0, false, kills);

        let mut bonus: u64 = 0;
        if self.profile.num_robots_per_safe > 0 {
            bonus = (*kills / self.profile.num_robots_per_safe) as u64;
            *kills = *kills % self.profile.num_robots_per_safe;
        }
        let score_step = self.score - prev_score;
        if self.profile.safe_score_boundary > 0 {
            bonus = bonus.saturating_add(score_step / self.profile.safe_score_boundary);
        }
        self.reward(bonus);
    }

    /// Carries out a command of the player, if the session is `Playing`.
    ///
    /// Returns whether the command was carried out; if it was not, the
    /// session is as it was.
    pub fn player_command(&mut self, command: PlayerCommand) -> (done: bool)
        requires
            old(self).wf(),
            old(self)@.state == GameState::Playing && command == PlayerCommand::RandomTeleport
                ==> old(self)@.has_free(),
        ensures
            final(self).wf(),
            final(self)@.obeys(old(self)@, command),
            done == old(self)@.carries_out(command),
            !done ==> final(self)@ == old(self)@,
            robots(final(self)@.cells) <= robots(old(self)@.cells),
    {
        if self.state != GameState::Playing {
            return false;
        }
        match command {
            PlayerCommand::SafeTeleport => {
                let charges = self.safeteleports;
                self.safe_teleport();
                proof {
                    if old(self)@.safeteleports > 0 && old(self)@.has_landing(true) {
                        let (x, y) = choose|x: int, y: int|
                            #[trigger] old(self)@.can_land(x, y, true) && self@ == old(self)@.landed(x, y, true).charged(1);
                        old(self)@.lemma_after_move(
                            x - old(self)@.player_x,
                            y - old(self)@.player_y,
                            true,
                        );
                    }
                }
                self.safeteleports != charges
            },
            PlayerCommand::RandomTeleport => {
                self.random_teleport();
                true
            },
            PlayerCommand::Wait => {
                self.state = GameState::Waiting;
                true
            },
            _ => {
                let (dx, dy) = command.to_direction();
                self.player_move(dx, dy, self.safe_moves)
            },
        }
    }

    pub fn state(&self) -> (state: GameState)
        ensures
            state == self@.state,
    {
        self.state
    }

    pub fn level(&self) -> (level: u16)
        ensures
            level == self@.level,
    {
        self.level
    }

    pub fn score(&self) -> (score: u64)
        ensures
            score == self@.score,
    {
        self.score
    }

    pub fn safeteleports(&self) -> (charges: u16)
        ensures
            charges == self@.safeteleports,
    {
        self.safeteleports
    }

    /// The cell the player stands on, as `(x, y)`.
    pub fn player_position(&self) -> (at: (usize, usize))
        ensures
            at.0 == self@.player_x,
            at.1 == self@.player_y,
    {
        (self.player_x, self.player_y)
    }

    /// The width and the height of the arena.
    pub fn arena_size(&self) -> (size: (usize, usize))
        ensures
            size.0 == self@.width,
            size.1 == self@.height,
    {
        (self.arena_width, self.arena_height)
    }

    /// The arena, row by row.
    pub fn arena(&self) -> (cells: &Vec<ObjectType>)
        ensures
            cells@ == self@.cells,
    {
        &self.arena
    }

    /// What the cell `(x, y)` holds.
    pub fn cell(&self, x: usize, y: usize) -> (what: ObjectType)
        requires
            self.wf(),
            inside(x as int, y as int, self@.width, self@.height),
        ensures
            what == self@.cells[cell_index(x as int, y as int, self@.width)],
    {
        proof {
            lemma_area_bound(self.arena_width as int, self.arena_height as int);
            lemma_index_inside(
                x as int,
                y as int,
                self.arena_width as int,
                self.arena_height as int,
            );
        }
        self.arena[x + y * self.arena_width]
    }

    /// Whether any cell of the arena has nothing in it.
    pub fn has_free_cell(&self) -> (free: bool)
        ensures
            free == self@.has_free(),
    {
        let total = self.arena.len();
        for i in 0..total
            invariant
                total == self.arena@.len(),
                count(self.arena@.take(i as int), ObjectType::Empty) == 0,
        {
            assert(self.arena@.take(i + 1).drop_last() =~= self.arena@.take(i as int));
            if self.arena[i] == ObjectType::Empty {
                proof {
                    lemma_count_zero(self.arena@, ObjectType::Empty);
                }
                return true;
            }
        }
        assert(self.arena@.take(total as int) =~= self.arena@);
        false
    }
}

/// What a robot that dies in a collision adds to the kill weight.
fn kills_of(robot: ObjectType) -> (weight: u16)
    ensures
        weight == kill_weight(robot),
{
    match robot {
        ObjectType::Robot1 => 1,
        ObjectType::Robot2 => 2,
        _ => 0,
    }
}

} // verus!
