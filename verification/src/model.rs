//! A session as plain values, and what every operation of the engine does
//! to it. The contracts of `Game` are stated in these terms.

use vstd::prelude::*;
use crate::arena::{
    cell_index, count, empty_cells, inside, is_arena, lemma_area_bound, lemma_count_empty_cells,
    lemma_count_single, lemma_count_update, lemma_count_zero, lemma_index_inside,
    lemma_index_join, robots, MAX_SIDE,
};
use crate::enums::{GameState, ObjectType, PlayerCommand};
use crate::options::Options;
use crate::profiles::Profile;
use crate::resolver::{
    advance, lemma_advance_keeps_player, lemma_advance_robots, lemma_staged_shape, resolve,
    staged, Chase, Scene, ScoreTable,
};

verus! {

/// `n`, or `top` if `n` lies above it.
pub open spec fn capped(n: int, top: int) -> int {
    if n > top {
        top
    } else {
        n
    }
}

/// A session as plain values.
#[verifier::ext_equal]
pub struct GameView {
    pub safe_moves: bool,
    pub width: int,
    pub height: int,
    /// The arena, row by row.
    pub cells: Seq<ObjectType>,
    pub state: GameState,
    pub level: int,
    pub score: int,
    pub safeteleports: int,
    pub player_x: int,
    pub player_y: int,
    /// The knobs the session was created with.
    pub profile: Profile,
}

impl GameView {
    /// What holds of every session: the arena has its dimensions, exactly
    /// one cell holds the player, it is the cell the session says, and the
    /// counters are in their range.
    pub open spec fn wf(self) -> bool {
        &&& is_arena(self.cells, self.width, self.height)
        &&& inside(self.player_x, self.player_y, self.width, self.height)
        &&& self.cells[cell_index(self.player_x, self.player_y, self.width)] == ObjectType::Player
        &&& count(self.cells, ObjectType::Player) == 1
        &&& 0 <= self.level <= u16::MAX
        &&& 0 <= self.score <= u64::MAX
        &&& 0 <= self.safeteleports <= u16::MAX
    }

    /// The two states in which turns are resolved.
    pub open spec fn active(self) -> bool {
        self.state == GameState::Playing || self.state == GameState::Waiting
    }

    /// What dead robots pay in the state the session is in: one set of
    /// collision scores while the player waits, another otherwise.
    pub open spec fn table(self) -> ScoreTable {
        if self.state == GameState::Waiting {
            ScoreTable {
                collision1: self.profile.score_type1_waiting as nat,
                collision2: self.profile.score_type2_waiting as nat,
                splatted1: self.profile.score_type1_splatted as nat,
                splatted2: self.profile.score_type2_splatted as nat,
            }
        } else {
            ScoreTable {
                collision1: self.profile.score_type1 as nat,
                collision2: self.profile.score_type2 as nat,
                splatted1: self.profile.score_type1_splatted as nat,
                splatted2: self.profile.score_type2_splatted as nat,
            }
        }
    }

    /// The chase after a player who has moved to `(px, py)`.
    pub open spec fn chase(self, px: int, py: int) -> Chase {
        Chase {
            width: self.width,
            height: self.height,
            player_x: px,
            player_y: py,
            table: self.table(),
        }
    }

    /// What a move of the player by `(dx, dy)` leads to, or `None` if the
    /// move is refused: it would leave the arena, or run into a heap that
    /// cannot or may not be pushed.
    pub open spec fn resolution(self, dx: int, dy: int) -> Option<Scene> {
        resolve(
            self.cells,
            self.width,
            self.height,
            self.player_x,
            self.player_y,
            dx,
            dy,
            self.profile.moveable_heaps,
            self.table(),
        )
    }

    /// Whether a move by `(dx, dy)` is carried out. With `safe`, a move that
    /// would get the player killed is not.
    pub open spec fn accepts(self, dx: int, dy: int, safe: bool) -> bool {
        match self.resolution(dx, dy) {
            Some(s) => !(s.dead && safe),
            None => false,
        }
    }

    /// The session after the outcome `s` of a move by `(dx, dy)` has been
    /// taken over: the arena is replaced, the score grows, and the session
    /// is over if the player died and the level won if no robot is left.
    pub open spec fn settled(self, dx: int, dy: int, s: Scene) -> GameView {
        GameView {
            cells: s.cells,
            player_x: self.player_x + dx,
            player_y: self.player_y + dy,
            score: capped(self.score + s.score, u64::MAX as int),
            state: if s.dead {
                GameState::Dead
            } else if robots(s.cells) == 0 {
                GameState::LevelComplete
            } else {
                self.state
            },
            ..self
        }
    }

    /// The session after the player has asked to move by `(dx, dy)`: as it
    /// was if the move is not carried out.
    pub open spec fn after_move(self, dx: int, dy: int, safe: bool) -> GameView {
        match self.resolution(dx, dy) {
            Some(s) => if s.dead && safe {
                self
            } else {
                self.settled(dx, dy, s)
            },
            None => self,
        }
    }

    /// The running kill weight after the player has asked to move by
    /// `(dx, dy)`: the kill weight of the move is added if the move is
    /// carried out, and nothing is if it is not.
    pub open spec fn kills_after(self, dx: int, dy: int, safe: bool, kills: int) -> int {
        match self.resolution(dx, dy) {
            Some(s) => if s.dead && safe {
                kills
            } else {
                capped(kills + s.kills, u16::MAX as int)
            },
            None => kills,
        }
    }

    /// A move leaves a session a session, and adds no robot to it.
    pub proof fn lemma_after_move(self, dx: int, dy: int, safe: bool)
        requires
            self.wf(),
        ensures
            self.after_move(dx, dy, safe).wf(),
            robots(self.after_move(dx, dy, safe).cells) <= robots(self.cells),
            self.accepts(dx, dy, safe) ==> inside(
                self.player_x + dx,
                self.player_y + dy,
                self.width,
                self.height,
            ),
    {
        lemma_staged_shape(
            self.cells,
            self.width,
            self.height,
            self.player_x,
            self.player_y,
            dx,
            dy,
            self.profile.moveable_heaps,
        );
        match staged(
            self.cells,
            self.width,
            self.height,
            self.player_x,
            self.player_y,
            dx,
            dy,
            self.profile.moveable_heaps,
        ) {
            Some(candidate) => {
                let c = self.chase(self.player_x + dx, self.player_y + dy);
                let s = self.resolution(dx, dy).unwrap();
                let to = cell_index(self.player_x + dx, self.player_y + dy, self.width);
                assert(s == advance(self.cells, candidate, c));
                lemma_advance_keeps_player(self.cells, candidate, c);
                lemma_count_zero(candidate, ObjectType::Robot1);
                lemma_count_zero(candidate, ObjectType::Robot2);
                lemma_advance_robots(self.cells, candidate, c);
                assert forall|i: int| 0 <= i < s.cells.len() implies (s.cells[i]
                    == ObjectType::Player <==> i == to) by {
                    assert(s.cells[i] == ObjectType::Player <==> candidate[i]
                        == ObjectType::Player);
                }
                lemma_count_single(s.cells, ObjectType::Player, to);
            },
            None => {},
        }
    }
}

/// Whether the place `(j1, i1)` comes before the place `(j2, i2)` when rows
/// are tried in the order of a list `ys` and, within a row, columns in the
/// order of a list `xs`: `j` counts along `ys`, `i` along `xs`.
pub open spec fn earlier(j1: int, i1: int, j2: int, i2: int) -> bool {
    j1 < j2 || (j1 == j2 && i1 < i2)
}

/// Whether the place `(j, i)` is the first one, in the order in which `ys`
/// and `xs` are tried, whose cell `(xs[i], ys[j])` satisfies `hit`.
pub open spec fn first_hit(
    xs: Seq<usize>,
    ys: Seq<usize>,
    j: int,
    i: int,
    hit: spec_fn(int, int) -> bool,
) -> bool {
    &&& 0 <= j < ys.len()
    &&& 0 <= i < xs.len()
    &&& hit(xs[i] as int, ys[j] as int)
    &&& forall|j2: int, i2: int|
        0 <= j2 < ys.len() && 0 <= i2 < xs.len() && earlier(j2, i2, j, i) ==> !#[trigger] hit(
            xs[i2] as int,
            ys[j2] as int,
        )
}

/// Whether no cell that `ys` and `xs` lead to satisfies `hit`.
pub open spec fn no_hit(xs: Seq<usize>, ys: Seq<usize>, hit: spec_fn(int, int) -> bool) -> bool {
    forall|j: int, i: int|
        0 <= j < ys.len() && 0 <= i < xs.len() ==> !#[trigger] hit(xs[i] as int, ys[j] as int)
}

impl GameView {
    /// Whether `(x, y)` is a cell of the arena with nothing in it.
    pub open spec fn is_free(self, x: int, y: int) -> bool {
        inside(x, y, self.width, self.height) && self.cells[cell_index(x, y, self.width)]
            == ObjectType::Empty
    }

    /// Whether any cell of the arena has nothing in it.
    pub open spec fn has_free(self) -> bool {
        count(self.cells, ObjectType::Empty) > 0
    }

    /// `is_free` as a value.
    pub open spec fn free(self) -> spec_fn(int, int) -> bool {
        |x: int, y: int| self.is_free(x, y)
    }

    /// The session with `what` written into the cell `(x, y)`.
    pub open spec fn with_cell(self, x: int, y: int, what: ObjectType) -> GameView {
        GameView { cells: self.cells.update(cell_index(x, y, self.width), what), ..self }
    }

    /// Whether a teleport can take the player to `(x, y)`: the cell is free,
    /// and with `safe` no robot catches the player there.
    pub open spec fn can_land(self, x: int, y: int, safe: bool) -> bool {
        self.is_free(x, y) && self.accepts(x - self.player_x, y - self.player_y, safe)
    }

    /// `can_land` as a value.
    pub open spec fn landing(self, safe: bool) -> spec_fn(int, int) -> bool {
        |x: int, y: int| self.can_land(x, y, safe)
    }

    /// Whether a teleport can take the player anywhere.
    pub open spec fn has_landing(self, safe: bool) -> bool {
        exists|x: int, y: int| #[trigger] self.can_land(x, y, safe)
    }

    /// The session after a teleport has taken the player to `(x, y)` and the
    /// robots have answered.
    pub open spec fn landed(self, x: int, y: int, safe: bool) -> GameView {
        self.after_move(x - self.player_x, y - self.player_y, safe)
    }

    /// The session with a number of safe teleports spent.
    pub open spec fn charged(self, spent: int) -> GameView {
        GameView { safeteleports: self.safeteleports - spent, ..self }
    }

    /// Putting something that is no player into a free cell leaves a session
    /// a session.
    pub proof fn lemma_with_cell(self, x: int, y: int, what: ObjectType)
        requires
            self.wf(),
            self.is_free(x, y),
            what != ObjectType::Player,
        ensures
            self.with_cell(x, y, what).wf(),
            forall|kind: ObjectType|
                kind != ObjectType::Empty ==> #[trigger] count(
                    self.with_cell(x, y, what).cells,
                    kind,
                ) == count(self.cells, kind) + if kind == what {
                    1nat
                } else {
                    0nat
                },
    {
        lemma_index_inside(x, y, self.width, self.height);
        lemma_index_inside(self.player_x, self.player_y, self.width, self.height);
        let at = cell_index(x, y, self.width);
        lemma_count_update(self.cells, at, what, ObjectType::Player);
        assert forall|kind: ObjectType| kind != ObjectType::Empty implies #[trigger] count(
            self.with_cell(x, y, what).cells,
            kind,
        ) == count(self.cells, kind) + if kind == what {
            1nat
        } else {
            0nat
        } by {
            lemma_count_update(self.cells, at, what, kind);
        }
    }

    /// A teleport that need not be safe can go to every free cell.
    pub proof fn lemma_free_cell_lands(self, x: int, y: int)
        requires
            self.wf(),
            self.is_free(x, y),
        ensures
            self.can_land(x, y, false),
    {
        lemma_index_inside(x, y, self.width, self.height);
    }

    /// An arena in which some cell is free has a cell `(x, y)` that is.
    pub proof fn lemma_free_cell(self) -> (at: (int, int))
        requires
            self.wf(),
            self.has_free(),
        ensures
            self.is_free(at.0, at.1),
    {
        lemma_count_zero(self.cells, ObjectType::Empty);
        let k = choose|k: int| 0 <= k < self.cells.len() && self.cells[k] == ObjectType::Empty;
        lemma_index_join(k, self.width, self.height);
        (k % self.width, k / self.width)
    }

}

/// How many robots of one kind a level starts with: the initial number and
/// the increment for every level before it, but no more than the maximum.
pub open spec fn quota(initial: int, increment: int, maximum: int, level: int) -> int {
    capped(initial + increment * level, maximum)
}

impl GameView {
    /// The session right after it has been created from `options` with an
    /// arena of the given size: level 0, nothing scored, no safe teleport,
    /// and the player alone in the middle of the arena.
    pub open spec fn fresh(options: Options, width: int, height: int) -> GameView {
        GameView {
            safe_moves: options.safe_moves,
            width,
            height,
            cells: empty_cells((width * height) as nat),
            state: GameState::Playing,
            level: 0,
            score: 0,
            safeteleports: 0,
            player_x: 0,
            player_y: 0,
            profile: options.knobs(),
        }.cleared()
    }

    /// The session with the arena cleared: the player stands in the middle
    /// and every other cell is empty.
    pub open spec fn cleared(self) -> GameView {
        GameView {
            cells: empty_cells((self.width * self.height) as nat).update(
                cell_index(self.width / 2, self.height / 2, self.width),
                ObjectType::Player,
            ),
            player_x: self.width / 2,
            player_y: self.height / 2,
            ..self
        }
    }

    /// How many slow robots the level of the session starts with.
    pub open spec fn quota1(self) -> int {
        quota(
            self.profile.initial_type1 as int,
            self.profile.increment_type1 as int,
            self.profile.maximum_type1 as int,
            self.level,
        )
    }

    /// How many fast robots the level of the session starts with.
    pub open spec fn quota2(self) -> int {
        quota(
            self.profile.initial_type2 as int,
            self.profile.increment_type2 as int,
            self.profile.maximum_type2 as int,
            self.level,
        )
    }

    /// Whether the level of the session asks for more robots than half of
    /// the cells of the arena. Such a level is not played: the game is won.
    pub open spec fn overcrowded(self) -> bool {
        self.quota1() + self.quota2() > (self.width * self.height) / 2
    }

    /// The safe teleports of the session after `more` have been granted:
    /// never more than the profile allows.
    pub open spec fn granted(self, more: int) -> int {
        capped(self.safeteleports + more, self.profile.max_safe_teleports as int)
    }

    /// The session as a new level finds it before any robot is put down:
    /// the arena cleared, and the free safe teleports of a level granted.
    pub open spec fn prepared(self) -> GameView {
        GameView {
            safeteleports: self.granted(self.profile.free_safe_teleports as int),
            state: if self.overcrowded() {
                GameState::GameComplete
            } else {
                GameState::Playing
            },
            ..self.cleared()
        }
    }

    /// Whether `self` is what the start of a level can make of the session
    /// `before`. A level that asks for too many robots is not set up: the
    /// game is complete and the arena stays cleared. Otherwise the level is
    /// played, and the only thing left to chance is where the robots stand:
    /// there are as many of each kind as the level asks for, and no heaps.
    pub open spec fn starts_level_of(self, before: GameView) -> bool {
        if before.overcrowded() {
            self == before.prepared()
        } else {
            &&& self == GameView { cells: self.cells, ..before.prepared() }
            &&& self.cells.len() == before.width * before.height
            &&& self.cells[cell_index(self.player_x, self.player_y, self.width)]
                == ObjectType::Player
            &&& count(self.cells, ObjectType::Player) == 1
            &&& count(self.cells, ObjectType::Robot1) == before.quota1()
            &&& count(self.cells, ObjectType::Robot2) == before.quota2()
            &&& count(self.cells, ObjectType::Heap) == 0
        }
    }

    /// The session at the start of a new game: score and level are back at
    /// zero.
    pub open spec fn restarted(self) -> GameView {
        GameView { score: 0, level: 0, ..self }
    }

    /// Whether `self` is what the start of a new game can make of the
    /// session `before`: the first level of a game that has been started
    /// over, with the safe teleports a game starts with in place of those
    /// the level has granted.
    pub open spec fn starts_game_of(self, before: GameView) -> bool {
        &&& self.safeteleports == before.profile.initial_safe_teleports
        &&& (GameView {
            safeteleports: before.restarted().prepared().safeteleports,
            ..self
        }).starts_level_of(before.restarted())
    }

    /// The session with the level counted up, as far as the counter goes.
    pub open spec fn promoted(self) -> GameView {
        GameView { level: capped(self.level + 1, u16::MAX as int), ..self }
    }

    /// A cleared arena holds the player and nothing else.
    pub proof fn lemma_cleared(self)
        requires
            1 <= self.width <= MAX_SIDE,
            1 <= self.height <= MAX_SIDE,
            0 <= self.level <= u16::MAX,
            0 <= self.score <= u64::MAX,
            0 <= self.safeteleports <= u16::MAX,
        ensures
            self.cleared().wf(),
            count(self.cleared().cells, ObjectType::Robot1) == 0,
            count(self.cleared().cells, ObjectType::Robot2) == 0,
            count(self.cleared().cells, ObjectType::Heap) == 0,
    {
        let n = (self.width * self.height) as nat;
        lemma_area_bound(self.width, self.height);
        lemma_index_inside(self.width / 2, self.height / 2, self.width, self.height);
        let at = cell_index(self.width / 2, self.height / 2, self.width);
        lemma_count_empty_cells(n, ObjectType::Player);
        lemma_count_empty_cells(n, ObjectType::Robot1);
        lemma_count_empty_cells(n, ObjectType::Robot2);
        lemma_count_empty_cells(n, ObjectType::Heap);
        lemma_count_update(empty_cells(n), at, ObjectType::Player, ObjectType::Player);
        lemma_count_update(empty_cells(n), at, ObjectType::Player, ObjectType::Robot1);
        lemma_count_update(empty_cells(n), at, ObjectType::Player, ObjectType::Robot2);
        lemma_count_update(empty_cells(n), at, ObjectType::Player, ObjectType::Heap);
    }
}

/// How many safe teleports an amount of kill weight or of score earns at a
/// price per teleport; a price of 0 switches the bonus off.
pub open spec fn earned(amount: int, price: int) -> int {
    if price > 0 {
        amount / price
    } else {
        0
    }
}

/// What is left of an amount after the safe teleports it earns have been
/// paid for.
pub open spec fn left_over(amount: int, price: int) -> int {
    if price > 0 {
        amount % price
    } else {
        amount
    }
}

impl GameView {
    /// The session after `bonus` safe teleports have been earned: they are
    /// added up to the most the profile allows, and nothing happens if none
    /// was earned.
    pub open spec fn rewarded(self, bonus: int) -> GameView {
        if bonus > 0 {
            GameView { safeteleports: self.granted(bonus), ..self }
        } else {
            self
        }
    }

    /// The session after one step of waiting, with `kills` the kill weight
    /// that earlier steps have left over: the player stays where they are,
    /// the robots answer, and the kill weight and the score of the step
    /// earn safe teleports.
    pub open spec fn after_wait(self, kills: int) -> GameView {
        let moved = self.after_move(0, 0, false);
        let by_kills = earned(
            self.kills_after(0, 0, false, kills),
            self.profile.num_robots_per_safe as int,
        );
        let by_score = earned(
            moved.score - self.score,
            self.profile.safe_score_boundary as int,
        );
        moved.rewarded(by_kills + by_score)
    }

    /// The kill weight that one step of waiting leaves over for the next.
    pub open spec fn kills_left(self, kills: int) -> int {
        left_over(
            self.kills_after(0, 0, false, kills),
            self.profile.num_robots_per_safe as int,
        )
    }

    /// The session after the waiting has gone on for `ticks` steps, or
    /// until it was over if that came first. `kills` is the kill weight left
    /// over when it starts.
    pub open spec fn waited(self, kills: int, ticks: nat) -> GameView
        decreases ticks,
    {
        if ticks == 0 || self.state != GameState::Waiting {
            self
        } else {
            self.after_wait(kills).waited(self.kills_left(kills), (ticks - 1) as nat)
        }
    }

    /// The longer side of the arena.
    pub open spec fn longest_side(self) -> int {
        if self.width < self.height {
            self.height
        } else {
            self.width
        }
    }

    /// Whether `self` is what a command of the player can make of the
    /// session `before`.
    ///
    /// Commands count only while the session is `Playing`. A move is carried
    /// out with the safe moves the session was created with. A safe teleport
    /// needs a safe teleport to spend and a cell to go to, and spends one. A
    /// random teleport goes to some free cell. `Wait` starts the waiting.
    /// Where the player lands in a teleport is left to chance.
    pub open spec fn obeys(self, before: GameView, command: PlayerCommand) -> bool {
        if before.state != GameState::Playing {
            self == before
        } else {
            match command {
                PlayerCommand::SafeTeleport => if before.safeteleports > 0 && before.has_landing(
                    true,
                ) {
                    exists|x: int, y: int|
                        #[trigger] before.can_land(x, y, true) && self == before.landed(
                            x,
                            y,
                            true,
                        ).charged(1)
                } else {
                    self == before
                },
                PlayerCommand::RandomTeleport => exists|x: int, y: int|
                    #[trigger] before.is_free(x, y) && self == before.landed(x, y, false),
                PlayerCommand::Wait => self == GameView { state: GameState::Waiting, ..before },
                _ => self == before.after_move(
                    command.direction().0 as int,
                    command.direction().1 as int,
                    before.safe_moves,
                ),
            }
        }
    }

    /// Whether a command of the player is carried out; if it is not, the
    /// session stays as it is.
    pub open spec fn carries_out(self, command: PlayerCommand) -> bool {
        self.state == GameState::Playing && match command {
            PlayerCommand::SafeTeleport => self.safeteleports > 0 && self.has_landing(true),
            PlayerCommand::RandomTeleport => true,
            PlayerCommand::Wait => true,
            _ => self.accepts(
                command.direction().0 as int,
                command.direction().1 as int,
                self.safe_moves,
            ),
        }
    }
}

} // verus!
