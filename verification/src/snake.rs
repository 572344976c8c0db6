//! The rules of a snake game on a square grid.
//!
//! The snake moves one cell per update, grows by one cell for each piece of
//! food and dies when it leaves the grid or runs into itself. Food appears
//! at cells drawn from a small linear congruential generator that the
//! caller owns and hands to every function that needs a random number.

use vstd::arithmetic::div_mod::{lemma_add_mod_noop, lemma_mod_sub_multiples_vanish, lemma_small_mod};
use vstd::prelude::*;
use vstd::set_lib::{lemma_int_range, lemma_len_subset, set_int_range};

verus! {

/// Side of one grid cell in pixels.
pub const GRID_SIZE: u16 = 10;

/// Cells in each row and each column of the grid.
pub const GRID_COUNT: u16 = 24;

/// Side of the screen in pixels.
pub const SCREEN_SIZE: u16 = 240;

/// How many cells are tried for new food. Each try takes two numbers from
/// the generator, which repeats itself after 65536 numbers: a free cell that
/// was not found by then would never be found.
pub const SPAWN_ATTEMPTS: u32 = 32768;

/// Joystick reading at rest.
pub const CENTER: u16 = 3900;

/// How far a reading may be from `CENTER` and still count as at rest.
pub const DEAD_ZONE: u16 = 100;

/// The seed that follows `seed`: `seed * 25173 + 13849` modulo 65536.
pub open spec fn next_seed(seed: u16) -> u16 {
    ((seed * 25173 + 13849) % 65536) as u16
}

/// A linear congruential generator of 16-bit numbers.
#[derive(Clone, Copy, Debug, PartialEq, Eq, Structural)]
pub struct Rng {
    pub seed: u16,
}

impl Rng {
    /// A generator that starts from `seed`.
    pub fn new(seed: u16) -> (rng: Rng)
        ensures
            rng.seed == seed,
    {
        Rng { seed }
    }

    /// The next number, which is also the new seed.
    pub fn random(&mut self) -> (r: u16)
        ensures
            r == next_seed(old(self).seed),
            final(self).seed == r,
    {
        let new_seed = self.seed.wrapping_mul(25173).wrapping_add(13849);
        proof {
            let product = self.seed as int * 25173;
            let low = product % 65536;
            lemma_add_mod_noop(product, 13849, 65536);
            assert(13849int % 65536 == 13849);
            if low + 13849 >= 65536 {
                lemma_mod_sub_multiples_vanish(low + 13849, 65536);
                lemma_small_mod((low + 13849 - 65536) as nat, 65536);
            } else {
                lemma_small_mod((low + 13849) as nat, 65536);
            }
        }
        self.seed = new_seed;
        new_seed
    }
}

/// Starts the generator over from `seed`.
pub fn set_random_seed(rng: &mut Rng, seed: u16)
    ensures
        final(rng).seed == seed,
{
    rng.seed = seed;
}

/// The four ways the snake can move.
#[derive(Clone, Copy, Debug, PartialEq, Eq, Structural)]
pub enum Direction {
    Up,
    Down,
    Left,
    Right,
}

impl Direction {
    /// The direction that points the other way.
    pub open spec fn spec_opposite(&self) -> Direction {
        match *self {
            Direction::Up => Direction::Down,
            Direction::Down => Direction::Up,
            Direction::Left => Direction::Right,
            Direction::Right => Direction::Left,
        }
    }

    #[verifier::when_used_as_spec(spec_opposite)]
    pub fn opposite(&self) -> (d: Direction)
        ensures
            d == self.spec_opposite(),
    {
        match self {
            Direction::Up => Direction::Down,
            Direction::Down => Direction::Up,
            Direction::Left => Direction::Right,
            Direction::Right => Direction::Left,
        }
    }

    /// The direction that a joystick at `(x_value, y_value)` asks for, if
    /// any. A reading within `DEAD_ZONE` of `CENTER` counts as at rest;
    /// below it means left or up, above it right or down. Where both axes
    /// are away from rest, the horizontal one decides.
    pub open spec fn spec_from_joystick(x_value: u16, y_value: u16) -> Option<Direction> {
        if x_value < CENTER - DEAD_ZONE {
            Some(Direction::Left)
        } else if x_value > CENTER + DEAD_ZONE {
            Some(Direction::Right)
        } else if y_value < CENTER - DEAD_ZONE {
            Some(Direction::Up)
        } else if y_value > CENTER + DEAD_ZONE {
            Some(Direction::Down)
        } else {
            None
        }
    }

    #[verifier::when_used_as_spec(spec_from_joystick)]
    pub fn from_joystick(x_value: u16, y_value: u16) -> (d: Option<Direction>)
        ensures
            d == Self::spec_from_joystick(x_value, y_value),
    {
        let x_dir: i8 = if x_value < CENTER - DEAD_ZONE {
            -1
        } else if x_value > CENTER + DEAD_ZONE {
            1
        } else {
            0
        };
        let y_dir: i8 = if y_value < CENTER - DEAD_ZONE {
            -1
        } else if y_value > CENTER + DEAD_ZONE {
            1
        } else {
            0
        };
        if x_dir == -1 {
            Some(Direction::Left)
        } else if x_dir == 1 {
            Some(Direction::Right)
        } else if y_dir == -1 {
            Some(Direction::Up)
        } else if y_dir == 1 {
            Some(Direction::Down)
        } else {
            None
        }
    }
}

/// A cell of the grid: column `x`, row `y`.
#[derive(Clone, Copy, Debug, PartialEq, Eq, Structural)]
pub struct Position {
    pub x: u16,
    pub y: u16,
}

/// Whether `p` is a cell of the grid.
pub open spec fn in_grid(p: Position) -> bool {
    p.x < GRID_COUNT && p.y < GRID_COUNT
}

/// The cell that a head at `head` moves to. Moving up from row 0 or left
/// from column 0 wraps around to 65535, which is outside every grid.
pub open spec fn next_head(head: Position, direction: Direction) -> Position {
    match direction {
        Direction::Up => Position { x: head.x, y: head.y.wrapping_sub(1) },
        Direction::Down => Position { x: head.x, y: head.y.saturating_add(1) },
        Direction::Left => Position { x: head.x.wrapping_sub(1), y: head.y },
        Direction::Right => Position { x: head.x.saturating_add(1), y: head.y },
    }
}

/// The cell that a head at `head` moves to.
fn moved(head: Position, direction: Direction) -> (cell: Position)
    ensures
        cell == next_head(head, direction),
{
    match direction {
        Direction::Up => Position { x: head.x, y: head.y.wrapping_sub(1) },
        Direction::Down => Position { x: head.x, y: head.y.saturating_add(1) },
        Direction::Left => Position { x: head.x.wrapping_sub(1), y: head.y },
        Direction::Right => Position { x: head.x.saturating_add(1), y: head.y },
    }
}

/// The cell that the generator proposes for food when it stands at `seed`:
/// the next number gives the column, the one after it the row.
pub open spec fn candidate(seed: u16) -> Position {
    Position { x: next_seed(seed) % GRID_COUNT, y: next_seed(next_seed(seed)) % GRID_COUNT }
}

/// Where food appears, and the seed afterwards, when up to `attempts` cells
/// are tried from `seed` on: the first proposed cell that is not on the
/// snake, or `None` if all of them are.
pub open spec fn spawn_outcome(snake: Seq<Position>, seed: u16, attempts: nat) -> (
    Option<Position>,
    u16,
)
    decreases attempts,
{
    if attempts == 0 {
        (None, seed)
    } else if snake.contains(candidate(seed)) {
        spawn_outcome(snake, next_seed(next_seed(seed)), (attempts - 1) as nat)
    } else {
        (Some(candidate(seed)), next_seed(next_seed(seed)))
    }
}

/// The snake a new game starts with: three cells in the middle row, the
/// head in the middle of the grid and the body to its left.
pub open spec fn initial_snake() -> Seq<Position> {
    seq![
        Position { x: 12, y: 12 },
        Position { x: 11, y: 12 },
        Position { x: 10, y: 12 },
    ]
}

/// The generator never proposes a cell of the snake that a game starts
/// with: where it proposes row 12, the number before, which gives the
/// column, leaves the remainder 7 when divided by 8, and the columns 10,
/// 11 and 12 do not.
pub proof fn lemma_first_food_is_free(seed: u16)
    ensures
        !initial_snake().contains(candidate(seed)),
        spawn_outcome(initial_snake(), seed, SPAWN_ATTEMPTS as nat) == (
            Some(candidate(seed)),
            next_seed(next_seed(seed)),
        ),
{
    let s = next_seed(seed);
    assert(((s * 25173 + 13849) % 65536) % 24 == 12 ==> s % 24 != 10 && s % 24 != 11 && s % 24
        != 12) by (bit_vector);
    let cell = candidate(seed);
    assert(cell.y == 12 ==> cell.x != 10 && cell.x != 11 && cell.x != 12);
    assert forall|i: int| 0 <= i < initial_snake().len() implies initial_snake()[i] != cell by {}
}

/// Cells of the grid that are all different are at most as many as the
/// grid has cells.
pub proof fn lemma_snake_fits_grid(snake: Seq<Position>)
    requires
        snake.no_duplicates(),
        forall|i: int| 0 <= i < snake.len() ==> in_grid(#[trigger] snake[i]),
    ensures
        snake.len() <= GRID_COUNT * GRID_COUNT,
{
    let codes = Seq::new(snake.len(), |i: int| snake[i].x * GRID_COUNT + snake[i].y);
    assert(codes.no_duplicates()) by {
        assert forall|i: int, j: int|
            0 <= i < codes.len() && 0 <= j < codes.len() && i != j implies codes[i] != codes[j] by {
            assert(in_grid(snake[i]) && in_grid(snake[j]));
            assert(snake[i] != snake[j]);
        }
    }
    codes.unique_seq_to_set();
    lemma_int_range(0, GRID_COUNT * GRID_COUNT);
    assert(codes.to_set().subset_of(set_int_range(0, GRID_COUNT * GRID_COUNT))) by {
        assert forall|c: int| codes.to_set().contains(c) implies set_int_range(
            0,
            GRID_COUNT * GRID_COUNT,
        ).contains(c) by {
            let i = choose|i: int| 0 <= i < codes.len() && codes[i] == c;
            assert(in_grid(snake[i]));
        }
    }
    lemma_len_subset(codes.to_set(), set_int_range(0, GRID_COUNT * GRID_COUNT));
}

/// The state of one game.
pub struct Game {
    /// The cells of the snake, head first.
    pub snake: Vec<Position>,
    /// The way the snake moves at the next update.
    pub direction: Direction,
    /// The direction that was asked for last.
    pub next_direction: Direction,
    /// The cell that holds the food.
    pub food: Position,
    /// Pieces of food eaten so far.
    pub score: u16,
    /// Whether the game has ended.
    pub game_over: bool,
}

impl Game {
    /// The snake has a head, lies inside the grid and never crosses itself,
    /// and it is three cells longer than the score.
    pub open spec fn wf(self) -> bool {
        &&& self.snake@.len() >= 1
        &&& self.snake@.no_duplicates()
        &&& forall|i: int| 0 <= i < self.snake@.len() ==> in_grid(#[trigger] self.snake@[i])
        &&& self.score + 3 == self.snake@.len()
    }

    /// The head of the snake moves onto the food at the next update: the
    /// game is not over, and the cell in front of the head is in the grid,
    /// not on the snake, and holds the food.
    pub open spec fn eats(self) -> bool {
        let head = next_head(self.snake@[0], self.direction);
        &&& !self.game_over
        &&& in_grid(head)
        &&& !self.snake@.contains(head)
        &&& head == self.food
    }

    /// What an update needs: the snake has a head, and the score can still
    /// go up where the snake is about to eat.
    pub open spec fn spec_can_update(&self) -> bool {
        &&& self.snake@.len() >= 1
        &&& self.eats() ==> self.score < u16::MAX
    }

    /// Tests what an update needs, for callers that Verus does not see.
    #[verifier::when_used_as_spec(spec_can_update)]
    pub fn can_update(&self) -> (b: bool)
        ensures
            b == self.spec_can_update(),
    {
        if self.snake.len() == 0 {
            return false;
        }
        if self.game_over {
            return true;
        }
        let new_head = moved(self.snake[0], self.direction);
        if new_head.x >= GRID_COUNT || new_head.y >= GRID_COUNT {
            return true;
        }
        if self.on_snake(new_head) {
            return true;
        }
        !(new_head.x == self.food.x && new_head.y == self.food.y) || self.score < u16::MAX
    }

    /// A well-formed game can be updated: its snake is no longer than the
    /// grid has cells, so its score is far from the end of its range.
    pub proof fn lemma_well_formed_can_update(self)
        requires
            self.wf(),
        ensures
            self.can_update(),
            self.snake@.len() <= GRID_COUNT * GRID_COUNT,
            self.score <= GRID_COUNT * GRID_COUNT - 3,
    {
        lemma_snake_fits_grid(self.snake@);
    }

    /// Whether food, end of game and generator are what trying to place
    /// food from `seed` on leads to: food at the cell that was found and
    /// the game going on, or food where it was (`food`) and the game over.
    pub open spec fn food_spawned(self, food: Position, seed: u16, rng: Rng) -> bool {
        match spawn_outcome(self.snake@, seed, SPAWN_ATTEMPTS as nat) {
            (Some(cell), after) => self.food == cell && !self.game_over && rng.seed == after,
            (None, after) => self.food == food && self.game_over && rng.seed == after,
        }
    }

    /// A new game: the snake of three cells heading right, no score, and
    /// food at the cell that `rng` proposes first, which is never on that
    /// snake. `rng` has given two numbers.
    pub fn new(rng: &mut Rng) -> (game: Box<Self>)
        ensures
            game.wf(),
            game.snake@ == initial_snake(),
            game.direction == Direction::Right,
            game.next_direction == Direction::Right,
            game.score == 0,
            !game.game_over,
            game.food == candidate(old(rng).seed),
            final(rng).seed == next_seed(next_seed(old(rng).seed)),
    {
        proof {
            lemma_first_food_is_free(rng.seed);
        }
        let start_x = GRID_COUNT / 2;
        let start_y = GRID_COUNT / 2;
        let mut snake: Vec<Position> = Vec::new();
        snake.push(Position { x: start_x, y: start_y });
        snake.push(Position { x: start_x - 1, y: start_y });
        snake.push(Position { x: start_x - 2, y: start_y });
        assert(snake@ =~= initial_snake());

        let mut game = Box::new(
            Game {
                snake,
                direction: Direction::Right,
                next_direction: Direction::Right,
                food: Position { x: 0, y: 0 },
                score: 0,
                game_over: false,
            },
        );
        game.spawn_food(rng);
        game
    }

    /// Whether `cell` is one of the snake's cells.
    fn on_snake(&self, cell: Position) -> (found: bool)
        ensures
            found == self.snake@.contains(cell),
    {
        let mut i: usize = 0;
        while i < self.snake.len()
            invariant
                i <= self.snake@.len(),
                forall|j: int| 0 <= j < i ==> self.snake@[j] != cell,
            decreases self.snake@.len() - i,
        {
            let p = self.snake[i];
            if p.x == cell.x && p.y == cell.y {
                return true;
            }
            i += 1;
        }
        false
    }

    /// Puts the food on the first cell proposed by `rng` that is not on the
    /// snake. Gives up after `SPAWN_ATTEMPTS` cells and then leaves the
    /// food where it is.
    fn spawn_food(&mut self, rng: &mut Rng) -> (placed: bool)
        ensures
            final(self).snake == old(self).snake,
            final(self).direction == old(self).direction,
            final(self).next_direction == old(self).next_direction,
            final(self).score == old(self).score,
            final(self).game_over == old(self).game_over,
            match spawn_outcome(old(self).snake@, old(rng).seed, SPAWN_ATTEMPTS as nat) {
                (Some(cell), after) => placed && final(self).food == cell && final(rng).seed
                    == after,
                (None, after) => !placed && final(self).food == old(self).food && final(rng).seed
                    == after,
            },
    {
        let mut attempts: u32 = 0;
        while attempts < SPAWN_ATTEMPTS
            invariant
                attempts <= SPAWN_ATTEMPTS,
                *self == *old(self),
                spawn_outcome(old(self).snake@, old(rng).seed, SPAWN_ATTEMPTS as nat)
                    == spawn_outcome(
                    old(self).snake@,
                    rng.seed,
                    (SPAWN_ATTEMPTS - attempts) as nat,
                ),
            decreases SPAWN_ATTEMPTS - attempts,
        {
            let x = rng.random() % GRID_COUNT;
            let y = rng.random() % GRID_COUNT;
            let new_food = Position { x, y };
            if !self.on_snake(new_food) {
                self.food = new_food;
                return true;
            }
            attempts += 1;
        }
        false
    }

    /// Turns the snake towards `dir`, unless that would turn it right
    /// round.
    pub fn set_direction(&mut self, dir: Direction)
        ensures
            final(self).direction == if dir != old(self).direction.opposite() {
                dir
            } else {
                old(self).direction
            },
            final(self).next_direction == if dir != old(self).direction.opposite() {
                dir
            } else {
                old(self).next_direction
            },
            final(self).snake == old(self).snake,
            final(self).food == old(self).food,
            final(self).score == old(self).score,
            final(self).game_over == old(self).game_over,
    {
        if dir != self.direction.opposite() {
            self.next_direction = dir;
            self.direction = dir;
        }
    }

    /// Moves the snake by one cell.
    ///
    /// A game that is over stays as it is. The game ends, with nothing else
    /// changed, when the head would leave the grid or land on the snake.
    /// Otherwise the head moves on. On food the snake grows by that cell,
    /// the score goes up and new food is placed with `rng`; without food
    /// the last cell of the tail is given up. Should `rng` find no free
    /// cell for the food in `SPAWN_ATTEMPTS` tries, the game ends.
    ///
    /// The snake must have a head, and a score at the end of its range
    /// cannot go up. A well-formed game meets both and stays well formed.
    pub fn update(&mut self, rng: &mut Rng)
        requires
            old(self).can_update(),
        ensures
            final(self).snake@.len() >= 1,
            old(self).wf() ==> final(self).wf(),
            final(self).direction == old(self).direction,
            final(self).next_direction == old(self).next_direction,
            ({
                let head = next_head(old(self).snake@[0], old(self).direction);
                if old(self).game_over {
                    &&& final(self).game_over
                    &&& final(self).snake@ == old(self).snake@
                    &&& final(self).food == old(self).food
                    &&& final(self).score == old(self).score
                    &&& *final(rng) == *old(rng)
                } else if !in_grid(head) || old(self).snake@.contains(head) {
                    &&& final(self).game_over
                    &&& final(self).snake@ == old(self).snake@
                    &&& final(self).food == old(self).food
                    &&& final(self).score == old(self).score
                    &&& *final(rng) == *old(rng)
                } else if head == old(self).food {
                    &&& final(self).snake@ == seq![head] + old(self).snake@
                    &&& final(self).score == old(self).score + 1
                    &&& final(self).food_spawned(old(self).food, old(rng).seed, *final(rng))
                } else {
                    &&& !final(self).game_over
                    &&& final(self).snake@ == (seq![head] + old(self).snake@).drop_last()
                    &&& final(self).food == old(self).food
                    &&& final(self).score == old(self).score
                    &&& *final(rng) == *old(rng)
                }
            }),
    {
        if self.game_over {
            return ;
        }
        let new_head = moved(self.snake[0], self.direction);

        if new_head.x >= GRID_COUNT || new_head.y >= GRID_COUNT {
            self.game_over = true;
            return ;
        }
        if self.on_snake(new_head) {
            self.game_over = true;
            return ;
        }
        self.snake.insert(0, new_head);
        proof {
            assert(self.snake@ =~= seq![new_head] + old(self).snake@);
        }

        if new_head.x == self.food.x && new_head.y == self.food.y {
            self.score += 1;
            let placed = self.spawn_food(rng);
            if !placed {
                self.game_over = true;
            }
        } else {
            self.snake.pop();
        }
    }

    /// Starts the game over, as `new` does.
    pub fn reset(&mut self, rng: &mut Rng)
        ensures
            final(self).wf(),
            final(self).snake@ == initial_snake(),
            final(self).direction == Direction::Right,
            final(self).next_direction == Direction::Right,
            final(self).score == 0,
            !final(self).game_over,
            final(self).food == candidate(old(rng).seed),
            final(rng).seed == next_seed(next_seed(old(rng).seed)),
    {
        let new_game = Self::new(rng);
        *self = *new_game;
    }
}

} // verus!
