use vstd::prelude::*;
use crate::constants::{MILLIS_PER_FRAME, SCREEN_HEIGHT, SCREEN_WIDTH};
use crate::food::Food;
use crate::grid::{Segment, standard_grid};
use crate::snake::{Direction, Snake, grown, opposite};

verus! {

/// Where the game stands. `GameOver` is terminal.
#[derive(Clone, Copy, Debug, PartialEq, Eq, Structural)]
pub enum GameState {
    Playing,
    Paused,
    GameOver,
}

/// A key press as the game sees it; every other key is `Other`.
#[derive(Clone, Copy, Debug, PartialEq, Eq, Structural)]
pub enum Key {
    Up,
    Down,
    Left,
    Right,
    Escape,
    Other,
}

/// What the background music should do after a call to `update`.
#[derive(Clone, Copy, Debug, PartialEq, Eq, Structural)]
pub enum MusicCue {
    /// Make sure the music loop is playing.
    Play,
    /// Make sure it is stopped.
    Stop,
    /// Leave it as it is.
    Unchanged,
}

/// The audio work that one call to `update` asks for.
#[derive(Clone, Copy, Debug, PartialEq, Eq, Structural)]
pub struct Cues {
    pub music: MusicCue,
    /// Play one of the food sounds: the snake has just eaten.
    pub food_sound: bool,
}

/// The whole session: the snake, the food, the time of the last step in
/// milliseconds, and the lifecycle state.
pub struct Game {
    pub snake: Snake,
    pub food: Food,
    pub last_update: u64,
    pub state: GameState,
}

/// The head has run into a segment behind it.
pub open spec fn bites_itself(body: Seq<Segment>) -> bool {
    exists|i: int| 1 <= i < body.len() && #[trigger] body[i] == body[0]
}

/// At least one frame interval has passed since `last`.
pub open spec fn frame_due(now: u64, last: u64) -> bool {
    now >= last && now - last >= MILLIS_PER_FRAME
}

/// The music loop is kept playing while the game is not over, and stopped on
/// the first due frame once it is.
pub open spec fn music_cue(state: GameState, due: bool) -> MusicCue {
    if state != GameState::GameOver {
        MusicCue::Play
    } else if due {
        MusicCue::Stop
    } else {
        MusicCue::Unchanged
    }
}

/// The heading after `key` is pressed: an arrow key turns the snake unless
/// it asks for the exact reverse of the current heading.
pub open spec fn turn(key: Key, current: Direction) -> Direction {
    let wanted = match key {
        Key::Up => Direction::UP,
        Key::Down => Direction::DOWN,
        Key::Left => Direction::LEFT,
        Key::Right => Direction::RIGHT,
        _ => current,
    };
    if wanted != opposite(current) {
        wanted
    } else {
        current
    }
}

/// Escape pauses and resumes; nothing leaves `GameOver`.
pub open spec fn key_state(state: GameState, key: Key) -> GameState {
    if key == Key::Escape {
        match state {
            GameState::Playing => GameState::Paused,
            GameState::Paused => GameState::Playing,
            GameState::GameOver => GameState::GameOver,
        }
    } else {
        state
    }
}

impl Game {
    /// Snake and food on one well-formed grid.
    pub open spec fn wf(&self) -> bool {
        &&& self.snake.wf()
        &&& self.food.wf()
        &&& self.snake.grid == self.food.grid
    }

    /// A step is taken: the game is playing and a frame is due.
    pub open spec fn steps(&self, now: u64) -> bool {
        self.state == GameState::Playing && frame_due(now, self.last_update)
    }

    /// The head lands on the food in the next step.
    pub open spec fn eats(&self) -> bool {
        self.snake.moved()[0] == self.food.rect
    }

    /// The body after the step: moved, and grown if the food was eaten.
    pub open spec fn body_after_step(&self) -> Seq<Segment> {
        if self.eats() {
            grown(self.snake.moved())
        } else {
            self.snake.moved()
        }
    }

    /// What `update` at time `now` makes of `self`. Where the food was eaten
    /// it moves to a cell of its grid drawn at random, which this relation
    /// leaves open.
    pub open spec fn update_step(&self, next: &Game, now: u64) -> bool {
        &&& next.snake.direction == self.snake.direction
        &&& next.snake.speed == self.snake.speed
        &&& next.snake.grid == self.snake.grid
        &&& next.food.grid == self.food.grid
        &&& if self.steps(now) {
            &&& next.snake.body@ == self.body_after_step()
            &&& (!self.eats() ==> next.food == self.food)
            &&& next.last_update == now
            &&& next.state == if bites_itself(self.body_after_step()) {
                GameState::GameOver
            } else {
                GameState::Playing
            }
        } else {
            &&& next.snake.body@ == self.snake.body@
            &&& next.food == self.food
            &&& next.last_update == self.last_update
            &&& next.state == self.state
        }
    }

    /// What `key_down_event` with `key` makes of `self`: a turn only while
    /// playing, a pause toggle, nothing else.
    pub open spec fn key_step(&self, next: &Game, key: Key) -> bool {
        &&& next.snake.body@ == self.snake.body@
        &&& next.snake.speed == self.snake.speed
        &&& next.snake.grid == self.snake.grid
        &&& next.food == self.food
        &&& next.last_update == self.last_update
        &&& next.snake.direction == if self.state == GameState::Playing {
            turn(key, self.snake.direction)
        } else {
            self.snake.direction
        }
        &&& next.state == key_state(self.state, key)
    }

    /// `next` is what one call of `update` or of `key_down_event` can make
    /// of `self`.
    pub open spec fn follows(&self, next: &Game) -> bool {
        ||| exists|now: u64| #[trigger] self.update_step(next, now)
        ||| exists|key: Key| #[trigger] self.key_step(next, key)
    }

    /// A game on the standard grid: the snake at the centre of the screen, not
    /// moving yet, the food on a random cell, playing from time `now`.
    pub fn new(now: u64) -> (r: Game)
        ensures
            r.wf(),
            r.snake.grid == standard_grid(),
            r.snake.body@ == seq![Segment { x: (SCREEN_WIDTH / 2) as i32, y: (SCREEN_HEIGHT / 2) as i32 }],
            r.snake.direction == Direction::NONE,
            r.snake.speed == 1,
            r.last_update == now,
            r.state == GameState::Playing,
    {
        Game {
            snake: Snake::new(SCREEN_WIDTH / 2, SCREEN_HEIGHT / 2),
            food: Food::new(),
            last_update: now,
            state: GameState::Playing,
        }
    }

    /// Resolves the snake against the food and itself, after a step. If the
    /// head covers the food, the food moves to a random cell and the snake
    /// grows. Returns whether the snake is still alive (no segment behind the
    /// head shares its cell, the freshly grown one included) and whether it ate.
    pub fn handle_collision(snake: &mut Snake, food: &mut Food) -> (r: (bool, bool))
        requires
            old(snake).wf(),
            old(food).wf(),
        ensures
            r.1 == (old(snake).body@[0] == old(food).rect),
            final(snake).body@ == if r.1 {
                grown(old(snake).body@)
            } else {
                old(snake).body@
            },
            !r.1 ==> *final(food) == *old(food),
            r.0 == !bites_itself(final(snake).body@),
            final(snake).wf(),
            final(food).wf(),
            final(snake).direction == old(snake).direction,
            final(snake).speed == old(snake).speed,
            final(snake).grid == old(snake).grid,
            final(food).grid == old(food).grid,
    {
        let snake_head = snake.body[0];
        let ate = snake_head == food.rect;
        if ate {
            food.move_food();
            snake.grow();
        }
        let len = snake.body.len();
        let mut i: usize = 1;
        while i < len
            invariant
                len == snake.body@.len(),
                snake_head == snake.body@[0],
                1 <= i <= len,
                forall|j: int| 1 <= j < i ==> snake.body@[j] != snake_head,
                ate == (old(snake).body@[0] == old(food).rect),
                snake.body@ == if ate {
                    grown(old(snake).body@)
                } else {
                    old(snake).body@
                },
                !ate ==> *food == *old(food),
                snake.wf(),
                food.wf(),
                snake.direction == old(snake).direction,
                snake.speed == old(snake).speed,
                snake.grid == old(snake).grid,
                food.grid == old(food).grid,
            decreases len - i,
        {
            if snake.body[i] == snake_head {
                return (false, ate);
            }
            i = i + 1;
        }
        (true, ate)
    }

    /// One call from the host loop at time `now` (milliseconds). While playing
    /// and once a frame interval has passed, the snake takes a step, then the
    /// collisions are resolved and a fatal one ends the game. Returns the audio
    /// cues for this call.
    pub fn update(&mut self, now: u64) -> (cues: Cues)
        requires
            old(self).wf(),
        ensures
            final(self).wf(),
            old(self).update_step(final(self), now),
            cues.music == music_cue(old(self).state, frame_due(now, old(self).last_update)),
            cues.food_sound == (old(self).steps(now) && old(self).eats()),
    {
        let due = now >= self.last_update && now - self.last_update >= MILLIS_PER_FRAME;
        let music = if self.state != GameState::GameOver {
            MusicCue::Play
        } else if due {
            MusicCue::Stop
        } else {
            MusicCue::Unchanged
        };
        let mut food_sound = false;
        if due && self.state == GameState::Playing {
            self.snake.move_segments();
            self.last_update = now;
            let (alive, ate) = Game::handle_collision(&mut self.snake, &mut self.food);
            food_sound = ate;
            if !alive {
                self.state = GameState::GameOver;
            }
        }
        Cues { music, food_sound }
    }

    /// A key press. Arrow keys turn the snake while playing, but never into
    /// the exact reverse of its heading; Escape pauses and resumes while the
    /// game is not over; every other key is ignored.
    pub fn key_down_event(&mut self, key: Key)
        requires
            old(self).wf(),
        ensures
            final(self).wf(),
            old(self).key_step(final(self), key),
    {
        let register_actions = self.state == GameState::Playing;
        let dir = self.snake.direction;
        if key == Key::Up && dir != Direction::DOWN && register_actions {
            self.snake.direction = Direction::UP;
        } else if key == Key::Down && dir != Direction::UP && register_actions {
            self.snake.direction = Direction::DOWN;
        } else if key == Key::Left && dir != Direction::RIGHT && register_actions {
            self.snake.direction = Direction::LEFT;
        } else if key == Key::Right && dir != Direction::LEFT && register_actions {
            self.snake.direction = Direction::RIGHT;
        } else if self.state != GameState::GameOver && key == Key::Escape {
            self.state = if self.state == GameState::Paused {
                GameState::Playing
            } else {
                GameState::Paused
            };
        }
    }
}

/// No reverse: a key press never turns the snake to the exact reverse of
/// its heading, and a step never turns it at all.
pub proof fn lemma_no_reverse(g: Game, next: Game)
    requires
        g.follows(&next),
    ensures
        next.snake.direction == g.snake.direction || next.snake.direction != opposite(
            g.snake.direction,
        ),
{
}

/// Game over is terminal: along any run of updates and key presses that
/// starts in `GameOver`, the state stays `GameOver`, the snake never moves
/// again and the food stays where it is.
pub proof fn lemma_game_over_is_final(games: Seq<Game>)
    requires
        games.len() >= 1,
        games[0].state == GameState::GameOver,
        forall|i: int| 0 <= i < games.len() - 1 ==> #[trigger] games[i].follows(&games[i + 1]),
    ensures
        forall|i: int|
            0 <= i < games.len() ==> {
                &&& #[trigger] games[i].state == GameState::GameOver
                &&& games[i].snake.body@ == games[0].snake.body@
                &&& games[i].food == games[0].food
            },
    decreases games.len(),
{
    if games.len() > 1 {
        let prefix = games.drop_last();
        assert forall|i: int| 0 <= i < prefix.len() - 1 implies #[trigger] prefix[i].follows(
            &prefix[i + 1],
        ) by {
            assert(games[i].follows(&games[i + 1]));
        }
        lemma_game_over_is_final(prefix);
        let k = games.len() - 2;
        assert(prefix[k] == games[k]);
        assert(games[k].follows(&games[k + 1]));
        assert forall|i: int| 0 <= i < games.len() implies {
            &&& #[trigger] games[i].state == GameState::GameOver
            &&& games[i].snake.body@ == games[0].snake.body@
            &&& games[i].food == games[0].food
        } by {
            if i < games.len() - 1 {
                assert(prefix[i] == games[i]);
            }
        }
    }
}

} // verus!
