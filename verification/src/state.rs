//! The game as a state machine: one call per frame.

use vstd::prelude::*;
use vstd::string::StringExecFns;
use crate::config::{
    DIST_BETWEEN, FRAME_DURATION, GAP_ROW_END, GAP_ROW_MIN, PLAYER_SCREEN_X, SCREEN_HEIGHT,
    SCREEN_WIDTH, START_ROW,
};
use crate::draw::{views, Color, DrawCommand, DrawCommandView};
use crate::obstacle::{lemma_fresh_is_wf, Obstacle, ObstacleView};
use crate::player::{Player, PlayerView};
use crate::text::{score_line, score_text};

verus! {

/// Which screen the game is on.
#[derive(Clone, Copy, Debug, PartialEq, Eq, Structural)]
pub enum GameMode {
    Menu,
    Playing,
    End,
}

/// The keys the game tells apart.
#[derive(Clone, Copy, Debug, PartialEq, Eq, Structural)]
pub enum Key {
    /// Starts a game, from the menu or after a crash.
    P,
    /// Leaves the game, from the menu or after a crash.
    Q,
    /// Flaps, while playing.
    Space,
    /// Any other key.
    Other,
}

/// What the host reports for one frame.
#[derive(Clone, Copy, Debug)]
pub struct FrameInput {
    /// The key that is down in this frame, if any.
    pub key: Option<Key>,
    /// Microseconds since the frame before.
    pub elapsed: u32,
}

/// What the game answers for one frame.
#[derive(Debug, PartialEq, Eq)]
pub struct Frame {
    /// What to draw, in this order.
    pub commands: Vec<DrawCommand>,
    /// Whether the player asked to leave.
    pub quit: bool,
}

/// The whole game.
#[derive(Debug, PartialEq, Eq)]
pub struct State {
    pub player: Player,
    /// Microseconds gone by since the last physics step.
    pub frame_time: u64,
    pub mode: GameMode,
    /// The obstacles ahead of the player or just behind it, nearest first.
    pub obstacles: Vec<Obstacle>,
    pub score: i32,
}

/// The game over the mathematical integers.
pub struct StateView {
    pub player: PlayerView,
    pub frame_time: int,
    pub mode: GameMode,
    pub obstacles: Seq<ObstacleView>,
    pub score: int,
}

impl View for State {
    type V = StateView;

    open spec fn view(&self) -> StateView {
        StateView {
            player: self.player@,
            frame_time: self.frame_time as int,
            mode: self.mode,
            obstacles: obstacle_views(self.obstacles@),
            score: self.score as int,
        }
    }
}

/// The contents of a list of obstacles, obstacle by obstacle.
pub open spec fn obstacle_views(obstacles: Seq<Obstacle>) -> Seq<ObstacleView> {
    obstacles.map_values(|o: Obstacle| o@)
}

/// How many of the obstacles the player has flown beyond without that having
/// been counted.
pub open spec fn passes(obstacles: Seq<ObstacleView>, player_x: int) -> int
    decreases obstacles.len(),
{
    if obstacles.len() == 0 {
        0
    } else {
        passes(obstacles.drop_last(), player_x) + if obstacles.last().newly_passed(player_x) {
            1int
        } else {
            0int
        }
    }
}

/// Whether the player has flown into one of the obstacles.
pub open spec fn collides(obstacles: Seq<ObstacleView>, player: PlayerView) -> bool {
    exists|i: int| 0 <= i < obstacles.len() && (#[trigger] obstacles[i]).hits(player)
}

/// The drawing commands for a list of obstacles, one obstacle after the
/// other.
pub open spec fn walls(obstacles: Seq<ObstacleView>, player_x: int) -> Seq<DrawCommandView>
    decreases obstacles.len(),
{
    if obstacles.len() == 0 {
        Seq::empty()
    } else {
        walls(obstacles.drop_last(), player_x) + obstacles.last().wall(player_x)
    }
}

/// The screen that greets the player.
pub open spec fn title_screen() -> Seq<DrawCommandView> {
    seq![
        DrawCommandView::Clear,
        DrawCommandView::Centered { y: 5, text: "Welcome to Flippy Bird"@ },
        DrawCommandView::Centered { y: 8, text: "(P) play"@ },
        DrawCommandView::Centered { y: 9, text: "(Q) quit"@ },
    ]
}

/// The screen that follows a crash.
pub open spec fn death_screen() -> Seq<DrawCommandView> {
    seq![
        DrawCommandView::Clear,
        DrawCommandView::Centered { y: 5, text: "You are dead"@ },
        DrawCommandView::Centered { y: 8, text: "(P) play again"@ },
        DrawCommandView::Centered { y: 9, text: "(Q) quit"@ },
    ]
}

impl StateView {
    /// A game at its very start, in the given mode: the player at rest in
    /// column 0 on the starting row, no time gone by, no points, and one
    /// obstacle at the right edge of the screen with its gap centred on
    /// `gap_y`.
    pub open spec fn initial(mode: GameMode, gap_y: int) -> StateView {
        StateView {
            player: PlayerView::at(0, START_ROW as int),
            frame_time: 0,
            mode,
            obstacles: seq![ObstacleView::fresh(SCREEN_WIDTH as int, 0, gap_y)],
            score: 0,
        }
    }

    /// What holds of every game: the player is on the grid side of the
    /// origin with a velocity within bounds, the clock has not run past one
    /// physics step, the score is not negative, and there are one or two
    /// well-formed obstacles, in ascending order of their columns.
    pub open spec fn wf(self) -> bool {
        &&& self.player.wf()
        &&& self.player.x >= 0
        &&& self.player.y >= 0
        &&& 0 <= self.frame_time <= FRAME_DURATION
        &&& self.score >= 0
        &&& 1 <= self.obstacles.len() <= 2
        &&& forall|i: int|
            0 <= i < self.obstacles.len() ==> (#[trigger] self.obstacles[i]).wf()
                && self.obstacles[i].x >= 0
        &&& forall|i: int, j: int|
            0 <= i < j < self.obstacles.len() ==> (#[trigger] self.obstacles[i]).x < (
            #[trigger] self.obstacles[j]).x
    }

    /// One more frame of play stays within the machine's integers: there is
    /// room for the player to advance and fall, for the score to count two
    /// obstacles, and for another obstacle behind each one.
    pub open spec fn fits(self) -> bool {
        &&& self.player.x < i32::MAX
        &&& self.player.y <= i32::MAX - 2
        &&& self.score <= i32::MAX - 2
        &&& forall|i: int|
            0 <= i < self.obstacles.len() ==> (#[trigger] self.obstacles[i]).x <= i32::MAX
                - DIST_BETWEEN
    }

    /// Whether the time that has gone by calls for a physics step.
    pub open spec fn step_due(self, elapsed: int) -> bool {
        self.frame_time + elapsed > FRAME_DURATION
    }

    /// The clock: time adds up, and once more than `FRAME_DURATION` has gone
    /// by the clock starts again and the player takes one physics step.
    pub open spec fn timed(self, elapsed: int) -> StateView {
        if self.step_due(elapsed) {
            StateView { frame_time: 0, player: self.player.step(), ..self }
        } else {
            StateView { frame_time: self.frame_time + elapsed, ..self }
        }
    }

    /// The controls: the space bar flaps, in every frame in which it is down.
    pub open spec fn steered(self, key: Option<Key>) -> StateView {
        if key == Some(Key::Space) {
            StateView { player: self.player.flap(), ..self }
        } else {
            self
        }
    }

    /// The obstacles are looked at, each in turn: one that the player has
    /// flown beyond is marked and counted, once, and one that the player has
    /// flown into ends the game.
    pub open spec fn scored(self) -> StateView {
        StateView {
            obstacles: self.obstacles.map_values(|o: ObstacleView| o.observed(self.player.x)),
            score: self.score + passes(self.obstacles, self.player.x),
            mode: if collides(self.obstacles, self.player) {
                GameMode::End
            } else {
                self.mode
            },
            ..self
        }
    }

    /// A new obstacle is due when the last one is less than `DIST_BETWEEN`
    /// ahead of the player and it is the only one.
    pub open spec fn spawn_due(self) -> bool {
        &&& self.obstacles.len() > 0
        &&& self.obstacles.last().x - self.player.x < DIST_BETWEEN
        &&& self.obstacles.len() < 2
    }

    /// The new obstacle stands `DIST_BETWEEN` behind the last one and has the
    /// gap that the score of this moment gives.
    pub open spec fn spawned(self, gap_y: int) -> StateView {
        if self.spawn_due() {
            StateView {
                obstacles: self.obstacles.push(
                    ObstacleView::fresh(self.obstacles.last().x + DIST_BETWEEN, self.score, gap_y),
                ),
                ..self
            }
        } else {
            self
        }
    }

    /// The first obstacle leaves when it is off the left edge of the screen.
    pub open spec fn retire_due(self) -> bool {
        &&& self.obstacles.len() > 0
        &&& self.obstacles[0].screen_x(self.player.x) < 0
    }

    /// The obstacles once the first one has left, where it is due to.
    pub open spec fn retired(self) -> StateView {
        if self.retire_due() {
            StateView { obstacles: self.obstacles.drop_first(), ..self }
        } else {
            self
        }
    }

    /// A player that has fallen below the screen ends the game.
    pub open spec fn grounded(self) -> StateView {
        if self.player.y > SCREEN_HEIGHT {
            StateView { mode: GameMode::End, ..self }
        } else {
            self
        }
    }

    /// One frame of play, with `gap_y` as the row of the gap of an obstacle
    /// that this frame may add.
    pub open spec fn play(self, input: FrameInput, gap_y: int) -> StateView {
        self.timed(input.elapsed as int).steered(input.key).scored().spawned(gap_y).retired()
            .grounded()
    }

    /// What one frame of play draws: the background, the player where clock
    /// and controls have put it, the two lines of the display with the score
    /// as it was before this frame counted, and the obstacles as they were
    /// before this frame added or removed one.
    pub open spec fn play_screen(self, input: FrameInput) -> Seq<DrawCommandView> {
        let moved = self.timed(input.elapsed as int).steered(input.key);
        seq![
            DrawCommandView::Fill { background: Color::Navy },
            moved.player.sprite(),
            DrawCommandView::Text { x: 0, y: 0, text: "Press space to flap"@ },
            DrawCommandView::Text { x: 0, y: 1, text: score_line(moved.score) },
        ] + walls(moved.obstacles, moved.player.x)
    }

    /// One frame on the menu or after a crash: `P` starts a new game, every
    /// other key leaves the game as it is.
    pub open spec fn menu(self, key: Option<Key>, gap_y: int) -> StateView {
        if key == Some(Key::P) {
            StateView::initial(GameMode::Playing, gap_y)
        } else {
            self
        }
    }

    /// One frame, whatever the mode.
    pub open spec fn tick(self, input: FrameInput, gap_y: int) -> StateView {
        match self.mode {
            GameMode::Menu => self.menu(input.key, gap_y),
            GameMode::End => self.menu(input.key, gap_y),
            GameMode::Playing => self.play(input, gap_y),
        }
    }

    /// What one frame draws, whatever the mode.
    pub open spec fn screen(self, input: FrameInput) -> Seq<DrawCommandView> {
        match self.mode {
            GameMode::Menu => title_screen(),
            GameMode::End => death_screen(),
            GameMode::Playing => self.play_screen(input),
        }
    }

    /// Whether the frame asks to leave: `Q`, on the menu or after a crash.
    pub open spec fn quits(self, input: FrameInput) -> bool {
        !(self.mode is Playing) && input.key == Some(Key::Q)
    }
}

/// A frame of play leaves a well-formed game well formed: there are still one
/// or two obstacles, in ascending order, the player is not above the top row
/// and the score has not gone down.
pub proof fn lemma_play_keeps_wf(state: StateView, input: FrameInput, gap_y: int)
    requires
        state.wf(),
        GAP_ROW_MIN <= gap_y < GAP_ROW_END,
    ensures
        state.play(input, gap_y).wf(),
        state.play(input, gap_y).score >= state.score,
        state.play(input, gap_y).player.x >= state.player.x,
{
    let moved = state.timed(input.elapsed as int).steered(input.key);
    let counted = moved.scored();
    lemma_passes_bounds(moved.obstacles, moved.player.x);
    assert(counted.wf());
    let grown = counted.spawned(gap_y);
    if counted.spawn_due() {
        lemma_fresh_is_wf(counted.obstacles.last().x + DIST_BETWEEN, counted.score, gap_y);
    }
    assert(grown.wf());
    let kept = grown.retired();
    assert(kept.wf());
}

/// A frame leaves a well-formed game well formed, whatever the mode.
pub proof fn lemma_tick_keeps_wf(state: StateView, input: FrameInput, gap_y: int)
    requires
        state.wf(),
        GAP_ROW_MIN <= gap_y < GAP_ROW_END,
    ensures
        state.tick(input, gap_y).wf(),
{
    lemma_play_keeps_wf(state, input, gap_y);
    lemma_initial_is_wf(GameMode::Playing, gap_y);
}

/// How the mode changes.  The menu and the death screen lead to play on `P`
/// and nowhere else; play leads to the death screen when the player, moved
/// by clock and controls, has flown into an obstacle or fallen below the
/// screen, and nowhere else.
pub proof fn lemma_mode_changes(state: StateView, input: FrameInput, gap_y: int)
    ensures
        !(state.mode is Playing) ==> state.tick(input, gap_y).mode == if input.key == Some(
            Key::P,
        ) {
            GameMode::Playing
        } else {
            state.mode
        },
        state.mode is Playing ==> state.tick(input, gap_y).mode == if collides(
            state.obstacles,
            state.timed(input.elapsed as int).steered(input.key).player,
        ) || state.timed(input.elapsed as int).steered(input.key).player.y > SCREEN_HEIGHT {
            GameMode::End
        } else {
            GameMode::Playing
        },
{
}

/// No obstacle is counted twice, and none is taken back: the number of new
/// passes lies between zero and the number of obstacles.
pub proof fn lemma_passes_bounds(obstacles: Seq<ObstacleView>, player_x: int)
    ensures
        0 <= passes(obstacles, player_x) <= obstacles.len(),
    decreases obstacles.len(),
{
    if obstacles.len() > 0 {
        lemma_passes_bounds(obstacles.drop_last(), player_x);
    }
}

/// Once the obstacles have been looked at, none of them is a new pass: an
/// obstacle scores once.
pub proof fn lemma_pass_counts_once(state: StateView)
    ensures
        passes(state.scored().obstacles, state.player.x) == 0,
{
    lemma_observed_has_no_pass(state.obstacles, state.player.x);
}

proof fn lemma_observed_has_no_pass(obstacles: Seq<ObstacleView>, player_x: int)
    ensures
        passes(obstacles.map_values(|o: ObstacleView| o.observed(player_x)), player_x) == 0,
    decreases obstacles.len(),
{
    let seen = obstacles.map_values(|o: ObstacleView| o.observed(player_x));
    if obstacles.len() > 0 {
        lemma_observed_has_no_pass(obstacles.drop_last(), player_x);
        assert(seen.drop_last() =~= obstacles.drop_last().map_values(
            |o: ObstacleView| o.observed(player_x),
        ));
    }
}

/// A new game, or a game started again, is the game at its very start: no
/// points, the player at rest in column 0 on the starting row, and exactly one
/// obstacle, at the right edge of the screen.
pub proof fn lemma_initial_is_wf(mode: GameMode, gap_y: int)
    requires
        GAP_ROW_MIN <= gap_y < GAP_ROW_END,
    ensures
        StateView::initial(mode, gap_y).wf(),
        StateView::initial(mode, gap_y).score == 0,
        StateView::initial(mode, gap_y).player == PlayerView::at(0, START_ROW as int),
        StateView::initial(mode, gap_y).obstacles.len() == 1,
        StateView::initial(mode, gap_y).obstacles[0].x == SCREEN_WIDTH,
{
    lemma_fresh_is_wf(SCREEN_WIDTH as int, 0, gap_y);
}

impl State {
    /// A new game on the menu, with the gap of its first obstacle drawn at
    /// random.
    pub fn new() -> (state: State)
        ensures
            state@ == StateView::initial(GameMode::Menu, state@.obstacles[0].gap_y),
            GAP_ROW_MIN <= state@.obstacles[0].gap_y < GAP_ROW_END,
            state@.wf(),
    {
        let first = Obstacle::new(SCREEN_WIDTH, 0);
        let state = State::opening(GameMode::Menu, first);
        proof {
            lemma_initial_is_wf(GameMode::Menu, first.gap_y as int);
        }
        state
    }

    /// A new game on the menu, with the gap of its first obstacle centred on
    /// `gap_y`.
    pub fn with_gap(gap_y: i32) -> (state: State)
        ensures
            state@ == StateView::initial(GameMode::Menu, gap_y as int),
            GAP_ROW_MIN <= gap_y < GAP_ROW_END ==> state@.wf(),
    {
        let first = Obstacle::with_gap(SCREEN_WIDTH, 0, gap_y);
        let state = State::opening(GameMode::Menu, first);
        proof {
            if GAP_ROW_MIN <= gap_y < GAP_ROW_END {
                lemma_initial_is_wf(GameMode::Menu, gap_y as int);
            }
        }
        state
    }

    fn opening(mode: GameMode, first: Obstacle) -> (state: State)
        requires
            first@ == ObstacleView::fresh(SCREEN_WIDTH as int, 0, first.gap_y as int),
        ensures
            state@ == StateView::initial(mode, first.gap_y as int),
    {
        let mut obstacles: Vec<Obstacle> = Vec::new();
        obstacles.push(first);
        let state = State {
            player: Player::new(0, START_ROW),
            frame_time: 0,
            mode,
            obstacles,
            score: 0,
        };
        assert(state@.obstacles =~= seq![first@]);
        state
    }

    /// Starts the game again, with the gap of the first obstacle drawn at
    /// random: whatever the game was, it is the game at its very start
    /// afterwards, and playing.
    pub fn restart(&mut self)
        ensures
            final(self)@ == StateView::initial(
                GameMode::Playing,
                final(self)@.obstacles[0].gap_y,
            ),
            GAP_ROW_MIN <= final(self)@.obstacles[0].gap_y < GAP_ROW_END,
            final(self)@.wf(),
    {
        let first = Obstacle::new(SCREEN_WIDTH, 0);
        *self = State::opening(GameMode::Playing, first);
        proof {
            lemma_initial_is_wf(GameMode::Playing, first.gap_y as int);
        }
    }

    /// Starts the game again, with the gap of the first obstacle centred on
    /// `gap_y`.
    pub fn restart_with(&mut self, gap_y: i32)
        ensures
            final(self)@ == StateView::initial(GameMode::Playing, gap_y as int),
            GAP_ROW_MIN <= gap_y < GAP_ROW_END ==> final(self)@.wf(),
    {
        let first = Obstacle::with_gap(SCREEN_WIDTH, 0, gap_y);
        *self = State::opening(GameMode::Playing, first);
        proof {
            if GAP_ROW_MIN <= gap_y < GAP_ROW_END {
                lemma_initial_is_wf(GameMode::Playing, gap_y as int);
            }
        }
    }

    /// Whether the game is well formed.
    pub fn is_wf(&self) -> (ok: bool)
        ensures
            ok == self@.wf(),
    {
        let n = self.obstacles.len();
        if !self.player.is_wf() || self.player.x < 0 || self.player.y < 0 || self.frame_time
            > FRAME_DURATION || self.score < 0 || n < 1 || n > 2 {
            return false;
        }
        let mut i: usize = 0;
        while i < n
            invariant
                i <= n,
                n == self.obstacles@.len(),
                1 <= n <= 2,
                forall|j: int|
                    0 <= j < i ==> (#[trigger] self@.obstacles[j]).wf() && self@.obstacles[j].x
                        >= 0,
                forall|j: int, k: int|
                    0 <= j < k < i ==> (#[trigger] self@.obstacles[j]).x < (
                    #[trigger] self@.obstacles[k]).x,
            decreases n - i,
        {
            let obstacle = self.obstacles[i];
            assert(obstacle@ == self@.obstacles[i as int]);
            if !obstacle.is_wf() || obstacle.x < 0 {
                return false;
            }
            if i > 0 {
                let before = self.obstacles[i - 1];
                assert(before@ == self@.obstacles[i - 1]);
                if before.x >= obstacle.x {
                    return false;
                }
            }
            i += 1;
        }
        true
    }

    /// Whether `tick` may be called: the game is well formed and, while
    /// playing, one more frame stays within the machine's integers.
    pub fn can_tick(&self) -> (yes: bool)
        ensures
            yes == (self@.wf() && (self.mode is Playing ==> self@.fits())),
    {
        if !self.is_wf() {
            return false;
        }
        match self.mode {
            GameMode::Playing => self.can_play(),
            _ => true,
        }
    }

    /// Whether one more frame of play stays within the machine's integers.
    pub fn can_play(&self) -> (yes: bool)
        ensures
            yes == self@.fits(),
    {
        let n = self.obstacles.len();
        if self.player.x == i32::MAX || self.player.y > i32::MAX - 2 || self.score > i32::MAX - 2 {
            return false;
        }
        let mut i: usize = 0;
        while i < n
            invariant
                i <= n,
                n == self.obstacles@.len(),
                forall|j: int|
                    0 <= j < i ==> (#[trigger] self@.obstacles[j]).x <= i32::MAX - DIST_BETWEEN,
            decreases n - i,
        {
            if self.obstacles[i].x > i32::MAX - DIST_BETWEEN {
                assert(self@.obstacles[i as int].x > i32::MAX - DIST_BETWEEN);
                return false;
            }
            i += 1;
        }
        true
    }

    /// One frame, with the gap of an obstacle that the frame may make drawn
    /// at random.
    pub fn tick(&mut self, input: FrameInput) -> (frame: Frame)
        requires
            old(self)@.wf(),
            old(self).mode is Playing ==> old(self)@.fits(),
        ensures
            exists|gap_y: int|
                GAP_ROW_MIN <= gap_y < GAP_ROW_END && final(self)@ == #[trigger] old(self)@.tick(
                    input,
                    gap_y,
                ),
            views(frame.commands@) == old(self)@.screen(input),
            frame.quit == old(self)@.quits(input),
            final(self)@.wf(),
    {
        let gap_y = Obstacle::random_gap();
        let frame = self.tick_with(input, gap_y);
        assert(self@ == old(self)@.tick(input, gap_y as int));
        frame
    }

    /// One frame: the handler of the current mode runs.  `gap_y` is the row
    /// on which the gap of a new obstacle is centred, should the frame make
    /// one.
    pub fn tick_with(&mut self, input: FrameInput, gap_y: i32) -> (frame: Frame)
        requires
            old(self)@.wf(),
            old(self).mode is Playing ==> old(self)@.fits(),
            GAP_ROW_MIN <= gap_y < GAP_ROW_END,
        ensures
            final(self)@ == old(self)@.tick(input, gap_y as int),
            views(frame.commands@) == old(self)@.screen(input),
            frame.quit == old(self)@.quits(input),
            final(self)@.wf(),
    {
        match self.mode {
            GameMode::Menu => self.main_menu(input, gap_y),
            GameMode::End => self.dead(input, gap_y),
            GameMode::Playing => self.play(input, gap_y),
        }
    }

    /// One frame on the menu: the title screen is drawn; `P` starts a game,
    /// `Q` asks to leave.
    pub fn main_menu(&mut self, input: FrameInput, gap_y: i32) -> (frame: Frame)
        requires
            old(self)@.wf(),
            GAP_ROW_MIN <= gap_y < GAP_ROW_END,
        ensures
            final(self)@ == old(self)@.menu(input.key, gap_y as int),
            views(frame.commands@) == title_screen(),
            frame.quit == (input.key == Some(Key::Q)),
            final(self)@.wf(),
    {
        let mut commands: Vec<DrawCommand> = Vec::new();
        commands.push(DrawCommand::Clear);
        commands.push(
            DrawCommand::Centered { y: 5, text: String::from_str("Welcome to Flippy Bird") },
        );
        commands.push(DrawCommand::Centered { y: 8, text: String::from_str("(P) play") });
        commands.push(DrawCommand::Centered { y: 9, text: String::from_str("(Q) quit") });
        assert(views(commands@) =~= title_screen());
        let quit = self.menu_key(input.key, gap_y);
        Frame { commands, quit }
    }

    /// One frame after a crash: the death screen is drawn; `P` starts a new
    /// game, `Q` asks to leave.
    pub fn dead(&mut self, input: FrameInput, gap_y: i32) -> (frame: Frame)
        requires
            old(self)@.wf(),
            GAP_ROW_MIN <= gap_y < GAP_ROW_END,
        ensures
            final(self)@ == old(self)@.menu(input.key, gap_y as int),
            views(frame.commands@) == death_screen(),
            frame.quit == (input.key == Some(Key::Q)),
            final(self)@.wf(),
    {
        let mut commands: Vec<DrawCommand> = Vec::new();
        commands.push(DrawCommand::Clear);
        commands.push(DrawCommand::Centered { y: 5, text: String::from_str("You are dead") });
        commands.push(DrawCommand::Centered { y: 8, text: String::from_str("(P) play again") });
        commands.push(DrawCommand::Centered { y: 9, text: String::from_str("(Q) quit") });
        assert(views(commands@) =~= death_screen());
        let quit = self.menu_key(input.key, gap_y);
        Frame { commands, quit }
    }

    /// What a key does on the menu and after a crash.
    fn menu_key(&mut self, key: Option<Key>, gap_y: i32) -> (quit: bool)
        requires
            old(self)@.wf(),
            GAP_ROW_MIN <= gap_y < GAP_ROW_END,
        ensures
            final(self)@ == old(self)@.menu(key, gap_y as int),
            quit == (key == Some(Key::Q)),
            final(self)@.wf(),
    {
        match key {
            Some(Key::P) => {
                self.restart_with(gap_y);
                false
            },
            Some(Key::Q) => true,
            _ => false,
        }
    }

    /// One frame of play: clock and physics, controls, drawing, scoring and
    /// collisions, a new obstacle where one is due, the first obstacle gone
    /// where it has left the screen, and the fall below the screen.
    pub fn play(&mut self, input: FrameInput, gap_y: i32) -> (frame: Frame)
        requires
            old(self)@.wf(),
            old(self)@.fits(),
            GAP_ROW_MIN <= gap_y < GAP_ROW_END,
        ensures
            final(self)@ == old(self)@.play(input, gap_y as int),
            views(frame.commands@) == old(self)@.play_screen(input),
            !frame.quit,
            final(self)@.wf(),
    {
        proof {
            lemma_play_keeps_wf(self@, input, gap_y as int);
        }
        let mut commands: Vec<DrawCommand> = Vec::new();
        commands.push(DrawCommand::Fill { background: Color::Navy });
        self.run_clock(input.elapsed);
        if let Some(Key::Space) = input.key {
            self.player.flap();
        }
        let ghost moved = self@;
        assert(moved == old(self)@.timed(input.elapsed as int).steered(input.key));
        commands.push(self.player.render());
        commands.push(
            DrawCommand::Text { x: 0, y: 0, text: String::from_str("Press space to flap") },
        );
        commands.push(DrawCommand::Text { x: 0, y: 1, text: score_text(self.score) });
        let ghost head = views(commands@);
        assert(head =~= seq![
            DrawCommandView::Fill { background: Color::Navy },
            moved.player.sprite(),
            DrawCommandView::Text { x: 0, y: 0, text: "Press space to flap"@ },
            DrawCommandView::Text { x: 0, y: 1, text: score_line(moved.score) },
        ]);
        self.pass_obstacles(&mut commands);
        proof {
            lemma_passes_bounds(moved.obstacles, moved.player.x);
        }
        self.spawn(gap_y);
        self.retire();
        if self.player.y > SCREEN_HEIGHT {
            self.mode = GameMode::End;
        }
        Frame { commands, quit: false }
    }

    /// Adds the time gone by to the clock and lets the player take a physics
    /// step once more than `FRAME_DURATION` has gone by.
    fn run_clock(&mut self, elapsed: u32)
        requires
            old(self)@.wf(),
            old(self)@.fits(),
        ensures
            final(self)@ == old(self)@.timed(elapsed as int),
    {
        self.frame_time += elapsed as u64;
        if self.frame_time > FRAME_DURATION {
            self.frame_time = 0;
            self.player.gravity_and_move();
        }
    }

    /// Draws every obstacle, counts the ones the player has flown beyond and
    /// ends the game where the player has flown into one.
    fn pass_obstacles(&mut self, commands: &mut Vec<DrawCommand>)
        requires
            old(self)@.score + old(self)@.obstacles.len() <= i32::MAX,
            forall|i: int|
                0 <= i < old(self)@.obstacles.len() ==> (#[trigger] old(self)@.obstacles[i])
                    .can_render(old(self)@.player.x),
        ensures
            final(self)@ == old(self)@.scored(),
            views(final(commands)@) == views(old(commands)@) + walls(
                old(self)@.obstacles,
                old(self)@.player.x,
            ),
    {
        let ghost start = self@;
        let ghost drawn = views(commands@);
        let ghost player_x = self.player.x as int;
        let n = self.obstacles.len();
        let mut i: usize = 0;
        while i < n
            invariant
                i <= n,
                n == self.obstacles@.len(),
                n == start.obstacles.len(),
                start.score + n <= i32::MAX,
                self.player@ == start.player,
                player_x == start.player.x,
                self.frame_time == start.frame_time,
                forall|j: int|
                    0 <= j < n ==> (#[trigger] start.obstacles[j]).can_render(player_x),
                forall|j: int|
                    0 <= j < i ==> (#[trigger] self.obstacles@[j])@ == start.obstacles[j].observed(
                        player_x,
                    ),
                forall|j: int|
                    i <= j < n ==> (#[trigger] self.obstacles@[j])@ == start.obstacles[j],
                self.score == start.score + passes(start.obstacles.take(i as int), player_x),
                self.score <= start.score + i,
                self.mode == if collides(start.obstacles.take(i as int), start.player) {
                    GameMode::End
                } else {
                    start.mode
                },
                views(commands@) == drawn + walls(start.obstacles.take(i as int), player_x),
            decreases n - i,
        {
            let ghost seen = start.obstacles.take(i as int);
            let ghost next = start.obstacles.take(i + 1);
            let ghost before = views(commands@);
            let obstacle = self.obstacles[i];
            assert(obstacle@ == start.obstacles[i as int]);
            let mut wall = obstacle.render(self.player.x);
            let ghost bars = views(wall@);
            commands.append(&mut wall);
            if self.player.x > obstacle.x && !obstacle.passed {
                self.obstacles[i].passed = true;
                self.score += 1;
            }
            if obstacle.hit_obstacle(&self.player) {
                self.mode = GameMode::End;
            }
            proof {
                assert(next.drop_last() =~= seen);
                assert(next.last() == start.obstacles[i as int]);
                assert(views(commands@) =~= before + bars);
                assert(collides(next, start.player) <==> collides(seen, start.player)
                    || start.obstacles[i as int].hits(start.player)) by {
                    if collides(seen, start.player) {
                        let j = choose|j: int|
                            0 <= j < seen.len() && (#[trigger] seen[j]).hits(start.player);
                        assert(next[j].hits(start.player));
                    }
                    if start.obstacles[i as int].hits(start.player) {
                        assert(next[i as int].hits(start.player));
                    }
                    if collides(next, start.player) {
                        let j = choose|j: int|
                            0 <= j < next.len() && (#[trigger] next[j]).hits(start.player);
                        if j < i {
                            assert(seen[j].hits(start.player));
                        }
                    }
                }
            }
            i += 1;
        }
        proof {
            assert(start.obstacles.take(n as int) =~= start.obstacles);
            assert(self@.obstacles =~= start.obstacles.map_values(
                |o: ObstacleView| o.observed(player_x),
            ));
        }
    }

    /// Adds an obstacle behind the last one where one is due.
    fn spawn(&mut self, gap_y: i32)
        requires
            old(self)@.score >= 0,
            forall|i: int|
                0 <= i < old(self)@.obstacles.len() ==> 0 <= (#[trigger] old(self)@.obstacles[i]).x
                    <= i32::MAX - DIST_BETWEEN,
        ensures
            final(self)@ == old(self)@.spawned(gap_y as int),
    {
        let n = self.obstacles.len();
        if n > 0 {
            let last = self.obstacles[n - 1];
            assert(last@ == self@.obstacles[n - 1]);
            if self.player.x > last.x - DIST_BETWEEN && n < 2 {
                let next = Obstacle::with_gap(last.x + DIST_BETWEEN, self.score, gap_y);
                self.obstacles.push(next);
                assert(self@.obstacles =~= old(self)@.obstacles.push(next@));
            }
        }
    }

    /// Removes the first obstacle where it has left the screen.
    fn retire(&mut self)
        requires
            old(self)@.player.x >= 0,
            old(self)@.obstacles.len() > 0 ==> 0 <= old(self)@.obstacles[0].x <= i32::MAX
                - PLAYER_SCREEN_X,
        ensures
            final(self)@ == old(self)@.retired(),
    {
        if self.obstacles.len() > 0 {
            let first = self.obstacles[0];
            assert(first@ == self@.obstacles[0]);
            let screen_x = first.x - self.player.x + PLAYER_SCREEN_X;
            if screen_x < 0 {
                self.obstacles.remove(0);
                assert(self@.obstacles =~= old(self)@.obstacles.drop_first());
            }
        }
    }
}

} // verus!
