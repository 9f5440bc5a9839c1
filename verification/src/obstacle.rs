//! A wall with a gap, and the test that tells whether the player flew into it.

use vstd::prelude::*;
use crate::config::{
    GAP_ROW_END, GAP_ROW_MIN, GAP_SIZE_MIN, GAP_SIZE_START, PLAYER_SCREEN_X, SCREEN_HEIGHT,
};
use crate::draw::{to_glyph, views, Color, DrawCommand, DrawCommandView, WALL_GLYPH};
use crate::math::{abs, max, trunc_div};
use crate::player::{Player, PlayerView};
use bracket_lib::prelude::RandomNumberGenerator;

verus! {

/// One wall.  It stands in the world column `x` and is open around the row
/// `gap_y`, over `size` rows; `passed` is set once the player is beyond it.
#[derive(Clone, Copy, Debug, PartialEq, Eq, Structural)]
pub struct Obstacle {
    pub x: i32,
    pub gap_y: i32,
    pub size: i32,
    pub passed: bool,
}

/// An obstacle over the mathematical integers.
pub struct ObstacleView {
    pub x: int,
    pub gap_y: int,
    pub size: int,
    pub passed: bool,
}

impl View for Obstacle {
    type V = ObstacleView;

    open spec fn view(&self) -> ObstacleView {
        ObstacleView {
            x: self.x as int,
            gap_y: self.gap_y as int,
            size: self.size as int,
            passed: self.passed,
        }
    }
}

/// The height of the gap of an obstacle that is made at the given score: it
/// starts at `GAP_SIZE_START`, loses a row with every point and stops at
/// `GAP_SIZE_MIN`.
pub open spec fn gap_size(score: int) -> int {
    max(GAP_SIZE_MIN as int, GAP_SIZE_START - score)
}

/// Half of a gap's height; an odd height loses its spare row.
pub open spec fn half(size: int) -> int {
    trunc_div(size, 2)
}

impl ObstacleView {
    /// The obstacle that is made in column `x` at the given score, with its
    /// gap centred on `gap_y`.
    pub open spec fn fresh(x: int, score: int, gap_y: int) -> ObstacleView {
        ObstacleView { x, gap_y, size: gap_size(score), passed: false }
    }

    /// The gap is centred where gaps are drawn from and has a height that
    /// some score gives.
    pub open spec fn wf(self) -> bool {
        &&& GAP_ROW_MIN <= self.gap_y < GAP_ROW_END
        &&& GAP_SIZE_MIN <= self.size <= GAP_SIZE_START
    }

    /// The first row of the gap: every row above it is wall.
    pub open spec fn gap_top(self) -> int {
        self.gap_y - half(self.size)
    }

    /// The last row that counts as gap for a collision; the lower wall is
    /// drawn from this row on.
    pub open spec fn gap_bottom(self) -> int {
        self.gap_y + half(self.size)
    }

    /// The player is in the obstacle's very column and above or below the
    /// gap.
    pub open spec fn hits(self, player: PlayerView) -> bool {
        &&& player.x == self.x
        &&& (player.y < self.gap_top() || player.y > self.gap_bottom())
    }

    /// The player has flown beyond this obstacle and that has not been
    /// counted yet.
    pub open spec fn newly_passed(self, player_x: int) -> bool {
        player_x > self.x && !self.passed
    }

    /// The obstacle after the player's position has been looked at: it is
    /// marked once the player is beyond it.
    pub open spec fn observed(self, player_x: int) -> ObstacleView {
        ObstacleView { passed: self.passed || player_x > self.x, ..self }
    }

    /// The screen column of the obstacle when the player is at `player_x`.
    pub open spec fn screen_x(self, player_x: int) -> int {
        self.x - player_x + PLAYER_SCREEN_X
    }

    /// How many rows the upper wall takes.
    pub open spec fn upper_rows(self) -> int {
        max(0, self.gap_top())
    }

    /// How many rows the lower wall takes.
    pub open spec fn lower_rows(self) -> int {
        max(0, SCREEN_HEIGHT - self.gap_bottom())
    }

    /// The row of the `i`-th piece of wall: the upper wall from row 0 down to
    /// the gap, then the lower wall from the end of the gap to the bottom of
    /// the screen.
    pub open spec fn wall_row(self, i: int) -> int {
        if i < self.upper_rows() {
            i
        } else {
            self.gap_bottom() + (i - self.upper_rows())
        }
    }

    /// One piece of wall: a red bar on black.
    pub open spec fn bar(self, player_x: int, row: int) -> DrawCommandView {
        DrawCommandView::Glyph {
            x: self.screen_x(player_x),
            y: row,
            fg: Color::Red,
            bg: Color::Black,
            glyph: WALL_GLYPH as int,
        }
    }

    /// The drawing commands for the whole obstacle, seen from a player at
    /// `player_x`.
    pub open spec fn wall(self, player_x: int) -> Seq<DrawCommandView> {
        Seq::new(
            (self.upper_rows() + self.lower_rows()) as nat,
            |i: int| self.bar(player_x, self.wall_row(i)),
        )
    }

    /// Drawing the obstacle stays within the machine's integers.
    pub open spec fn can_render(self, player_x: int) -> bool {
        &&& i32::MIN <= self.x - player_x <= i32::MAX
        &&& i32::MIN <= self.screen_x(player_x) <= i32::MAX
        &&& i32::MIN <= self.gap_top() <= i32::MAX
        &&& i32::MIN <= self.gap_bottom() <= i32::MAX
    }
}

/// Declares `bracket_lib::prelude::RandomNumberGenerator`, a pseudo-random
/// generator whose state stays hidden.
#[verifier::external_type_specification]
#[verifier::external_body]
pub struct ExRandomNumberGenerator(RandomNumberGenerator);

/// `RandomNumberGenerator::new` makes a generator from a seed that the
/// operating system supplies.  Nothing is known of the generator it returns.
pub assume_specification[ RandomNumberGenerator::new ]() -> (generator: RandomNumberGenerator);

/// Calls `RandomNumberGenerator::range`, which draws from the half-open range
/// `min..max` and refuses an empty one.  Nothing more is known of the number
/// than that it lies in the range.
#[verifier::external_body]
fn random_in_range(generator: &mut RandomNumberGenerator, min: i32, max: i32) -> (n: i32)
    requires
        min < max,
    ensures
        min <= n < max,
{
    generator.range(min, max)
}

impl Obstacle {
    /// A new obstacle in column `x` for the given score, with its gap centred
    /// on a row drawn at random from `GAP_ROW_MIN..GAP_ROW_END`.
    pub fn new(x: i32, score: i32) -> (obstacle: Obstacle)
        requires
            GAP_SIZE_START - score <= i32::MAX,
        ensures
            obstacle@ == ObstacleView::fresh(x as int, score as int, obstacle.gap_y as int),
            GAP_ROW_MIN <= obstacle.gap_y < GAP_ROW_END,
    {
        let gap_y = Obstacle::random_gap();
        Obstacle::with_gap(x, score, gap_y)
    }

    /// Draws the row for the centre of a gap.
    pub fn random_gap() -> (gap_y: i32)
        ensures
            GAP_ROW_MIN <= gap_y < GAP_ROW_END,
    {
        let mut generator = RandomNumberGenerator::new();
        random_in_range(&mut generator, GAP_ROW_MIN, GAP_ROW_END)
    }

    /// A new obstacle in column `x` for the given score, with its gap centred
    /// on `gap_y`.
    pub fn with_gap(x: i32, score: i32, gap_y: i32) -> (obstacle: Obstacle)
        requires
            GAP_SIZE_START - score <= i32::MAX,
        ensures
            obstacle@ == ObstacleView::fresh(x as int, score as int, gap_y as int),
    {
        Obstacle { x, gap_y, size: Obstacle::size_at(score), passed: false }
    }

    /// The height of the gap of an obstacle made at the given score.
    pub fn size_at(score: i32) -> (size: i32)
        requires
            GAP_SIZE_START - score <= i32::MAX,
        ensures
            size == gap_size(score as int),
    {
        let size = GAP_SIZE_START - score;
        if size < GAP_SIZE_MIN {
            GAP_SIZE_MIN
        } else {
            size
        }
    }

    /// Whether the gap is centred on a row that can be drawn and has a height
    /// that some score gives.
    pub fn is_wf(&self) -> (ok: bool)
        ensures
            ok == self@.wf(),
    {
        GAP_ROW_MIN <= self.gap_y && self.gap_y < GAP_ROW_END && GAP_SIZE_MIN <= self.size
            && self.size <= GAP_SIZE_START
    }

    /// The drawing commands that show the obstacle to a player at
    /// `player_x`: one bar for every row outside the gap, top to bottom.
    pub fn render(&self, player_x: i32) -> (commands: Vec<DrawCommand>)
        requires
            self@.can_render(player_x as int),
        ensures
            views(commands@) == self@.wall(player_x as int),
    {
        let screen_x = self.x - player_x + PLAYER_SCREEN_X;
        let half_size = self.size / 2;
        let glyph = to_glyph('|');
        let mut commands: Vec<DrawCommand> = Vec::new();
        let top = self.gap_y - half_size;
        let mut y: i32 = 0;
        while y < top
            invariant
                0 <= y <= self@.upper_rows(),
                top == self@.gap_top(),
                screen_x == self@.screen_x(player_x as int),
                glyph == WALL_GLYPH,
                commands@.len() == y,
                forall|i: int|
                    0 <= i < y ==> (#[trigger] commands@[i])@ == self@.bar(
                        player_x as int,
                        self@.wall_row(i),
                    ),
            decreases top - y,
        {
            commands.push(
                DrawCommand::Glyph { x: screen_x, y, fg: Color::Red, bg: Color::Black, glyph },
            );
            y += 1;
        }
        let ghost upper = self@.upper_rows();
        let bottom = self.gap_y + half_size;
        let mut y: i32 = bottom;
        while y < SCREEN_HEIGHT
            invariant
                upper == self@.upper_rows(),
                bottom == self@.gap_bottom(),
                bottom <= y,
                y - bottom <= self@.lower_rows(),
                screen_x == self@.screen_x(player_x as int),
                glyph == WALL_GLYPH,
                commands@.len() == upper + (y - bottom),
                forall|i: int|
                    0 <= i < commands@.len() ==> (#[trigger] commands@[i])@ == self@.bar(
                        player_x as int,
                        self@.wall_row(i),
                    ),
            decreases SCREEN_HEIGHT - y,
        {
            commands.push(
                DrawCommand::Glyph { x: screen_x, y, fg: Color::Red, bg: Color::Black, glyph },
            );
            y += 1;
        }
        assert(views(commands@) =~= self@.wall(player_x as int));
        commands
    }

    /// Whether the player has flown into the wall: it is in the obstacle's
    /// very column, and above or below the gap.
    pub fn hit_obstacle(&self, player: &Player) -> (hit: bool)
        ensures
            hit == self@.hits(player@),
    {
        let half_size = (self.size / 2) as i64;
        let does_x_match = player.x == self.x;
        let player_above_gap = (player.y as i64) < self.gap_y as i64 - half_size;
        let player_below_gap = player.y as i64 > self.gap_y as i64 + half_size;
        does_x_match && (player_above_gap || player_below_gap)
    }
}

/// The player hits an obstacle exactly when it is in the obstacle's column
/// and its row is more than half the gap's height away from the gap's centre.
pub proof fn lemma_hits_is_distance_from_centre(obstacle: ObstacleView, player: PlayerView)
    ensures
        obstacle.hits(player) <==> player.x == obstacle.x && abs(player.y - obstacle.gap_y)
            > half(obstacle.size),
{
}

/// The gap is `max(GAP_SIZE_MIN, GAP_SIZE_START - score)` rows high: it never
/// grows as the score grows and never falls below `GAP_SIZE_MIN`.
pub proof fn lemma_gap_size_shrinks_to_floor(score: int, later_score: int)
    requires
        score <= later_score,
    ensures
        gap_size(score) == max(2, 20 - score),
        gap_size(score) >= gap_size(later_score) >= GAP_SIZE_MIN,
        later_score >= GAP_SIZE_START - GAP_SIZE_MIN ==> gap_size(later_score) == GAP_SIZE_MIN,
{
}

/// An obstacle made at a score of zero or more, with its gap centred on a
/// row that can be drawn, is well formed.
pub proof fn lemma_fresh_is_wf(x: int, score: int, gap_y: int)
    requires
        score >= 0,
        GAP_ROW_MIN <= gap_y < GAP_ROW_END,
    ensures
        ObstacleView::fresh(x, score, gap_y).wf(),
{
}

} // verus!
