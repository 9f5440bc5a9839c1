//! The bird: a position on the grid and a vertical velocity.

use vstd::prelude::*;
use crate::config::{
    FLAP_VELOCITY, GRAVITY, PLAYER_SCREEN_X, TERMINAL_VELOCITY, VELOCITY_SCALE,
};
use crate::draw::{to_glyph, Color, DrawCommand, DrawCommandView, PLAYER_GLYPH};
use crate::math::{max, min, trunc_div};

verus! {

/// The player.  `x` is the distance flown, `y` the row on the screen (row 0
/// is the top) and `velocity` the vertical speed in tenths of a row per
/// physics step, positive when falling.
#[derive(Clone, Copy, Debug, PartialEq, Eq, Structural)]
pub struct Player {
    pub x: i32,
    pub y: i32,
    pub velocity: i32,
}

/// A player over the mathematical integers.
pub struct PlayerView {
    pub x: int,
    pub y: int,
    pub velocity: int,
}

impl View for Player {
    type V = PlayerView;

    open spec fn view(&self) -> PlayerView {
        PlayerView { x: self.x as int, y: self.y as int, velocity: self.velocity as int }
    }
}

/// The whole rows in a velocity: tenths are cut off, toward zero.
pub open spec fn whole_rows(velocity: int) -> int {
    trunc_div(velocity, VELOCITY_SCALE as int)
}

impl PlayerView {
    /// A player at rest at `(x, y)`.
    pub open spec fn at(x: int, y: int) -> PlayerView {
        PlayerView { x, y, velocity: 0 }
    }

    /// The velocity lies between the flap velocity and the terminal
    /// velocity, and is a whole number of gravity steps away from both.
    pub open spec fn wf(self) -> bool {
        &&& FLAP_VELOCITY <= self.velocity <= TERMINAL_VELOCITY
        &&& self.velocity % (GRAVITY as int) == 0
    }

    /// The velocity once gravity has pulled for one step: it grows by
    /// `GRAVITY` unless the terminal velocity is reached.
    pub open spec fn pulled(self) -> int {
        if self.velocity < TERMINAL_VELOCITY {
            self.velocity + GRAVITY
        } else {
            self.velocity
        }
    }

    /// One physics step: gravity pulls, the player moves by the whole rows of
    /// its new velocity, stops at the top row, and advances one column.
    pub open spec fn step(self) -> PlayerView {
        PlayerView {
            x: self.x + 1,
            y: max(0, self.y + whole_rows(self.pulled())),
            velocity: self.pulled(),
        }
    }

    /// `n` physics steps in a row, with no flap between them.
    pub open spec fn steps(self, n: nat) -> PlayerView
        decreases n,
    {
        if n == 0 {
            self
        } else {
            self.steps((n - 1) as nat).step()
        }
    }

    /// A flap: the velocity becomes `FLAP_VELOCITY`, whatever it was.
    pub open spec fn flap(self) -> PlayerView {
        PlayerView { velocity: FLAP_VELOCITY as int, ..self }
    }

    /// One physics step stays within the machine's integers.
    pub open spec fn can_step(self) -> bool {
        &&& self.x + 1 <= i32::MAX
        &&& i32::MIN <= self.y + whole_rows(self.pulled()) <= i32::MAX
    }

    /// How the player is drawn: one yellow `@` on black, in the player's
    /// fixed column and its current row.
    pub open spec fn sprite(self) -> DrawCommandView {
        DrawCommandView::Glyph {
            x: PLAYER_SCREEN_X as int,
            y: self.y,
            fg: Color::Yellow,
            bg: Color::Black,
            glyph: PLAYER_GLYPH as int,
        }
    }
}

impl Player {
    /// A player at rest at `(x, y)`.
    pub fn new(x: i32, y: i32) -> (p: Player)
        ensures
            p@ == PlayerView::at(x as int, y as int),
            p@.wf(),
    {
        Player { x, y, velocity: 0 }
    }

    /// The drawing command that shows the player.
    pub fn render(&self) -> (command: DrawCommand)
        ensures
            command@ == self@.sprite(),
    {
        let glyph = to_glyph('@');
        DrawCommand::Glyph {
            x: PLAYER_SCREEN_X,
            y: self.y,
            fg: Color::Yellow,
            bg: Color::Black,
            glyph,
        }
    }

    /// Whether the velocity is one that steps and flaps lead to.
    pub fn is_wf(&self) -> (ok: bool)
        ensures
            ok == self@.wf(),
    {
        FLAP_VELOCITY <= self.velocity && self.velocity <= TERMINAL_VELOCITY && self.velocity
            % GRAVITY == 0
    }

    /// One physics step.
    pub fn gravity_and_move(&mut self)
        requires
            old(self)@.can_step(),
        ensures
            final(self)@ == old(self)@.step(),
            old(self)@.wf() ==> final(self)@.wf(),
            final(self).y >= 0,
    {
        if self.velocity < TERMINAL_VELOCITY {
            self.velocity += GRAVITY;
        }
        self.y += self.velocity / VELOCITY_SCALE;
        self.x += 1;
        if self.y < 0 {
            self.y = 0;
        }
    }

    /// Gives the player its upward push.
    pub fn flap(&mut self)
        ensures
            final(self)@ == old(self)@.flap(),
            final(self)@.wf(),
    {
        self.velocity = FLAP_VELOCITY;
    }
}

/// A player that starts at rest and takes `n` physics steps without a flap
/// has the velocity `min(GRAVITY * n, TERMINAL_VELOCITY)`: two tenths more
/// with every step, up to two rows per step.
pub proof fn lemma_velocity_after_steps(p: PlayerView, n: nat)
    requires
        p.velocity == 0,
    ensures
        p.steps(n).velocity == min(GRAVITY * n, TERMINAL_VELOCITY as int),
    decreases n,
{
    if n > 0 {
        lemma_velocity_after_steps(p, (n - 1) as nat);
    }
}

/// A flap sets the velocity to `FLAP_VELOCITY` whatever it was before, so
/// flapping twice is the same as flapping once.
pub proof fn lemma_flap_resets_velocity(p: PlayerView)
    ensures
        p.flap().velocity == FLAP_VELOCITY,
        p.flap().flap() == p.flap(),
        p.flap().x == p.x,
        p.flap().y == p.y,
{
}

/// However many physics steps are taken, and from wherever, the player is
/// never above the top row afterwards.
pub proof fn lemma_row_never_negative(p: PlayerView, n: nat)
    requires
        n >= 1 || p.y >= 0,
    ensures
        p.steps(n).y >= 0,
    decreases n,
{
    if n > 1 {
        lemma_row_never_negative(p, (n - 1) as nat);
    }
}

/// Steps and flaps keep the velocity within its bounds.
pub proof fn lemma_moves_keep_wf(p: PlayerView)
    requires
        p.wf(),
    ensures
        p.step().wf(),
        p.flap().wf(),
{
}

} // verus!
