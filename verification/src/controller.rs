use vstd::prelude::*;
use crate::cursor::Cursor;
use crate::grid::Life;
use crate::torus::{lemma_wrap_identity, wrap, wrap_coord};

verus! {

/// Milliseconds one keypress adds to or takes from the tick delay.
pub const DELAY_STEP_MS: u64 = 100;

/// Speed-up presses never push the tick delay below this many milliseconds.
pub const DELAY_FLOOR_MS: u64 = 100;

/// The tick delay a fresh controller starts with, in milliseconds.
pub const START_DELAY_MS: u64 = 400;

/// One decoded keyboard event, as the event loop hands it in.
#[derive(Clone, Copy)]
pub enum Key {
    /// The escape key: leave the loop.
    Esc,
    /// A printable character key.
    Char(char),
    /// Any other key: no effect.
    Other,
}

/// The controller state: the grid, the editing cursor, the pause flag and
/// the tick delay in milliseconds.
pub struct App {
    pub life: Life,
    pub cursor: Cursor,
    pub paused: bool,
    pub delay: u64,
}

/// Where one keypress moves the cursor, before wrapping: h and l step the
/// column, j and k step the row, everything else leaves it alone.
pub open spec fn moved_cursor(c: Cursor, key: Key) -> (int, int) {
    match key {
        Key::Char(k) => if k == 'h' {
            (c.x - 1, c.y as int)
        } else if k == 'l' {
            (c.x + 1, c.y as int)
        } else if k == 'j' {
            (c.x as int, c.y + 1)
        } else if k == 'k' {
            (c.x as int, c.y - 1)
        } else {
            (c.x as int, c.y as int)
        },
        _ => (c.x as int, c.y as int),
    }
}

/// One speed-up press: the delay falls by one step but never below the
/// floor; at or below the floor it is left alone.
pub open spec fn sped_up(d: int) -> int {
    if d > DELAY_FLOOR_MS {
        if d - DELAY_STEP_MS < DELAY_FLOOR_MS {
            DELAY_FLOOR_MS as int
        } else {
            d - DELAY_STEP_MS
        }
    } else {
        d
    }
}

/// One slow-down press: the delay grows by one step, without bound.
pub open spec fn slowed_down(d: int) -> int {
    d + DELAY_STEP_MS
}

/// The delay after one keypress.
pub open spec fn next_delay(d: u64, key: Key) -> int {
    if key == Key::Char('+') {
        sped_up(d as int)
    } else if key == Key::Char('-') {
        slowed_down(d as int)
    } else {
        d as int
    }
}

impl App {
    /// The grid holds the cursor and the cursor sits inside the grid.
    pub open spec fn wf(self) -> bool {
        &&& self.life.wf()
        &&& self.cursor.in_bounds(self.life.w as int, self.life.h as int)
    }

    /// A fresh controller: an all-dead grid of the given size, the cursor at
    /// the origin, running (not paused), at the starting delay.
    pub fn new(w: i64, h: i64) -> (app: App)
        requires
            0 < w,
            0 < h,
            w * h <= i64::MAX,
            w * h <= usize::MAX,
        ensures
            app.wf(),
            app.life.w == w,
            app.life.h == h,
            forall|x: int, y: int| !app.life.cell(x, y),
            app.cursor.x == 0,
            app.cursor.y == 0,
            !app.paused,
            app.delay == START_DELAY_MS,
    {
        App {
            life: Life::new(w, h),
            cursor: Cursor { x: 0, y: 0 },
            paused: false,
            delay: START_DELAY_MS,
        }
    }

    /// Advances one frame: unless paused, the grid is replaced by its next
    /// generation; the cursor, the pause flag and the delay are untouched.
    pub fn tick(&mut self)
        requires
            old(self).wf(),
        ensures
            final(self).wf(),
            final(self).cursor == old(self).cursor,
            final(self).paused == old(self).paused,
            final(self).delay == old(self).delay,
            final(self).life.w == old(self).life.w,
            final(self).life.h == old(self).life.h,
            old(self).paused ==> final(self).life.cells@ == old(self).life.cells@,
            !old(self).paused ==> forall|x: int, y: int|
                0 <= x < old(self).life.w && 0 <= y < old(self).life.h ==> final(self).life.cell(
                    x,
                    y,
                ) == old(self).life.step_cell(x, y),
    {
        if !self.paused {
            let next = self.life.step();
            self.life = next;
        }
    }

    /// Dispatches one key event: Escape asks to quit; space toggles the
    /// pause flag; h, l, j and k move the cursor; 'f' flips exactly the cell
    /// under the cursor, whatever the pause flag holds; '+' and '-' retune
    /// the delay; anything else changes nothing. Afterwards the cursor is
    /// wrapped back into the grid.
    pub fn handle_key(&mut self, key: Key) -> (quit: bool)
        requires
            old(self).wf(),
            old(self).delay + DELAY_STEP_MS <= u64::MAX,
        ensures
            final(self).wf(),
            quit == (key == Key::Esc),
            final(self).life.w == old(self).life.w,
            final(self).life.h == old(self).life.h,
            final(self).paused == (if key == Key::Char(' ') {
                !old(self).paused
            } else {
                old(self).paused
            }),
            final(self).delay == next_delay(old(self).delay, key),
            final(self).cursor.x == wrap_coord(
                moved_cursor(old(self).cursor, key).0,
                old(self).life.w as int,
            ),
            final(self).cursor.y == wrap_coord(
                moved_cursor(old(self).cursor, key).1,
                old(self).life.h as int,
            ),
            key == Key::Char('f') ==> final(self).life.cell(
                old(self).cursor.x as int,
                old(self).cursor.y as int,
            ) != old(self).life.cell(old(self).cursor.x as int, old(self).cursor.y as int),
            key == Key::Char('f') ==> forall|i: int, j: int|
                0 <= i < old(self).life.w && 0 <= j < old(self).life.h && !(i == old(
                    self,
                ).cursor.x && j == old(self).cursor.y) ==> final(self).life.cell(i, j) == old(
                    self,
                ).life.cell(i, j),
            key != Key::Char('f') ==> final(self).life.cells@ == old(self).life.cells@,
    {
        let mut quit = false;
        match key {
            Key::Esc => {
                quit = true;
            },
            Key::Char(c) => {
                if c == ' ' {
                    self.paused = !self.paused;
                } else if c == 'h' {
                    self.cursor.x = self.cursor.x - 1;
                } else if c == 'l' {
                    self.cursor.x = self.cursor.x + 1;
                } else if c == 'j' {
                    self.cursor.y = self.cursor.y + 1;
                } else if c == 'k' {
                    self.cursor.y = self.cursor.y - 1;
                } else if c == 'f' {
                    let alive = self.life.get(self.cursor.x, self.cursor.y);
                    self.life.set(self.cursor.x, self.cursor.y, !alive);
                    proof {
                        lemma_wrap_identity(old(self).cursor.x as int, old(self).life.w as int);
                        lemma_wrap_identity(old(self).cursor.y as int, old(self).life.h as int);
                    }
                } else if c == '+' {
                    if self.delay > DELAY_FLOOR_MS {
                        let reduced = self.delay - DELAY_STEP_MS;
                        self.delay = if reduced < DELAY_FLOOR_MS {
                            DELAY_FLOOR_MS
                        } else {
                            reduced
                        };
                    }
                } else if c == '-' {
                    self.delay = self.delay + DELAY_STEP_MS;
                }
            },
            Key::Other => {},
        }
        self.cursor.x = wrap(self.cursor.x, self.life.w);
        self.cursor.y = wrap(self.cursor.y, self.life.h);
        quit
    }
}

/// The delay after `n` speed-up presses in a row.
pub open spec fn sped_up_times(d: int, n: nat) -> int
    decreases n,
{
    if n == 0 {
        d
    } else {
        sped_up(sped_up_times(d, (n - 1) as nat))
    }
}

/// The delay after `n` slow-down presses in a row.
pub open spec fn slowed_down_times(d: int, n: nat) -> int
    decreases n,
{
    if n == 0 {
        d
    } else {
        slowed_down(slowed_down_times(d, (n - 1) as nat))
    }
}

/// Delay floor: however many speed-up presses arrive in a row, a delay at or
/// above the floor never drops below it.
pub proof fn lemma_delay_floor(d: int, n: nat)
    requires
        d >= DELAY_FLOOR_MS,
    ensures
        sped_up_times(d, n) >= DELAY_FLOOR_MS,
    decreases n,
{
    if n > 0 {
        lemma_delay_floor(d, (n - 1) as nat);
    }
}

/// Slow-down presses grow the delay without bound: `n` presses in a row add
/// `n` full steps.
pub proof fn lemma_delay_unbounded(d: int, n: nat)
    ensures
        slowed_down_times(d, n) == d + n * DELAY_STEP_MS,
    decreases n,
{
    if n > 0 {
        lemma_delay_unbounded(d, (n - 1) as nat);
        assert(n * DELAY_STEP_MS == (n - 1) * DELAY_STEP_MS + DELAY_STEP_MS) by (nonlinear_arith);
    }
}

} // verus!
