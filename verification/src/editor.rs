//! The interactive glyph editor: a cursor-driven state machine over a grid.
//!
//! One command is processed per iteration, with no buffering. Movement wraps
//! at every edge, so the cursor never leaves the grid; unrecognized input is
//! absorbed as a no-op. The presentation layer (a terminal front-end) owns
//! the blocking read and the redraw; this module owns every state change.

use vstd::prelude::*;

use crate::grid::GRID_HEIGHT;
use crate::grid::GRID_WIDTH;
use crate::grid::Pixel;
use crate::grid::PixelGrid;
use crate::grid::flipped;
use crate::grid::grid_wf;

verus! {

/// Where the cursor starts in a fresh session.
pub const START_X: u16 = 3;

/// Where the cursor starts in a fresh session.
pub const START_Y: u16 = 0;

/// One discrete editor command; the front-end maps each key event to one.
#[derive(Clone, Copy, PartialEq, Eq, Structural, Debug)]
pub enum Command {
    MoveLeft,
    MoveRight,
    MoveUp,
    MoveDown,
    TogglePixel,
    FillRow,
    FillColumn,
    Exit,
    /// Any input outside the command set: absorbed without a state change.
    Noop,
}

/// The editor is either still accepting commands or terminally done.
#[derive(Clone, Copy, PartialEq, Eq, Structural, Debug)]
pub enum EditorState {
    Editing,
    Exited,
}

/// The mathematical editor state: the grid, the cursor and the phase.
#[verifier::ext_equal]
pub struct EditorView {
    pub grid: Seq<Seq<Pixel>>,
    pub x: int,
    pub y: int,
    pub state: EditorState,
}

/// A well-formed editor state: well-formed grid, cursor inside it.
pub open spec fn view_wf(v: EditorView) -> bool {
    &&& grid_wf(v.grid)
    &&& 0 <= v.x < GRID_WIDTH
    &&& 0 <= v.y < GRID_HEIGHT
}

/// One step left, wrapping to the rightmost column.
pub open spec fn wrap_left(x: int) -> int {
    if x == 0 {
        GRID_WIDTH - 1
    } else {
        x - 1
    }
}

/// One step right, wrapping back to the leftmost column.
pub open spec fn wrap_right(x: int) -> int {
    if x == GRID_WIDTH - 1 {
        0
    } else {
        x + 1
    }
}

/// One step up, wrapping to the bottom row.
pub open spec fn wrap_up(y: int) -> int {
    if y == 0 {
        GRID_HEIGHT - 1
    } else {
        y - 1
    }
}

/// One step down, wrapping back to the top row.
pub open spec fn wrap_down(y: int) -> int {
    if y == GRID_HEIGHT - 1 {
        0
    } else {
        y + 1
    }
}

/// The grid with the pixel at (`x`, `y`) flipped and nothing else touched.
pub open spec fn toggled(g: Seq<Seq<Pixel>>, x: int, y: int) -> Seq<Seq<Pixel>> {
    g.update(y, g[y].update(x, flipped(g[y][x])))
}

/// The grid with every pixel of row `y` lit; it only sets, never clears.
pub open spec fn lit_row(g: Seq<Seq<Pixel>>, y: int) -> Seq<Seq<Pixel>> {
    g.update(y, Seq::new(g[y].len(), |i: int| Pixel::Lit))
}

/// The grid with every pixel of column `x` lit; it only sets, never clears.
pub open spec fn lit_column(g: Seq<Seq<Pixel>>, x: int) -> Seq<Seq<Pixel>> {
    Seq::new(g.len(), |j: int| g[j].update(x, Pixel::Lit))
}

/// The transition function: a total, deterministic map from state and
/// command to the next state. `Exited` is terminal; every command leaves it
/// unchanged.
pub open spec fn step_spec(v: EditorView, c: Command) -> EditorView {
    if v.state != EditorState::Editing {
        v
    } else {
        match c {
            Command::MoveLeft => EditorView { x: wrap_left(v.x), ..v },
            Command::MoveRight => EditorView { x: wrap_right(v.x), ..v },
            Command::MoveUp => EditorView { y: wrap_up(v.y), ..v },
            Command::MoveDown => EditorView { y: wrap_down(v.y), ..v },
            Command::TogglePixel => EditorView { grid: toggled(v.grid, v.x, v.y), ..v },
            Command::FillRow => EditorView { grid: lit_row(v.grid, v.y), ..v },
            Command::FillColumn => EditorView { grid: lit_column(v.grid, v.x), ..v },
            Command::Exit => EditorView { state: EditorState::Exited, ..v },
            Command::Noop => v,
        }
    }
}

/// One editing session: a grid under construction and a cursor over it.
pub struct EditorSession {
    pub grid: PixelGrid,
    pub cursor_x: u16,
    pub cursor_y: u16,
    pub state: EditorState,
}

impl View for EditorSession {
    type V = EditorView;

    open spec fn view(&self) -> EditorView {
        EditorView {
            grid: self.grid@,
            x: self.cursor_x as int,
            y: self.cursor_y as int,
            state: self.state,
        }
    }
}

impl EditorSession {
    /// The session invariant: the cursor never leaves the grid.
    pub open spec fn wf(&self) -> bool {
        view_wf(self@)
    }

    /// A fresh session: all pixels unlit, cursor at the start position,
    /// still editing.
    pub fn new() -> (s: EditorSession)
        ensures
            s.wf(),
            s@.state == EditorState::Editing,
            s@.x == START_X as int,
            s@.y == START_Y as int,
            forall|x: int, y: int|
                0 <= x < GRID_WIDTH && 0 <= y < GRID_HEIGHT ==> #[trigger] s@.grid[y][x]
                    == Pixel::Unlit,
    {
        EditorSession {
            grid: PixelGrid::new(),
            cursor_x: START_X,
            cursor_y: START_Y,
            state: EditorState::Editing,
        }
    }

    /// Process one command, exactly as the transition function says.
    pub fn step(&mut self, cmd: Command)
        requires
            old(self).wf(),
        ensures
            final(self).wf(),
            final(self)@ == step_spec(old(self)@, cmd),
    {
        if matches!(self.state, EditorState::Exited) {
            return ;
        }
        match cmd {
            Command::MoveLeft => {
                if self.cursor_x != 0 {
                    self.cursor_x = self.cursor_x - 1;
                } else {
                    self.cursor_x = (GRID_WIDTH - 1) as u16;
                }
            },
            Command::MoveRight => {
                if self.cursor_x != (GRID_WIDTH - 1) as u16 {
                    self.cursor_x = self.cursor_x + 1;
                } else {
                    self.cursor_x = 0;
                }
            },
            Command::MoveUp => {
                if self.cursor_y != 0 {
                    self.cursor_y = self.cursor_y - 1;
                } else {
                    self.cursor_y = (GRID_HEIGHT - 1) as u16;
                }
            },
            Command::MoveDown => {
                if self.cursor_y != (GRID_HEIGHT - 1) as u16 {
                    self.cursor_y = self.cursor_y + 1;
                } else {
                    self.cursor_y = 0;
                }
            },
            Command::TogglePixel => {
                let p = self.grid.get(self.cursor_x as usize, self.cursor_y as usize);
                let q = match p {
                    Pixel::Lit => Pixel::Unlit,
                    Pixel::Unlit => Pixel::Lit,
                };
                self.grid.set(self.cursor_x as usize, self.cursor_y as usize, q);
            },
            Command::FillRow => {
                let ghost g0 = self.grid@;
                let mut x: usize = 0;
                while x < GRID_WIDTH
                    invariant
                        x <= GRID_WIDTH,
                        self.cursor_x == old(self).cursor_x,
                        self.cursor_y == old(self).cursor_y,
                        self.state == old(self).state,
                        self.cursor_x < GRID_WIDTH,
                        self.cursor_y < GRID_HEIGHT,
                        self.grid.wf(),
                        self.grid@.len() == g0.len(),
                        forall|j: int| 0 <= j < g0.len() && j != self.cursor_y ==> #[trigger] self.grid@[j] == g0[j],
                        self.grid@[self.cursor_y as int].len() == g0[self.cursor_y as int].len(),
                        forall|i: int|
                            0 <= i < x ==> #[trigger] self.grid@[self.cursor_y as int][i]
                                == Pixel::Lit,
                        forall|i: int|
                            x <= i < GRID_WIDTH ==> #[trigger] self.grid@[self.cursor_y as int][i]
                                == g0[self.cursor_y as int][i],
                    decreases GRID_WIDTH - x,
                {
                    self.grid.set(x, self.cursor_y as usize, Pixel::Lit);
                    x = x + 1;
                }
                proof {
                    assert(self.grid@ =~~= lit_row(g0, self.cursor_y as int));
                }
            },
            Command::FillColumn => {
                let ghost g0 = self.grid@;
                let mut y: usize = 0;
                while y < GRID_HEIGHT
                    invariant
                        y <= GRID_HEIGHT,
                        self.cursor_x == old(self).cursor_x,
                        self.cursor_y == old(self).cursor_y,
                        self.state == old(self).state,
                        self.cursor_x < GRID_WIDTH,
                        self.cursor_y < GRID_HEIGHT,
                        self.grid.wf(),
                        self.grid@.len() == g0.len(),
                        forall|j: int|
                            0 <= j < g0.len() ==> (#[trigger] self.grid@[j]).len() == g0[j].len(),
                        forall|j: int|
                            0 <= j < y ==> #[trigger] self.grid@[j] == g0[j].update(
                                self.cursor_x as int,
                                Pixel::Lit,
                            ),
                        forall|j: int| y <= j < g0.len() ==> #[trigger] self.grid@[j] == g0[j],
                    decreases GRID_HEIGHT - y,
                {
                    self.grid.set(self.cursor_x as usize, y, Pixel::Lit);
                    y = y + 1;
                }
                proof {
                    assert(self.grid@ =~~= lit_column(g0, self.cursor_x as int));
                }
            },
            Command::Exit => {
                self.state = EditorState::Exited;
            },
            Command::Noop => {},
        }
    }
}

/// Every transition preserves well-formedness: from a well-formed state,
/// any command leaves the grid 5x7 and the cursor inside it.
pub proof fn lemma_step_preserves_wf(v: EditorView, c: Command)
    requires
        view_wf(v),
    ensures
        view_wf(step_spec(v, c)),
{
}

/// Wrap invariant: `MoveRight` applied exactly `GRID_WIDTH` times returns
/// the cursor to its starting column.
pub proof fn lemma_move_right_wraps(v: EditorView, c: Command)
    requires
        view_wf(v),
        v.state == EditorState::Editing,
        c == Command::MoveRight,
    ensures
        step_spec(step_spec(step_spec(step_spec(step_spec(v, c), c), c), c), c) == v,
{
    assert(step_spec(step_spec(step_spec(step_spec(step_spec(v, c), c), c), c), c) =~~= v);
}

/// Wrap invariant: `MoveDown` applied exactly `GRID_HEIGHT` times returns
/// the cursor to its starting row.
pub proof fn lemma_move_down_wraps(v: EditorView, c: Command)
    requires
        view_wf(v),
        v.state == EditorState::Editing,
        c == Command::MoveDown,
    ensures
        step_spec(
            step_spec(step_spec(step_spec(step_spec(step_spec(step_spec(v, c), c), c), c), c), c),
            c,
        ) == v,
{
    assert(step_spec(
        step_spec(step_spec(step_spec(step_spec(step_spec(step_spec(v, c), c), c), c), c), c),
        c,
    ) =~~= v);
}

/// `FillRow` is idempotent: applying it twice is the same as applying it
/// once.
pub proof fn lemma_fill_row_idempotent(v: EditorView)
    requires
        view_wf(v),
        v.state == EditorState::Editing,
    ensures
        step_spec(step_spec(v, Command::FillRow), Command::FillRow) == step_spec(
            v,
            Command::FillRow,
        ),
{
    assert(step_spec(step_spec(v, Command::FillRow), Command::FillRow) =~~= step_spec(
        v,
        Command::FillRow,
    ));
}

/// `FillColumn` is idempotent: applying it twice is the same as applying it
/// once.
pub proof fn lemma_fill_column_idempotent(v: EditorView)
    requires
        view_wf(v),
        v.state == EditorState::Editing,
    ensures
        step_spec(step_spec(v, Command::FillColumn), Command::FillColumn) == step_spec(
            v,
            Command::FillColumn,
        ),
{
    assert(step_spec(step_spec(v, Command::FillColumn), Command::FillColumn) =~~= step_spec(
        v,
        Command::FillColumn,
    ));
}

/// `FillRow` never clears a pixel: every pixel lit before is lit after.
pub proof fn lemma_fill_row_never_clears(v: EditorView, x: int, y: int)
    requires
        view_wf(v),
        v.state == EditorState::Editing,
        0 <= x < GRID_WIDTH,
        0 <= y < GRID_HEIGHT,
        v.grid[y][x] == Pixel::Lit,
    ensures
        step_spec(v, Command::FillRow).grid[y][x] == Pixel::Lit,
{
}

/// `FillColumn` never clears a pixel: every pixel lit before is lit after.
pub proof fn lemma_fill_column_never_clears(v: EditorView, x: int, y: int)
    requires
        view_wf(v),
        v.state == EditorState::Editing,
        0 <= x < GRID_WIDTH,
        0 <= y < GRID_HEIGHT,
        v.grid[y][x] == Pixel::Lit,
    ensures
        step_spec(v, Command::FillColumn).grid[y][x] == Pixel::Lit,
{
}

/// `FillRow` touches only the cursor's row.
pub proof fn lemma_fill_row_leaves_rest(v: EditorView, x: int, y: int)
    requires
        view_wf(v),
        v.state == EditorState::Editing,
        0 <= x < GRID_WIDTH,
        0 <= y < GRID_HEIGHT,
        y != v.y,
    ensures
        step_spec(v, Command::FillRow).grid[y][x] == v.grid[y][x],
{
}

/// `FillColumn` touches only the cursor's column.
pub proof fn lemma_fill_column_leaves_rest(v: EditorView, x: int, y: int)
    requires
        view_wf(v),
        v.state == EditorState::Editing,
        0 <= x < GRID_WIDTH,
        0 <= y < GRID_HEIGHT,
        x != v.x,
    ensures
        step_spec(v, Command::FillColumn).grid[y][x] == v.grid[y][x],
{
}

/// `TogglePixel` is self-inverse: two toggles at the same cursor position
/// restore the state exactly.
pub proof fn lemma_toggle_self_inverse(v: EditorView)
    requires
        view_wf(v),
        v.state == EditorState::Editing,
    ensures
        step_spec(step_spec(v, Command::TogglePixel), Command::TogglePixel) == v,
{
    assert(step_spec(step_spec(v, Command::TogglePixel), Command::TogglePixel) =~~= v);
}

} // verus!
