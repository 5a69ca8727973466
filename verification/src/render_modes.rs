//! Debug overlay modes of the renderer and the decisions taken from them.

use vstd::prelude::*;

verus! {

/// Which entity debug information the overlay draws.
#[derive(Debug, Clone, Copy, PartialEq, Eq, Structural)]
pub enum DebugRenderMode {
    Off,
    Wireframe,
    Components,
    Full,
}

/// Which spatial grid the overlay draws.
#[derive(Debug, Clone, Copy, PartialEq, Eq, Structural)]
pub enum DebugGridMode {
    Off,
    Large,
    Small,
    Both,
}

/// The successor of a render mode in the cycling order
/// `Off -> Wireframe -> Components -> Full -> Off`.
pub open spec fn next_render_mode(m: DebugRenderMode) -> DebugRenderMode {
    match m {
        DebugRenderMode::Off => DebugRenderMode::Wireframe,
        DebugRenderMode::Wireframe => DebugRenderMode::Components,
        DebugRenderMode::Components => DebugRenderMode::Full,
        DebugRenderMode::Full => DebugRenderMode::Off,
    }
}

/// The successor of a grid mode in the cycling order
/// `Off -> Large -> Small -> Both -> Off`.
pub open spec fn next_grid_mode(m: DebugGridMode) -> DebugGridMode {
    match m {
        DebugGridMode::Off => DebugGridMode::Large,
        DebugGridMode::Large => DebugGridMode::Small,
        DebugGridMode::Small => DebugGridMode::Both,
        DebugGridMode::Both => DebugGridMode::Off,
    }
}

impl DebugRenderMode {
    /// Advances to the next render mode.
    pub fn cycle(&mut self)
        ensures
            *final(self) == next_render_mode(*old(self)),
    {
        *self = match *self {
            DebugRenderMode::Off => DebugRenderMode::Wireframe,
            DebugRenderMode::Wireframe => DebugRenderMode::Components,
            DebugRenderMode::Components => DebugRenderMode::Full,
            DebugRenderMode::Full => DebugRenderMode::Off,
        };
    }
}

impl DebugGridMode {
    /// Advances to the next grid mode.
    pub fn cycle(&mut self)
        ensures
            *final(self) == next_grid_mode(*old(self)),
    {
        *self = match *self {
            DebugGridMode::Off => DebugGridMode::Large,
            DebugGridMode::Large => DebugGridMode::Small,
            DebugGridMode::Small => DebugGridMode::Both,
            DebugGridMode::Both => DebugGridMode::Off,
        };
    }
}


impl DebugRenderMode {
    /// Maps the numeric code used at the JavaScript boundary to a render mode:
    /// `0` is `Off`, `1` is `Wireframe`, `2` is `Components`, anything else is `Full`.
    pub fn from_code(code: u32) -> (mode: DebugRenderMode)
        ensures
            mode == (if code == 0 {
                DebugRenderMode::Off
            } else if code == 1 {
                DebugRenderMode::Wireframe
            } else if code == 2 {
                DebugRenderMode::Components
            } else {
                DebugRenderMode::Full
            }),
    {
        match code {
            0 => DebugRenderMode::Off,
            1 => DebugRenderMode::Wireframe,
            2 => DebugRenderMode::Components,
            _ => DebugRenderMode::Full,
        }
    }

    /// Whether an entity that has a mesh gets its bounding-box wireframe drawn.
    pub fn draws_wireframe(self, has_mesh: bool) -> (b: bool)
        ensures
            b == ((self == DebugRenderMode::Wireframe || self == DebugRenderMode::Full)
                && has_mesh),
    {
        (self == DebugRenderMode::Wireframe || self == DebugRenderMode::Full) && has_mesh
    }

    /// Whether the transform crosshair and velocity arrow are drawn.
    pub fn draws_components(self) -> (b: bool)
        ensures
            b == (self == DebugRenderMode::Components || self == DebugRenderMode::Full),
    {
        self == DebugRenderMode::Components || self == DebugRenderMode::Full
    }
}

/// How one line of the debug grid is drawn.
#[derive(Debug, Clone, Copy, PartialEq, Eq, Structural)]
pub enum GridLineStyle {
    Hidden,
    Major,
    Minor,
}

/// A grid line is a major line when its integer coordinate is a multiple of ten
/// (Euclidean remainder, so negative coordinates behave like positive ones).
pub open spec fn spec_is_major_grid_line(coord: i32) -> bool {
    (coord as int) % 10 == 0
}

/// Whether the grid line at the integer coordinate `coord` is a major line.
pub fn is_major_grid_line(coord: i32) -> (b: bool)
    ensures
        b == spec_is_major_grid_line(coord),
{
    coord % 10 == 0
}

/// The style of a grid line under a grid mode.
pub open spec fn spec_grid_line_style(mode: DebugGridMode, is_major: bool) -> GridLineStyle {
    match mode {
        DebugGridMode::Off => GridLineStyle::Hidden,
        DebugGridMode::Large => if is_major {
            GridLineStyle::Major
        } else {
            GridLineStyle::Hidden
        },
        DebugGridMode::Small => GridLineStyle::Minor,
        DebugGridMode::Both => if is_major {
            GridLineStyle::Major
        } else {
            GridLineStyle::Minor
        },
    }
}

/// Decides whether a grid line is drawn and with which colour: `Large` shows only
/// the major lines, `Small` shows every line in the minor colour, `Both` shows every
/// line with major lines highlighted, and `Off` shows nothing.
pub fn grid_line_style(mode: DebugGridMode, is_major: bool) -> (style: GridLineStyle)
    ensures
        style == spec_grid_line_style(mode, is_major),
{
    match mode {
        DebugGridMode::Off => GridLineStyle::Hidden,
        DebugGridMode::Large => if is_major {
            GridLineStyle::Major
        } else {
            GridLineStyle::Hidden
        },
        DebugGridMode::Small => GridLineStyle::Minor,
        DebugGridMode::Both => if is_major {
            GridLineStyle::Major
        } else {
            GridLineStyle::Minor
        },
    }
}

/// Cycling the render mode four times returns to the starting mode, and the four
/// intermediate modes are pairwise distinct (the cycle visits every mode).
pub proof fn lemma_render_mode_cycle_period(m: DebugRenderMode)
    ensures
        next_render_mode(next_render_mode(next_render_mode(next_render_mode(m)))) == m,
        next_render_mode(m) != m,
        next_render_mode(next_render_mode(m)) != m,
        next_render_mode(next_render_mode(next_render_mode(m))) != m,
{
}

/// Cycling the grid mode four times returns to the starting mode, and the four
/// intermediate modes are pairwise distinct (the cycle visits every mode).
pub proof fn lemma_grid_mode_cycle_period(m: DebugGridMode)
    ensures
        next_grid_mode(next_grid_mode(next_grid_mode(next_grid_mode(m)))) == m,
        next_grid_mode(m) != m,
        next_grid_mode(next_grid_mode(m)) != m,
        next_grid_mode(next_grid_mode(next_grid_mode(m))) != m,
{
}

} // verus!
