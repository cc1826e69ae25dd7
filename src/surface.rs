use vstd::prelude::*;
use crate::geometry::{Color, Segment};

verus! {

/// One operation on the drawing surface, in the order the back end performs it.
#[derive(Clone, Debug, PartialEq, Eq)]
pub enum SurfaceCommand {
    SetDrawColor(Color),
    DrawLine(Segment),
    Clear,
    Present,
    SetPosition(i32, i32),
    SetSize(u32, u32),
    SetTitle(String),
}

/// The window properties that the back end reports.
#[derive(Debug, PartialEq, Eq)]
pub struct WindowState {
    pub position: (i32, i32),
    pub size: (u32, u32),
    pub title: String,
}

/// An abstract picture of the surface: the current draw color, the color the
/// buffer was last cleared to, the lines drawn since, and what was last
/// presented.
pub struct Canvas {
    pub draw_color: Color,
    pub background: Color,
    pub lines: Seq<(Segment, Color)>,
    pub shown: Option<(Color, Seq<(Segment, Color)>)>,
}

/// The effect of one command on the surface; window commands leave the
/// picture alone.
pub open spec fn step(c: Canvas, cmd: SurfaceCommand) -> Canvas {
    match cmd {
        SurfaceCommand::SetDrawColor(col) => Canvas { draw_color: col, ..c },
        SurfaceCommand::DrawLine(s) => Canvas { lines: c.lines.push((s, c.draw_color)), ..c },
        SurfaceCommand::Clear => Canvas { background: c.draw_color, lines: Seq::empty(), ..c },
        SurfaceCommand::Present => Canvas { shown: Some((c.background, c.lines)), ..c },
        _ => c,
    }
}

/// The surface after running `cmds` in order from `c`.
pub open spec fn run(c: Canvas, cmds: Seq<SurfaceCommand>) -> Canvas
    decreases cmds.len(),
{
    if cmds.len() == 0 {
        c
    } else {
        step(run(c, cmds.drop_last()), cmds.last())
    }
}

/// One `DrawLine` command per segment, in order.
pub open spec fn line_commands(segs: Seq<Segment>) -> Seq<SurfaceCommand> {
    Seq::new(segs.len(), |i: int| SurfaceCommand::DrawLine(segs[i]))
}

/// The effect of one command on the window's properties.
pub open spec fn window_step(w: WindowState, cmd: SurfaceCommand) -> WindowState {
    match cmd {
        SurfaceCommand::SetPosition(x, y) => WindowState { position: (x, y), ..w },
        SurfaceCommand::SetSize(width, height) => WindowState { size: (width, height), ..w },
        SurfaceCommand::SetTitle(t) => WindowState { title: t, ..w },
        _ => w,
    }
}

/// The window's properties after the back end carries out `cmds` in order.
pub open spec fn apply_window(w: WindowState, cmds: Seq<SurfaceCommand>) -> WindowState
    decreases cmds.len(),
{
    if cmds.len() == 0 {
        w
    } else {
        window_step(apply_window(w, cmds.drop_last()), cmds.last())
    }
}

} // verus!
