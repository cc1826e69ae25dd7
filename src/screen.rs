use vstd::prelude::*;
use crate::geometry::{black_color, Color, Point, Segment};
use crate::input::{has_quit, key_downs, classify_events, InputEvent, PollOutcome};
use crate::raster::{fill, fill_segments, outline, stroke_segments};
use crate::surface::{apply_window, line_commands, run, Canvas, SurfaceCommand, WindowState};

verus! {

/// Why a polygon was not drawn.
#[derive(Clone, Copy, Debug, PartialEq, Eq, Structural)]
pub enum DrawError {
    /// The color did not have exactly four channels.
    InvalidColorChannelCount,
    /// The polygon had fewer than two vertices.
    InsufficientVertices,
}

/// The vertices of a polygon given as coordinate pairs.
pub open spec fn points_of(vs: Seq<(i32, i32)>) -> Seq<Point> {
    Seq::new(vs.len(), |i: int| Point { x: vs[i].0, y: vs[i].1 })
}

/// The color given by four channel values.
pub open spec fn color_of(c: Seq<u8>) -> Color {
    Color { r: c[0], g: c[1], b: c[2], a: c[3] }
}

/// The check made before any polygon is drawn: the color first, then the
/// number of vertices.
pub open spec fn polygon_check(vertices: Seq<(i32, i32)>, color: Seq<u8>) -> Result<(), DrawError> {
    if color.len() != 4 {
        Err(DrawError::InvalidColorChannelCount)
    } else if vertices.len() < 2 {
        Err(DrawError::InsufficientVertices)
    } else {
        Ok(())
    }
}

/// The commands that `clear` issues.
pub open spec fn clear_commands() -> Seq<SurfaceCommand> {
    seq![SurfaceCommand::SetDrawColor(black_color()), SurfaceCommand::Clear]
}

/// The window position that the desired `position` stands for.
pub open spec fn signed_position(position: (u32, u32)) -> (i32, i32) {
    (position.0 as i32, position.1 as i32)
}

/// The commands that bring a window in state `actual` to the desired
/// geometry and title: position and size where they differ, the title where
/// it differs, and a present when the geometry changed.
pub open spec fn reconcile(
    position: (u32, u32),
    size: (u32, u32),
    title: String,
    actual: WindowState,
) -> Seq<SurfaceCommand> {
    let p = signed_position(position);
    let moved = actual.position != p;
    let resized = actual.size != size;
    let set_pos = if moved { seq![SurfaceCommand::SetPosition(p.0, p.1)] } else { Seq::empty() };
    let set_size = if resized { seq![SurfaceCommand::SetSize(size.0, size.1)] } else { Seq::empty() };
    let set_title = if actual.title@ != title@ {
        seq![SurfaceCommand::SetTitle(title)]
    } else {
        Seq::empty()
    };
    let present = if moved || resized { seq![SurfaceCommand::Present] } else { Seq::empty() };
    set_pos + set_size + set_title + present
}

/// Appends one `DrawLine` command per segment of `segs` to `cmds`.
fn push_lines(cmds: &mut Vec<SurfaceCommand>, segs: &Vec<Segment>)
    ensures
        final(cmds)@ == old(cmds)@ + line_commands(segs@),
{
    let ghost start = cmds@;
    let mut i: usize = 0;
    while i < segs.len()
        invariant
            i <= segs@.len(),
            cmds@ == start + line_commands(segs@).subrange(0, i as int),
        decreases segs@.len() - i,
    {
        cmds.push(SurfaceCommand::DrawLine(segs[i]));
        i += 1;
        assert(cmds@ =~= start + line_commands(segs@).subrange(0, i as int));
    }
    assert(line_commands(segs@).subrange(0, i as int) =~= line_commands(segs@));
}

/// The vertices given as coordinate pairs, as points.
pub fn to_points(vertices: &[(i32, i32)]) -> (r: Vec<Point>)
    ensures
        r@ == points_of(vertices@),
{
    let mut r: Vec<Point> = Vec::new();
    let mut i: usize = 0;
    while i < vertices.len()
        invariant
            i <= vertices@.len(),
            r@ == points_of(vertices@).subrange(0, i as int),
        decreases vertices@.len() - i,
    {
        let (x, y) = vertices[i];
        r.push(Point::new(x, y));
        i += 1;
        assert(r@ =~= points_of(vertices@).subrange(0, i as int));
    }
    assert(r@ =~= points_of(vertices@));
    r
}

/// The checks that precede drawing a polygon.
pub fn check_polygon(vertices: &[(i32, i32)], color: &[u8]) -> (r: Result<(), DrawError>)
    ensures
        r == polygon_check(vertices@, color@),
{
    if color.len() != 4 {
        Err(DrawError::InvalidColorChannelCount)
    } else if vertices.len() < 2 {
        Err(DrawError::InsufficientVertices)
    } else {
        Ok(())
    }
}

/// A drawing surface and its window, as the commands that the back end is
/// to carry out, together with the window geometry and title that the caller
/// wants.
pub struct Screen {
    pub size: (u32, u32),
    pub position: (u32, u32),
    pub title: String,
    /// The commands issued and not yet taken by the back end, oldest first.
    pub commands: Vec<SurfaceCommand>,
}

impl Screen {
    pub open spec fn pending(&self) -> Seq<SurfaceCommand> {
        self.commands@
    }

    /// A screen whose window has the given title and size, at position (0, 0).
    pub fn new(title: &str, width: u32, height: u32) -> (s: Screen)
        ensures
            s.size == (width, height),
            s.position == (0u32, 0u32),
            s.title@ == title@,
            s.pending() == Seq::<SurfaceCommand>::empty(),
    {
        Screen { size: (width, height), position: (0, 0), title: title.to_owned(), commands: Vec::new() }
    }

    /// Hands the pending commands to the back end and forgets them.
    pub fn take_commands(&mut self) -> (r: Vec<SurfaceCommand>)
        ensures
            r@ == old(self).pending(),
            final(self).pending() == Seq::<SurfaceCommand>::empty(),
            final(self).size == old(self).size,
            final(self).position == old(self).position,
            final(self).title == old(self).title,
    {
        let mut r: Vec<SurfaceCommand> = Vec::new();
        std::mem::swap(&mut r, &mut self.commands);
        r
    }

    /// Paints the whole buffer black.
    pub fn clear(&mut self)
        ensures
            final(self).pending() == old(self).pending() + clear_commands(),
            final(self).size == old(self).size,
            final(self).position == old(self).position,
            final(self).title == old(self).title,
    {
        self.commands.push(SurfaceCommand::SetDrawColor(Color::black()));
        self.commands.push(SurfaceCommand::Clear);
        assert(self.commands@ =~= old(self).pending() + clear_commands());
    }

    /// Shows the buffer on the display.
    pub fn draw(&mut self)
        ensures
            final(self).pending() == old(self).pending().push(SurfaceCommand::Present),
            final(self).size == old(self).size,
            final(self).position == old(self).position,
            final(self).title == old(self).title,
    {
        self.commands.push(SurfaceCommand::Present);
    }

    /// Draws the closed outline of the polygon `vertices` in `color`, one
    /// line per vertex. Nothing is drawn when the color does not have four
    /// channels or there are fewer than two vertices.
    pub fn draw_polygon(&mut self, vertices: &[(i32, i32)], color: &[u8]) -> (r: Result<(), DrawError>)
        ensures
            r == polygon_check(vertices@, color@),
            r is Ok ==> final(self).pending() == old(self).pending()
                + seq![SurfaceCommand::SetDrawColor(color_of(color@))]
                + line_commands(outline(points_of(vertices@))),
            r is Err ==> final(self).pending() == old(self).pending(),
            final(self).size == old(self).size,
            final(self).position == old(self).position,
            final(self).title == old(self).title,
    {
        let checked = check_polygon(vertices, color);
        if checked.is_err() {
            return checked;
        }
        let points = to_points(vertices);
        let segs = stroke_segments(&points);
        self.commands.push(SurfaceCommand::SetDrawColor(Color::rgba(color[0], color[1], color[2], color[3])));
        push_lines(&mut self.commands, &segs);
        Ok(())
    }

    /// Fills the polygon `vertices` in `color` by the even-odd scanline rule.
    /// Nothing is drawn when the color does not have four channels or there
    /// are fewer than two vertices.
    pub fn draw_filled_polygon(&mut self, vertices: &[(i32, i32)], color: &[u8]) -> (r: Result<(), DrawError>)
        ensures
            r == polygon_check(vertices@, color@),
            r is Ok ==> final(self).pending() == old(self).pending()
                + seq![SurfaceCommand::SetDrawColor(color_of(color@))]
                + line_commands(fill(points_of(vertices@))),
            r is Err ==> final(self).pending() == old(self).pending(),
            final(self).size == old(self).size,
            final(self).position == old(self).position,
            final(self).title == old(self).title,
    {
        let checked = check_polygon(vertices, color);
        if checked.is_err() {
            return checked;
        }
        let points = to_points(vertices);
        let segs = fill_segments(&points);
        self.commands.push(SurfaceCommand::SetDrawColor(Color::rgba(color[0], color[1], color[2], color[3])));
        push_lines(&mut self.commands, &segs);
        Ok(())
    }

    /// The keys pressed in one drain of the input queue, in arrival order, or
    /// `Quit` when the drain held a quit signal.
    pub fn get_all_pressed_buttons(&self, events: &[InputEvent]) -> (r: PollOutcome)
        ensures
            has_quit(events@) ==> r == PollOutcome::Quit,
            !has_quit(events@) ==> (r matches PollOutcome::Keys(keys) && keys@ == key_downs(events@)),
    {
        classify_events(events)
    }

    /// Brings a window in state `actual` to the desired position, size and
    /// title, and presents again when its geometry changed.
    pub fn update(&mut self, actual: &WindowState)
        ensures
            final(self).pending() == old(self).pending()
                + reconcile(old(self).position, old(self).size, old(self).title, *actual),
            final(self).size == old(self).size,
            final(self).position == old(self).position,
            final(self).title == old(self).title,
    {
        let ghost start = self.commands@;
        let p = (self.position.0 as i32, self.position.1 as i32);
        let moved = actual.position.0 != p.0 || actual.position.1 != p.1;
        let resized = actual.size.0 != self.size.0 || actual.size.1 != self.size.1;
        if moved {
            self.commands.push(SurfaceCommand::SetPosition(p.0, p.1));
        }
        if resized {
            self.commands.push(SurfaceCommand::SetSize(self.size.0, self.size.1));
        }
        if actual.title != self.title {
            self.commands.push(SurfaceCommand::SetTitle(self.title.clone()));
        }
        if moved || resized {
            self.commands.push(SurfaceCommand::Present);
        }
        assert(self.commands@ =~= start + reconcile(self.position, self.size, self.title, *actual));
    }
}

/// Drawing the outline of a polygon with `n >= 2` vertices issues exactly `n`
/// lines, the last one closing the outline from the last vertex to the first.
pub proof fn stroke_issues_one_line_per_vertex(vertices: Seq<(i32, i32)>)
    requires
        vertices.len() >= 2,
    ensures
        line_commands(outline(points_of(vertices))).len() == vertices.len(),
        forall|i: int|
            0 <= i < vertices.len() ==> #[trigger] line_commands(outline(points_of(vertices)))[i]
                == SurfaceCommand::DrawLine(
                Segment {
                    start: points_of(vertices)[i],
                    end: points_of(vertices)[(i + 1) % vertices.len() as int],
                },
            ),
{
}

/// Clearing and then presenting, with no drawing in between, shows a plain
/// black picture, whatever was issued and drawn before.
pub proof fn clear_then_draw_shows_black(c: Canvas, earlier: Seq<SurfaceCommand>)
    ensures
        run(c, earlier + clear_commands() + seq![SurfaceCommand::Present]).shown == Some(
            (black_color(), Seq::<(Segment, Color)>::empty()),
        ),
{
    reveal_with_fuel(run, 4);
    let all = earlier + clear_commands() + seq![SurfaceCommand::Present];
    assert(all.drop_last() =~= earlier + clear_commands());
    assert(all.drop_last().drop_last() =~= earlier.push(SurfaceCommand::SetDrawColor(black_color())));
    assert(all.drop_last().drop_last().drop_last() =~= earlier);
}

/// Once the window has the desired position, size and title, reconciling
/// issues nothing, and in particular does not present.
pub proof fn reconcile_settled_is_empty(position: (u32, u32), size: (u32, u32), title: String, actual: WindowState)
    requires
        actual.position == signed_position(position),
        actual.size == size,
        actual.title@ == title@,
    ensures
        reconcile(position, size, title, actual) == Seq::<SurfaceCommand>::empty(),
{
    assert(reconcile(position, size, title, actual) =~= Seq::<SurfaceCommand>::empty());
}

/// Updating twice in a row with the same desired position, size and title
/// presents at most once: after the back end carries out the first update's
/// commands, the second update issues nothing.
pub proof fn update_twice_presents_once(position: (u32, u32), size: (u32, u32), title: String, actual: WindowState)
    ensures
        reconcile(
            position,
            size,
            title,
            apply_window(actual, reconcile(position, size, title, actual)),
        ) == Seq::<SurfaceCommand>::empty(),
{
    reveal_with_fuel(apply_window, 5);
    let cmds = reconcile(position, size, title, actual);
    let w = apply_window(actual, cmds);
    assert(w.position == signed_position(position) && w.size == size && w.title@ == title@) by {
        let p = signed_position(position);
        let moved = actual.position != p;
        let resized = actual.size != size;
        let retitled = actual.title@ != title@;
        let a = if moved { seq![SurfaceCommand::SetPosition(p.0, p.1)] } else { Seq::empty() };
        let b = if resized { seq![SurfaceCommand::SetSize(size.0, size.1)] } else { Seq::empty() };
        let t = if retitled { seq![SurfaceCommand::SetTitle(title)] } else { Seq::empty() };
        let d = if moved || resized { seq![SurfaceCommand::Present] } else { Seq::empty() };
        assert(cmds == a + b + t + d);
        let ab = a + b;
        let abt = ab + t;
        if moved || resized {
            assert(cmds.drop_last() =~= abt);
        } else {
            assert(cmds =~= abt);
        }
        if retitled {
            assert(abt.drop_last() =~= ab);
        } else {
            assert(abt =~= ab);
        }
        if resized {
            assert(ab.drop_last() =~= a);
        } else {
            assert(ab =~= a);
        }
        if moved {
            assert(a.drop_last() =~= Seq::<SurfaceCommand>::empty());
        }
    }
    reconcile_settled_is_empty(position, size, title, w);
}

} // verus!
