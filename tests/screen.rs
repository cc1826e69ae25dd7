use sdl_gui::geometry::{Color, Point, Segment};
use sdl_gui::input::{classify_events, InputEvent, Keycode, PollOutcome};
use sdl_gui::screen::{check_polygon, to_points, DrawError, Screen};
use sdl_gui::surface::{SurfaceCommand, WindowState};

fn line(x0: i32, y0: i32, x1: i32, y1: i32) -> SurfaceCommand {
    SurfaceCommand::DrawLine(Segment { start: Point::new(x0, y0), end: Point::new(x1, y1) })
}

fn settled(s: &Screen) -> WindowState {
    WindowState {
        position: (s.position.0 as i32, s.position.1 as i32),
        size: s.size,
        title: s.title.clone(),
    }
}

#[test]
fn new_screen_state() {
    let s = Screen::new("demo", 640, 480);
    assert_eq!(s.size, (640, 480));
    assert_eq!(s.position, (0, 0));
    assert_eq!(s.title, "demo");
    assert!(s.commands.is_empty());
}

#[test]
fn clear_then_draw_presents_black() {
    let mut s = Screen::new("t", 10, 10);
    s.draw_polygon(&[(0, 0), (1, 1)], &[1, 2, 3, 4]).unwrap();
    s.take_commands();
    s.clear();
    s.draw();
    assert_eq!(
        s.take_commands(),
        vec![
            SurfaceCommand::SetDrawColor(Color::rgba(0, 0, 0, 255)),
            SurfaceCommand::Clear,
            SurfaceCommand::Present,
        ]
    );
    assert!(s.commands.is_empty());
}

#[test]
fn draw_polygon_rejects_three_channel_color() {
    let mut s = Screen::new("t", 10, 10);
    assert_eq!(
        s.draw_polygon(&[(0, 0), (5, 0), (5, 5)], &[255, 0, 0]),
        Err(DrawError::InvalidColorChannelCount)
    );
    assert!(s.commands.is_empty());
}

#[test]
fn draw_polygon_rejects_single_vertex() {
    let mut s = Screen::new("t", 10, 10);
    assert_eq!(s.draw_polygon(&[(0, 0)], &[255, 0, 0, 255]), Err(DrawError::InsufficientVertices));
    assert!(s.commands.is_empty());
    assert_eq!(
        s.draw_filled_polygon(&[(0, 0)], &[255, 0, 0, 255]),
        Err(DrawError::InsufficientVertices)
    );
    assert!(s.commands.is_empty());
}

#[test]
fn color_is_checked_before_vertices() {
    assert_eq!(check_polygon(&[], &[1, 2, 3, 4, 5]), Err(DrawError::InvalidColorChannelCount));
    assert_eq!(check_polygon(&[(0, 0), (1, 1)], &[1, 2, 3, 4]), Ok(()));
}

#[test]
fn draw_polygon_issues_color_and_lines() {
    let mut s = Screen::new("t", 10, 10);
    s.draw_polygon(&[(0, 0), (4, 0), (0, 3)], &[9, 8, 7, 6]).unwrap();
    assert_eq!(
        s.take_commands(),
        vec![
            SurfaceCommand::SetDrawColor(Color::rgba(9, 8, 7, 6)),
            line(0, 0, 4, 0),
            line(4, 0, 0, 3),
            line(0, 3, 0, 0),
        ]
    );
}

#[test]
fn draw_filled_rectangle_commands() {
    let mut s = Screen::new("t", 20, 20);
    s.draw_filled_polygon(&[(0, 0), (10, 0), (10, 10), (0, 10)], &[1, 1, 1, 1]).unwrap();
    let cmds = s.take_commands();
    assert_eq!(cmds.len(), 11);
    assert_eq!(cmds[0], SurfaceCommand::SetDrawColor(Color::rgba(1, 1, 1, 1)));
    for y in 0..10 {
        assert_eq!(cmds[1 + y as usize], line(0, y, 10, y));
    }
}

#[test]
fn to_points_keeps_order() {
    assert_eq!(to_points(&[(1, 2), (3, 4)]), vec![Point::new(1, 2), Point::new(3, 4)]);
}

#[test]
fn update_applies_changes_and_presents() {
    let mut s = Screen::new("t", 100, 50);
    s.position = (30, 40);
    s.size = (200, 60);
    s.title = String::from("new");
    let actual = WindowState { position: (0, 0), size: (100, 50), title: String::from("t") };
    s.update(&actual);
    assert_eq!(
        s.take_commands(),
        vec![
            SurfaceCommand::SetPosition(30, 40),
            SurfaceCommand::SetSize(200, 60),
            SurfaceCommand::SetTitle(String::from("new")),
            SurfaceCommand::Present,
        ]
    );
}

#[test]
fn update_title_only_does_not_present() {
    let mut s = Screen::new("t", 100, 50);
    let mut actual = settled(&s);
    actual.title = String::from("old");
    s.update(&actual);
    assert_eq!(s.take_commands(), vec![SurfaceCommand::SetTitle(String::from("t"))]);
}

#[test]
fn update_twice_does_not_present_again() {
    let mut s = Screen::new("t", 100, 50);
    s.size = (120, 50);
    let actual = WindowState { position: (5, 5), size: (100, 50), title: String::from("t") };
    s.update(&actual);
    let first = s.take_commands();
    assert_eq!(first.last(), Some(&SurfaceCommand::Present));
    let after = settled(&s);
    s.update(&after);
    assert!(s.take_commands().is_empty());
}

#[test]
fn no_events_no_keys() {
    let s = Screen::new("t", 1, 1);
    assert_eq!(s.get_all_pressed_buttons(&[]), PollOutcome::Keys(Vec::new()));
}

#[test]
fn keys_in_arrival_order() {
    let s = Screen::new("t", 1, 1);
    let events = [
        InputEvent::KeyDown(Keycode(97)),
        InputEvent::Other,
        InputEvent::KeyDown(Keycode(98)),
        InputEvent::KeyDown(Keycode(97)),
    ];
    assert_eq!(
        s.get_all_pressed_buttons(&events),
        PollOutcome::Keys(vec![Keycode(97), Keycode(98), Keycode(97)])
    );
}

#[test]
fn quit_discards_collected_keys() {
    let events = [InputEvent::KeyDown(Keycode(1)), InputEvent::Quit, InputEvent::KeyDown(Keycode(2))];
    assert_eq!(classify_events(&events), PollOutcome::Quit);
}
