use snake::ansi::colored;
use snake::demo::{handle_key_event, print_frame, DemoAction, SCREEN_HEIGHT, SCREEN_WIDTH};
use snake::draw::{Color, Draw, Glyph};
use snake::game::Key;

#[test]
fn demo_keys() {
    assert_eq!(handle_key_event(Key::Esc, true), DemoAction::Quit);
    assert_eq!(handle_key_event(Key::Char('q'), true), DemoAction::Quit);
    assert_eq!(handle_key_event(Key::Char('Q'), true), DemoAction::Quit);
    assert_eq!(handle_key_event(Key::Enter, true), DemoAction::DrawFrame);
    assert_eq!(handle_key_event(Key::Char('x'), true), DemoAction::Echo('x'));
    assert_eq!(handle_key_event(Key::Up, true), DemoAction::CursorUp);
    assert_eq!(handle_key_event(Key::Down, true), DemoAction::CursorDown);
    assert_eq!(handle_key_event(Key::Left, true), DemoAction::CursorLeft);
    assert_eq!(handle_key_event(Key::Right, true), DemoAction::CursorRight);
    assert_eq!(handle_key_event(Key::Other, true), DemoAction::Report);
    assert_eq!(handle_key_event(Key::Esc, false), DemoAction::Ignore);
    assert_eq!(handle_key_event(Key::Char('q'), false), DemoAction::Ignore);
}

#[test]
fn frame_layout() {
    let plan = print_frame();
    let w = SCREEN_WIDTH as usize;
    let h = SCREEN_HEIGHT as usize;
    // 2 + top and bottom rows (1 + w each) + middle rows (1 + 2 + (w - 4)) + 5
    assert_eq!(plan.len(), 2 + 2 * (1 + w) + (h - 2) * (w - 1) + 5);
    assert_eq!(plan[0], Draw::MoveTo(0, 0));
    assert_eq!(plan[1], Draw::Foreground(Color::Magenta));
    assert_eq!(plan[2], Draw::MoveTo(0, 0));
    assert!(plan[3..3 + w].iter().all(|d| *d == Draw::Print(Glyph::Block)));
    assert_eq!(plan[3 + w], Draw::MoveTo(0, 1));
    assert_eq!(plan[4 + w], Draw::Print(Glyph::DoubleBlock));
    assert_eq!(plan[5 + w], Draw::Print(Glyph::Space));
    let n = plan.len();
    assert_eq!(plan[n - 5], Draw::MoveTo(40, 9));
    assert_eq!(plan[n - 4], Draw::Foreground(Color::White));
    assert_eq!(plan[n - 3], Draw::Print(Glyph::ExitHint));
    assert_eq!(plan[n - 2], Draw::MoveTo(0, 0));
    assert_eq!(plan[n - 1], Draw::Foreground(Color::Green));
}

#[test]
fn colored_wraps_text_in_escape_codes() {
    assert_eq!(colored(66, 111, 227, "hi"), "\x1B[38;2;66;111;227mhi\x1B[0m");
    assert_eq!(colored(0, 5, 10, ""), "\x1B[38;2;0;5;10m\x1B[0m");
    assert_eq!(colored(-7, i32::MIN, i32::MAX, "x"), format!("\x1B[38;2;{};{};{}m{}\x1B[0m", -7, i32::MIN, i32::MAX, "x"));
}
