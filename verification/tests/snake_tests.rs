use snake::draw::{Color, Draw, Glyph};
use snake::game::{command_for, Command, Game, Key};
use snake::geometry::{shape_computable, shape_of, Dir, Pos, Var};
use snake::map::GameMap;
use snake::snake::Snake;

const FG: Color = Color::Rgb { r: 66, g: 111, b: 227 };
const LIGHT: Color = Color::Rgb { r: 170, g: 215, b: 81 };
const DARK: Color = Color::Rgb { r: 162, g: 209, b: 73 };

fn body(s: &Snake) -> Vec<Pos> {
    (0..s.len()).map(|i| s.sget(i)).collect()
}

fn p(x: u16, y: u16) -> Pos {
    Pos::new(x, y)
}

#[test]
fn pos_new_keeps_coordinates() {
    let q = Pos::new(7, 9);
    assert_eq!(q.x, 7);
    assert_eq!(q.y, 9);
}

#[test]
fn new_snake_lies_left_of_its_head_and_moves_right() {
    let s = Snake::new(3, 1);
    assert_eq!(body(&s), vec![p(1, 1), p(2, 1), p(3, 1)]);
    assert_eq!(s.get_dir(), Dir::Right);
    let s = Snake::new(2, 0);
    assert_eq!(body(&s), vec![p(0, 0), p(1, 0), p(2, 0)]);
}

#[test]
fn move_full_adds_head_and_returns_old_tail() {
    let mut s = Snake::new(3, 1);
    let tail = s.move_full();
    assert_eq!(tail, p(1, 1));
    assert_eq!(body(&s), vec![p(2, 1), p(3, 1), p(4, 1)]);
    s.set_dir(Dir::Down);
    assert_eq!(s.move_full(), p(2, 1));
    assert_eq!(body(&s), vec![p(3, 1), p(4, 1), p(4, 2)]);
    s.set_dir(Dir::Left);
    assert_eq!(s.move_full(), p(3, 1));
    assert_eq!(body(&s), vec![p(4, 1), p(4, 2), p(3, 2)]);
    s.set_dir(Dir::Up);
    assert_eq!(s.move_full(), p(4, 1));
    assert_eq!(body(&s), vec![p(4, 2), p(3, 2), p(3, 1)]);
    assert_eq!(s.len(), 3);
}

#[test]
fn can_move_refuses_steps_out_of_range() {
    let mut s = Snake::new(2, 0);
    assert!(s.can_move());
    s.set_dir(Dir::Up);
    assert!(!s.can_move());
    let mut s = Snake::new(u16::MAX, 5);
    assert!(!s.can_move());
    s.set_dir(Dir::Left);
    assert!(s.can_move());
    let mut s = Snake::new(2, u16::MAX);
    s.set_dir(Dir::Down);
    assert!(!s.can_move());
    let mut s = Snake::new(2, 4);
    s.set_dir(Dir::Left);
    s.move_full();
    s.set_dir(Dir::Up);
    assert!(s.can_move());
}

#[test]
fn get_var_names_the_sides_of_the_neighbours() {
    let mut s = Snake::new(3, 1);
    assert_eq!(s.get_var(1), Var::Lr);
    s.set_dir(Dir::Down);
    s.move_full();
    // tail (2,1), middle (3,1), head (3,2): left and down
    assert_eq!(s.get_var(1), Var::Ld);
    s.move_full();
    // (3,1), (3,2), (3,3): up and down
    assert_eq!(s.get_var(1), Var::Ud);
    s.set_dir(Dir::Right);
    s.move_full();
    // (3,2), (3,3), (4,3): up and right
    assert_eq!(s.get_var(1), Var::Ur);
    s.set_dir(Dir::Up);
    s.move_full();
    // (3,3), (4,3), (4,2): left and up
    assert_eq!(s.get_var(1), Var::Lu);
    s.set_dir(Dir::Right);
    s.move_full();
    // (4,3), (4,2), (5,2): down and right
    assert_eq!(s.get_var(1), Var::Dr);
}

#[test]
fn shape_is_the_same_read_from_either_end() {
    let cases = [
        (p(1, 1), p(2, 1), p(3, 1), Var::Lr),
        (p(3, 1), p(3, 2), p(3, 3), Var::Ud),
        (p(1, 2), p(2, 2), p(2, 1), Var::Lu),
        (p(1, 2), p(2, 2), p(2, 3), Var::Ld),
        (p(2, 1), p(2, 2), p(3, 2), Var::Ur),
        (p(2, 3), p(2, 2), p(3, 2), Var::Dr),
    ];
    for (a, c, b, v) in cases {
        assert_eq!(shape_of(a, c, b), v);
        assert_eq!(shape_of(b, c, a), v);
    }
}

#[test]
fn shape_of_a_doubled_back_segment() {
    // both neighbours on the same side: no pair of sides, and the tests fall
    // through to `Dr`
    assert_eq!(shape_of(p(1, 1), p(2, 1), p(1, 1)), Var::Dr);
}

#[test]
fn tail_arrow_is_the_same_in_full_and_step_redraw() {
    let map = GameMap::new(10, 10);
    let mut s = Snake::new(3, 2);
    s.set_dir(Dir::Down);
    let (last, dead) = s.step(&map);
    // body (2,2) (3,2) (3,3): tail left of the next segment, arrow points left
    let full = s.display_full();
    let step = s.display(last, dead);
    assert_eq!(&full[2..4], &[Draw::MoveTo(5, 3), Draw::Print(Glyph::ArrowLeft)]);
    assert_eq!(&step[4..6], &full[2..4]);
}

#[test]
fn shape_computable_detects_u16_overflow() {
    // the first test computes prev.x + 1
    assert!(!shape_computable(p(u16::MAX, 0), p(0, 0), p(0, 1)));
    // a vertical body on column 0: the test prev.x - 1 underflows
    assert!(!shape_computable(p(0, 4), p(0, 5), p(0, 6)));
    // a horizontal body away from the edges is fine
    assert!(shape_computable(p(1, 1), p(2, 1), p(3, 1)));
    // short-circuit: next.x - 1 is not computed when prev.x + 1 != cur.x, and
    // prev.x - 1 == cur.x holds, so next.x + 1 is computed instead
    assert!(shape_computable(p(2, 1), p(1, 1), p(0, 1)));
}

#[test]
fn is_dead_when_head_leaves_the_field() {
    let map = GameMap::new(4, 2);
    let mut s = Snake::new(3, 1);
    assert!(!s.is_dead(&map));
    s.move_full();
    assert!(!s.is_dead(&map)); // head (4,1)
    s.move_full();
    assert!(s.is_dead(&map)); // head (5,1)
    let s = Snake::new(3, 0);
    assert!(s.is_dead(&map)); // row 0
    let mut s = Snake::new(3, 2);
    assert!(!s.is_dead(&map));
    s.set_dir(Dir::Down);
    s.move_full();
    assert!(s.is_dead(&map)); // row 3 > height
    let s = Snake::new(2, 1);
    let mut s2 = s;
    s2.set_dir(Dir::Left);
    s2.move_full();
    s2.move_full();
    assert!(s2.is_dead(&map)); // column 0
}

#[test]
fn snake_step_reports_tail_and_death() {
    let map = GameMap::new(4, 4);
    let mut s = Snake::new(3, 1);
    assert_eq!(s.step(&map), (p(1, 1), false));
    assert_eq!(s.step(&map), (p(2, 1), true));
    assert_eq!(body(&s), vec![p(3, 1), p(4, 1), p(5, 1)]);
}

#[test]
fn display_full_of_a_new_snake() {
    let s = Snake::new(3, 1);
    assert!(s.can_display_full());
    let plan = s.display_full();
    let expected = vec![
        Draw::Foreground(FG),
        Draw::Background(LIGHT),
        Draw::MoveTo(3, 2),
        Draw::Print(Glyph::ArrowLeft),
        Draw::Background(DARK),
        Draw::MoveTo(5, 2),
        Draw::Print(Glyph::Segment(Var::Lr)),
        Draw::Background(LIGHT),
        Draw::MoveTo(7, 2),
        Draw::Print(Glyph::ArrowRight),
        Draw::ResetColor,
    ];
    assert_eq!(plan, expected);
}

#[test]
fn display_full_of_a_bent_snake() {
    let mut s = Snake::new(3, 1);
    s.set_dir(Dir::Down);
    s.move_full();
    s.move_full();
    // (3,1) (3,2) (3,3), moving down
    let plan = s.display_full();
    let expected = vec![
        Draw::Foreground(FG),
        Draw::Background(LIGHT),
        Draw::MoveTo(7, 2),
        Draw::Print(Glyph::ArrowUp),
        Draw::Background(DARK),
        Draw::MoveTo(7, 3),
        Draw::Print(Glyph::Segment(Var::Ud)),
        Draw::Background(LIGHT),
        Draw::MoveTo(7, 4),
        Draw::Print(Glyph::ArrowDown),
        Draw::ResetColor,
    ];
    assert_eq!(plan, expected);
}

#[test]
fn can_display_full_detects_overflow() {
    // the segment after the tail is on row 0: its `y - 1` test underflows
    let s = Snake::new(3, 0);
    assert!(!s.can_display_full());
    // column 32768 has no terminal column
    let s = Snake::new(32770, 1);
    assert!(!s.can_display_full());
    let s = Snake::new(32767, 1);
    assert!(s.can_display_full());
}

#[test]
fn display_after_a_step() {
    let map = GameMap::new(10, 10);
    let mut s = Snake::new(3, 1);
    let (last, dead) = s.step(&map);
    assert!(s.can_display(last, dead));
    let plan = s.display(last, dead);
    let expected = vec![
        Draw::Foreground(FG),
        Draw::Background(LIGHT),
        Draw::MoveTo(3, 2),
        Draw::Print(Glyph::Blank),
        Draw::MoveTo(5, 2),
        Draw::Print(Glyph::ArrowLeft),
        Draw::MoveTo(7, 2),
        Draw::Print(Glyph::Segment(Var::Lr)),
        Draw::MoveTo(9, 2),
        Draw::Print(Glyph::Hash),
        Draw::ResetColor,
    ];
    assert_eq!(plan, expected);
}

#[test]
fn display_of_a_dead_snake_leaves_the_head_unmarked() {
    let map = GameMap::new(3, 3);
    let mut s = Snake::new(3, 1);
    let (last, dead) = s.step(&map);
    assert!(dead);
    let plan = s.display(last, dead);
    assert_eq!(plan.len(), 9);
    assert_eq!(plan[8], Draw::ResetColor);
    assert!(!plan.contains(&Draw::Print(Glyph::Hash)));
}

#[test]
fn can_display_detects_overflow() {
    let s = Snake::new(3, 1);
    assert!(!s.can_display(p(u16::MAX, 1), false));
    assert!(!s.can_display(p(40000, 1), false));
    assert!(s.can_display(p(0, 1), false));
}

#[test]
fn map_display_of_a_small_field() {
    let m = GameMap::new(2, 1);
    assert!(m.can_display());
    let plan = m.display();
    let h = Draw::Print(Glyph::Horizontal);
    let expected = vec![
        Draw::MoveTo(0, 0),
        Draw::Background(Color::Rgb { r: 60, g: 60, b: 60 }),
        Draw::Foreground(Color::Rgb { r: 200, g: 200, b: 200 }),
        Draw::Print(Glyph::CornerTopLeft),
        h, h, h, h,
        Draw::Print(Glyph::CornerTopRight),
        Draw::MoveTo(0, 1),
        Draw::Print(Glyph::Vertical),
        Draw::MoveTo(5, 1),
        Draw::Print(Glyph::Vertical),
        Draw::MoveTo(0, 2),
        Draw::Print(Glyph::CornerBottomLeft),
        h, h, h, h,
        Draw::Print(Glyph::CornerBottomRight),
        Draw::MoveTo(1, 1),
        Draw::MoveTo(1, 1),
        Draw::Background(LIGHT),
        Draw::Print(Glyph::Blank),
        Draw::MoveTo(3, 1),
        Draw::Background(DARK),
        Draw::Print(Glyph::Blank),
        Draw::MoveTo(1, 1),
        Draw::ResetColor,
    ];
    assert_eq!(plan, expected);
}

#[test]
fn map_cells_form_a_checkerboard() {
    let m = GameMap::new(3, 3);
    let plan = m.display();
    let mut shades = Vec::new();
    for w in plan.windows(3) {
        if let (Draw::MoveTo(c, r), Draw::Background(b), Draw::Print(Glyph::Blank)) = (w[0], w[1], w[2]) {
            shades.push(((c - 1) / 2, r - 1, b));
        }
    }
    assert_eq!(shades.len(), 9);
    for (x, y, b) in shades {
        assert_eq!(b, if (x + y) % 2 == 0 { LIGHT } else { DARK });
    }
}

#[test]
fn erased_tail_gets_the_field_shade() {
    let map = GameMap::new(10, 10);
    let field = map.display();
    let mut s = Snake::new(3, 2);
    let (last, dead) = s.step(&map);
    let plan = s.display(last, dead);
    let blank = [plan[2], plan[1], plan[3]];
    assert!(field.windows(3).any(|w| w == blank));
}

#[test]
fn map_can_display_limits() {
    assert!(GameMap::new(32767, 1).can_display());
    assert!(!GameMap::new(32768, 1).can_display());
    assert!(GameMap::new(1, 65533).can_display());
    assert!(!GameMap::new(1, 65534).can_display());
    assert!(!GameMap::new(30000, 40000).can_display());
    assert!(GameMap::new(0, 65533).can_display());
}

#[test]
fn game_keys_turn_the_snake() {
    assert_eq!(command_for(Key::Esc), Command::Quit);
    assert_eq!(command_for(Key::Char('w')), Command::Turn(Dir::Up));
    assert_eq!(command_for(Key::Char('a')), Command::Turn(Dir::Left));
    assert_eq!(command_for(Key::Char('s')), Command::Turn(Dir::Down));
    assert_eq!(command_for(Key::Char('d')), Command::Turn(Dir::Right));
    assert_eq!(command_for(Key::Char('q')), Command::Ignore);
    assert_eq!(command_for(Key::Up), Command::Ignore);
    assert_eq!(command_for(Key::Enter), Command::Ignore);
}

#[test]
fn game_new_apply_and_step() {
    let mut g = Game::new(20, 20);
    assert_eq!(g.speed, 1);
    assert_eq!(g.map.width, 20);
    assert_eq!(g.map.height, 20);
    assert_eq!(body(&g.snake), vec![p(1, 1), p(2, 1), p(3, 1)]);
    assert!(!g.apply(Command::Turn(Dir::Down)));
    assert_eq!(g.snake.get_dir(), Dir::Down);
    assert!(!g.apply(Command::Ignore));
    assert_eq!(g.step(), (p(1, 1), false));
    assert_eq!(body(&g.snake), vec![p(2, 1), p(3, 1), p(3, 2)]);
    assert!(g.apply(Command::Quit));
}

#[test]
fn glyph_texts() {
    assert_eq!(Glyph::ArrowUp.text(), "/\\");
    assert_eq!(Glyph::ArrowLeft.text(), "<═");
    assert_eq!(Glyph::ArrowDown.text(), "\\/");
    assert_eq!(Glyph::ArrowRight.text(), "═>");
    assert_eq!(Glyph::Segment(Var::Lr).text(), "══");
    assert_eq!(Glyph::Segment(Var::Ud).text(), "││");
    assert_eq!(Glyph::Segment(Var::Lu).text(), "╧┘");
    assert_eq!(Glyph::Segment(Var::Ld).text(), "╤┐");
    assert_eq!(Glyph::Segment(Var::Ur).text(), "└╧");
    assert_eq!(Glyph::Segment(Var::Dr).text(), "┌╤");
    assert_eq!(Glyph::Blank.text(), "  ");
    assert_eq!(Glyph::Hash.text(), "##");
    assert_eq!(Glyph::CornerTopLeft.text(), "┌");
    assert_eq!(Glyph::CornerBottomRight.text(), "┘");
    assert_eq!(Glyph::ExitHint.text(), "Выход: Esc или Q");
}
