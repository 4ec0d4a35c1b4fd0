use vstd::prelude::*;

use crate::draw::{Color, Draw, Glyph};
use crate::game::Key;

verus! {

/// Width of the frame demo's screen, in characters.
pub const SCREEN_WIDTH: u16 = 100;

/// Height of the frame demo's screen, in rows.
pub const SCREEN_HEIGHT: u16 = 20;

/// What the frame demo does on a key.
#[derive(Clone, Copy, Debug, PartialEq, Eq, Structural)]
pub enum DemoAction {
    /// Restore the terminal and leave.
    Quit,
    /// Draw the frame again.
    DrawFrame,
    /// Print the typed character at the cursor.
    Echo(char),
    CursorUp,
    CursorDown,
    CursorLeft,
    CursorRight,
    /// Print a line naming the key.
    Report,
    /// Nothing: the key was released or repeated, not pressed.
    Ignore,
}

/// The frame demo's key bindings, for a key event that is a press or not.
pub open spec fn demo_key_action(key: Key, pressed: bool) -> DemoAction {
    if !pressed {
        DemoAction::Ignore
    } else {
        match key {
            Key::Esc => DemoAction::Quit,
            Key::Enter => DemoAction::DrawFrame,
            Key::Char('q') | Key::Char('Q') => DemoAction::Quit,
            Key::Char(ch) => DemoAction::Echo(ch),
            Key::Down => DemoAction::CursorDown,
            Key::Up => DemoAction::CursorUp,
            Key::Left => DemoAction::CursorLeft,
            Key::Right => DemoAction::CursorRight,
            Key::Other => DemoAction::Report,
        }
    }
}

/// Only key presses act: a release or a repeat of any key does nothing, and
/// every press does something.
pub proof fn lemma_only_presses_act()
    ensures
        forall|key: Key| #[trigger] demo_key_action(key, false) == DemoAction::Ignore,
        forall|key: Key| #[trigger] demo_key_action(key, true) != DemoAction::Ignore,
        demo_key_action(Key::Esc, true) == DemoAction::Quit,
        demo_key_action(Key::Char('q'), true) == DemoAction::Quit,
        demo_key_action(Key::Char('Q'), true) == DemoAction::Quit,
        forall|c: char|
            c != 'q' && c != 'Q' ==> #[trigger] demo_key_action(Key::Char(c), true)
                == DemoAction::Echo(c),
{
}

/// The action of the frame demo for a key event.
pub fn handle_key_event(key: Key, pressed: bool) -> (a: DemoAction)
    ensures
        a == demo_key_action(key, pressed),
{
    if pressed {
        match key {
            Key::Esc => DemoAction::Quit,
            Key::Enter => DemoAction::DrawFrame,
            Key::Char('q') | Key::Char('Q') => DemoAction::Quit,
            Key::Char(ch) => DemoAction::Echo(ch),
            Key::Down => DemoAction::CursorDown,
            Key::Up => DemoAction::CursorUp,
            Key::Left => DemoAction::CursorLeft,
            Key::Right => DemoAction::CursorRight,
            Key::Other => DemoAction::Report,
        }
    } else {
        DemoAction::Ignore
    }
}

/// `n` copies of the command `d`.
pub open spec fn repeat(d: Draw, n: nat) -> Seq<Draw> {
    Seq::new(n, |i: int| d)
}

/// Row `y` of the frame: the top and bottom rows are solid blocks, the
/// others have a double block at each end and blanks between.
pub open spec fn frame_row(y: u16) -> Seq<Draw> {
    seq![Draw::MoveTo(0, y)] + if y == 0 || y == SCREEN_HEIGHT - 1 {
        repeat(Draw::Print(Glyph::Block), SCREEN_WIDTH as nat)
    } else {
        seq![Draw::Print(Glyph::DoubleBlock)] + repeat(
            Draw::Print(Glyph::Space),
            (SCREEN_WIDTH - 4) as nat,
        ) + seq![Draw::Print(Glyph::DoubleBlock)]
    }
}

/// The frame rows `0 .. k`.
pub open spec fn frame_rows(k: nat) -> Seq<Draw>
    decreases k,
{
    if k == 0 {
        seq![]
    } else {
        frame_rows((k - 1) as nat) + frame_row((k - 1) as u16)
    }
}

/// The frame demo's screen: a magenta frame, the exit hint in white near the
/// centre, and the cursor back at the top left with green text.
pub open spec fn frame_plan() -> Seq<Draw> {
    seq![Draw::MoveTo(0, 0), Draw::Foreground(Color::Magenta)] + frame_rows(SCREEN_HEIGHT as nat)
        + seq![
        Draw::MoveTo((SCREEN_WIDTH / 2 - 10) as u16, (SCREEN_HEIGHT / 2 - 1) as u16),
        Draw::Foreground(Color::White),
        Draw::Print(Glyph::ExitHint),
        Draw::MoveTo(0, 0),
        Draw::Foreground(Color::Green),
    ]
}

/// The number of commands in the frame rows `0 .. k`: the solid top row
/// takes 101, each row between 99, and the solid bottom row 101.
pub open spec fn frame_offset(k: nat) -> int {
    if k == 0 {
        0int
    } else if k <= 19 {
        101 + (k - 1) * 99
    } else {
        1984int
    }
}

proof fn lemma_frame_rows_len(k: nat)
    requires
        k <= 20,
    ensures
        frame_rows(k).len() == frame_offset(k),
    decreases k,
{
    if k > 0 {
        lemma_frame_rows_len((k - 1) as nat);
    }
}

proof fn lemma_frame_row_at(k: nat, y: nat)
    requires
        y < k <= 20,
    ensures
        frame_rows(k).subrange(frame_offset(y), frame_offset(y + 1)) == frame_row(y as u16),
    decreases k,
{
    lemma_frame_rows_len(k);
    lemma_frame_rows_len((k - 1) as nat);
    lemma_frame_rows_len(y);
    lemma_frame_rows_len(y + 1);
    if y < k - 1 {
        lemma_frame_row_at((k - 1) as nat, y);
        assert(frame_rows(k).subrange(frame_offset(y), frame_offset(y + 1)) =~= frame_rows(
            (k - 1) as nat,
        ).subrange(frame_offset(y), frame_offset(y + 1)));
    } else {
        assert(frame_rows(k).subrange(frame_offset(y), frame_offset(y + 1)) =~= frame_row(
            y as u16,
        ));
    }
}

/// The frame demo's screen, row by row: terminal rows 0 and 19 are solid rows
/// of 100 blocks, each row strictly between them is a double block, 96 blanks
/// and a double block, all in magenta; then the exit hint in white at column
/// 40 of row 9, and the cursor back home with green text.
pub proof fn lemma_frame_layout()
    ensures
        frame_plan().len() == 1991,
        frame_plan()[0] == Draw::MoveTo(0, 0),
        frame_plan()[1] == Draw::Foreground(Color::Magenta),
        frame_plan().subrange(2, 103) == seq![Draw::MoveTo(0, 0)] + Seq::new(
            100,
            |i: int| Draw::Print(Glyph::Block),
        ),
        forall|y: int|
            1 <= y <= 18 ==> #[trigger] frame_plan().subrange(103 + (y - 1) * 99, 103 + y * 99)
                == seq![Draw::MoveTo(0, y as u16), Draw::Print(Glyph::DoubleBlock)] + Seq::new(
                96,
                |i: int| Draw::Print(Glyph::Space),
            ) + seq![Draw::Print(Glyph::DoubleBlock)],
        frame_plan().subrange(1885, 1986) == seq![Draw::MoveTo(0, 19)] + Seq::new(
            100,
            |i: int| Draw::Print(Glyph::Block),
        ),
        frame_plan().subrange(1986, 1991) == seq![
            Draw::MoveTo(40, 9),
            Draw::Foreground(Color::White),
            Draw::Print(Glyph::ExitHint),
            Draw::MoveTo(0, 0),
            Draw::Foreground(Color::Green),
        ],
{
    let rows = frame_rows(20);
    lemma_frame_rows_len(20);
    let plan = frame_plan();
    assert(plan =~= seq![Draw::MoveTo(0, 0), Draw::Foreground(Color::Magenta)] + rows + seq![
        Draw::MoveTo(40, 9),
        Draw::Foreground(Color::White),
        Draw::Print(Glyph::ExitHint),
        Draw::MoveTo(0, 0),
        Draw::Foreground(Color::Green),
    ]);
    lemma_frame_row_at(20, 0);
    assert(plan.subrange(2, 103) =~= rows.subrange(0, 101));
    assert(frame_row(0) =~= seq![Draw::MoveTo(0, 0)] + Seq::new(
        100,
        |i: int| Draw::Print(Glyph::Block),
    ));
    assert forall|y: int| 1 <= y <= 18 implies #[trigger] plan.subrange(
        103 + (y - 1) * 99,
        103 + y * 99,
    ) == seq![Draw::MoveTo(0, y as u16), Draw::Print(Glyph::DoubleBlock)] + Seq::new(
        96,
        |i: int| Draw::Print(Glyph::Space),
    ) + seq![Draw::Print(Glyph::DoubleBlock)] by {
        lemma_frame_row_at(20, y as nat);
        assert(plan.subrange(103 + (y - 1) * 99, 103 + y * 99) =~= rows.subrange(
            frame_offset(y as nat),
            frame_offset((y + 1) as nat),
        ));
        assert(frame_row(y as u16) =~= seq![
            Draw::MoveTo(0, y as u16),
            Draw::Print(Glyph::DoubleBlock),
        ] + Seq::new(96, |i: int| Draw::Print(Glyph::Space)) + seq![
            Draw::Print(Glyph::DoubleBlock),
        ]);
    }
    lemma_frame_row_at(20, 19);
    assert(plan.subrange(1885, 1986) =~= rows.subrange(frame_offset(19), frame_offset(20)));
    assert(frame_row(19) =~= seq![Draw::MoveTo(0, 19)] + Seq::new(
        100,
        |i: int| Draw::Print(Glyph::Block),
    ));
    assert(plan.subrange(1986, 1991) =~= seq![
        Draw::MoveTo(40, 9),
        Draw::Foreground(Color::White),
        Draw::Print(Glyph::ExitHint),
        Draw::MoveTo(0, 0),
        Draw::Foreground(Color::Green),
    ]);
}

fn push_repeat(plan: &mut Vec<Draw>, d: Draw, n: u16)
    ensures
        final(plan)@ == old(plan)@ + repeat(d, n as nat),
{
    let mut k: u16 = 0;
    while k < n
        invariant
            0 <= k <= n,
            plan@ == old(plan)@ + repeat(d, k as nat),
        decreases n - k,
    {
        plan.push(d);
        k = k + 1;
        assert(plan@ =~= old(plan)@ + repeat(d, k as nat));
    }
}

/// The commands that draw the frame demo's screen.
pub fn print_frame() -> (plan: Vec<Draw>)
    ensures
        plan@ == frame_plan(),
{
    let mut plan: Vec<Draw> = Vec::new();
    plan.push(Draw::MoveTo(0, 0));
    plan.push(Draw::Foreground(Color::Magenta));
    let ghost head = plan@;
    let mut y: u16 = 0;
    while y < SCREEN_HEIGHT
        invariant
            0 <= y <= SCREEN_HEIGHT,
            plan@ == head + frame_rows(y as nat),
        decreases SCREEN_HEIGHT - y,
    {
        let ghost before = plan@;
        plan.push(Draw::MoveTo(0, y));
        if y == 0 || y == SCREEN_HEIGHT - 1 {
            push_repeat(&mut plan, Draw::Print(Glyph::Block), SCREEN_WIDTH);
        } else {
            plan.push(Draw::Print(Glyph::DoubleBlock));
            push_repeat(&mut plan, Draw::Print(Glyph::Space), SCREEN_WIDTH - 4);
            plan.push(Draw::Print(Glyph::DoubleBlock));
        }
        assert(plan@ =~= before + frame_row(y));
        y = y + 1;
        assert(plan@ =~= head + frame_rows(y as nat));
    }
    plan.push(Draw::MoveTo(SCREEN_WIDTH / 2 - 10, SCREEN_HEIGHT / 2 - 1));
    plan.push(Draw::Foreground(Color::White));
    plan.push(Draw::Print(Glyph::ExitHint));
    plan.push(Draw::MoveTo(0, 0));
    plan.push(Draw::Foreground(Color::Green));
    assert(plan@ =~= frame_plan());
    plan
}

} // verus!
