use vstd::prelude::*;

use crate::draw::{border_background, border_foreground, cell_shade, Color, Draw, Glyph};

verus! {

/// The playing field: `width` columns and `height` rows of cells.
pub struct GameMap {
    pub width: u16,
    pub height: u16,
}

/// `n` horizontal border pieces.
pub open spec fn hline(n: nat) -> Seq<Draw> {
    Seq::new(n, |i: int| Draw::Print(Glyph::Horizontal))
}

/// The commands for terminal row `y` of the border around a field of `w` by
/// `h` cells: the top edge, a left and a right side piece, or the bottom edge.
pub open spec fn border_row(w: u16, h: u16, y: int) -> Seq<Draw> {
    if y == 0 {
        seq![Draw::Print(Glyph::CornerTopLeft)] + hline((2 * w) as nat) + seq![
            Draw::Print(Glyph::CornerTopRight),
        ]
    } else if y < h + 1 {
        seq![
            Draw::MoveTo(0, y as u16),
            Draw::Print(Glyph::Vertical),
            Draw::MoveTo((2 * w + 1) as u16, y as u16),
            Draw::Print(Glyph::Vertical),
        ]
    } else if y == h + 1 {
        seq![Draw::MoveTo(0, y as u16), Draw::Print(Glyph::CornerBottomLeft)] + hline(
            (2 * w) as nat,
        ) + seq![Draw::Print(Glyph::CornerBottomRight)]
    } else {
        seq![]
    }
}

/// The border rows `0 .. k`.
pub open spec fn border_rows(w: u16, h: u16, k: nat) -> Seq<Draw>
    decreases k,
{
    if k == 0 {
        seq![]
    } else {
        border_rows(w, h, (k - 1) as nat) + border_row(w, h, k - 1)
    }
}

/// The commands that paint field cell (`x`, `y`) in its checkerboard shade.
pub open spec fn cell_cmds(x: int, y: int) -> Seq<Draw> {
    seq![
        Draw::MoveTo((2 * x + 1) as u16, (y + 1) as u16),
        Draw::Background(cell_shade(x, y)),
        Draw::Print(Glyph::Blank),
    ]
}

/// The cells `0 .. k` of field row `y`.
pub open spec fn row_cells(y: int, k: nat) -> Seq<Draw>
    decreases k,
{
    if k == 0 {
        seq![]
    } else {
        row_cells(y, (k - 1) as nat) + cell_cmds(k - 1, y)
    }
}

/// The field rows `0 .. k`, each `w` cells wide and followed by a move back
/// to the start of the row.
pub open spec fn field_rows(w: u16, k: nat) -> Seq<Draw>
    decreases k,
{
    if k == 0 {
        seq![]
    } else {
        field_rows(w, (k - 1) as nat) + row_cells(k - 1, w as nat) + seq![
            Draw::MoveTo(1, k as u16),
        ]
    }
}

/// The drawing of a field of `w` by `h` cells: its border, then every cell.
pub open spec fn map_plan(w: u16, h: u16) -> Seq<Draw> {
    seq![
        Draw::MoveTo(0, 0),
        Draw::Background(border_background()),
        Draw::Foreground(border_foreground()),
    ] + border_rows(w, h, (h + 2) as nat) + seq![Draw::MoveTo(1, 1)] + field_rows(w, h as nat)
        + seq![Draw::ResetColor]
}

/// Every computation of the field drawing stays inside the `u16` range: the
/// row count `h + 2`, the border width `2 * w + 1`, and the shade test `x + y`
/// of the last cell.
pub open spec fn map_plan_fits(w: u16, h: u16) -> bool {
    &&& h + 2 <= u16::MAX
    &&& 2 * w + 1 <= u16::MAX
    &&& (w == 0 || h == 0 || (w - 1) + (h - 1) <= u16::MAX)
}

/// Row `y` holds three commands per cell, and cell `x` of it is painted by
/// the commands at `3 * x`.
pub proof fn lemma_row_cells(y: int, k: nat, x: int)
    requires
        0 <= x < k,
    ensures
        row_cells(y, k).len() == 3 * k,
        row_cells(y, k).subrange(3 * x, 3 * x + 3) == cell_cmds(x, y),
    decreases k,
{
    lemma_row_cells_len(y, k);
    lemma_row_cells_len(y, (k - 1) as nat);
    if x < k - 1 {
        lemma_row_cells(y, (k - 1) as nat, x);
        assert(row_cells(y, k).subrange(3 * x, 3 * x + 3) =~= row_cells(y, (k - 1) as nat).subrange(
            3 * x,
            3 * x + 3,
        ));
    } else {
        assert(row_cells(y, k).subrange(3 * x, 3 * x + 3) =~= cell_cmds(x, y));
    }
}

/// The cells `0 .. k` of a row take three commands each.
pub proof fn lemma_row_cells_len(y: int, k: nat)
    ensures
        row_cells(y, k).len() == 3 * k,
    decreases k,
{
    if k > 0 {
        lemma_row_cells_len(y, (k - 1) as nat);
    }
}

/// Each field row adds `3 * w + 1` commands: its cells and the move back.
pub proof fn lemma_field_rows_grow(w: u16, a: nat, b: nat)
    requires
        a < b,
    ensures
        field_rows(w, a).len() + 3 * w + 1 <= field_rows(w, b).len(),
    decreases b,
{
    lemma_row_cells_len(b - 1, w as nat);
    if a < b - 1 {
        lemma_field_rows_grow(w, a, (b - 1) as nat);
    }
}

/// Within the field rows `0 .. k`, row `y < k` starts right after the rows
/// before it.
pub proof fn lemma_field_row_at(w: u16, k: nat, y: nat)
    requires
        y < k,
    ensures
        field_rows(w, k).subrange(
            field_rows(w, y).len() as int,
            field_rows(w, y).len() + 3 * w,
        ) == row_cells(y as int, w as nat),
    decreases k,
{
    lemma_row_cells_len(y as int, w as nat);
    let start = field_rows(w, y).len() as int;
    if y < k - 1 {
        lemma_field_row_at(w, (k - 1) as nat, y);
        lemma_field_rows_grow(w, y, (k - 1) as nat);
        assert(field_rows(w, k).subrange(start, start + 3 * w) =~= field_rows(
            w,
            (k - 1) as nat,
        ).subrange(start, start + 3 * w));
    } else {
        assert(field_rows(w, k).subrange(start, start + 3 * w) =~= row_cells(y as int, w as nat));
    }
}

/// The field drawing paints every cell (`x`, `y`) of the field with its
/// three commands, one after the other: a move to the cell's place on the
/// screen, its checkerboard shade (light green where `x + y` is even, a
/// darker green where it is odd), and two blanks.
pub proof fn lemma_map_plan_cell(w: u16, h: u16, x: int, y: int)
    requires
        0 <= x < w,
        0 <= y < h,
    ensures
        exists|k: int|
            0 <= k && k + 3 <= map_plan(w, h).len() && #[trigger] map_plan(w, h).subrange(k, k + 3)
                == cell_cmds(x, y),
        cell_cmds(x, y) == seq![
            Draw::MoveTo((2 * x + 1) as u16, (y + 1) as u16),
            Draw::Background(
                if (x + y) % 2 == 0 {
                    Color::Rgb { r: 170, g: 215, b: 81 }
                } else {
                    Color::Rgb { r: 162, g: 209, b: 73 }
                },
            ),
            Draw::Print(Glyph::Blank),
        ],
{
    lemma_row_cells(y, w as nat, x);
    lemma_field_row_at(w, h as nat, y as nat);
    lemma_field_rows_grow(w, y as nat, h as nat);
    let fr = field_rows(w, h as nat);
    let start = field_rows(w, y as nat).len() as int;
    let row = fr.subrange(start, start + 3 * w);
    assert(fr.subrange(start + 3 * x, start + 3 * x + 3) =~= row.subrange(3 * x, 3 * x + 3));
    let a = seq![
        Draw::MoveTo(0, 0),
        Draw::Background(border_background()),
        Draw::Foreground(border_foreground()),
    ] + border_rows(w, h, (h + 2) as nat) + seq![Draw::MoveTo(1, 1)];
    let plan = map_plan(w, h);
    assert(plan =~= a + fr + seq![Draw::ResetColor]);
    let k = a.len() + start + 3 * x;
    assert(plan.subrange(k, k + 3) =~= fr.subrange(start + 3 * x, start + 3 * x + 3));
}

/// The number of commands in border rows `0 .. k`: the top edge takes
/// `2 * w + 2`, each side row 4, and the bottom edge `2 * w + 3`.
pub open spec fn border_offset(w: u16, h: u16, k: nat) -> int {
    if k == 0 {
        0int
    } else if k <= h + 1 {
        2 * w + 2 + 4 * (k - 1)
    } else {
        2 * w + 2 + 4 * h + 2 * w + 3
    }
}

proof fn lemma_border_rows_len(w: u16, h: u16, k: nat)
    requires
        k <= h + 2,
    ensures
        border_rows(w, h, k).len() == border_offset(w, h, k),
    decreases k,
{
    if k > 0 {
        lemma_border_rows_len(w, h, (k - 1) as nat);
    }
}

proof fn lemma_border_row_at(w: u16, h: u16, k: nat, y: nat)
    requires
        y < k <= h + 2,
    ensures
        border_rows(w, h, k).subrange(border_offset(w, h, y), border_offset(w, h, y + 1))
            == border_row(w, h, y as int),
    decreases k,
{
    lemma_border_rows_len(w, h, k);
    lemma_border_rows_len(w, h, (k - 1) as nat);
    lemma_border_rows_len(w, h, y);
    lemma_border_rows_len(w, h, y + 1);
    if y < k - 1 {
        lemma_border_row_at(w, h, (k - 1) as nat, y);
        assert(border_rows(w, h, k).subrange(border_offset(w, h, y), border_offset(w, h, y + 1))
            =~= border_rows(w, h, (k - 1) as nat).subrange(
            border_offset(w, h, y),
            border_offset(w, h, y + 1),
        ));
    } else {
        assert(border_rows(w, h, k).subrange(border_offset(w, h, y), border_offset(w, h, y + 1))
            =~= border_row(w, h, y as int));
    }
}

/// The border around a field of `w` by `h` cells, in grey on dark grey: the
/// top edge is a corner, `2 * w` horizontal pieces and a corner; each of the
/// `h` rows of cells has a side piece in terminal column 0 and another in
/// column `2 * w + 1`; the bottom edge on row `h + 1` is a corner, `2 * w`
/// horizontal pieces and a corner. The drawing ends by resetting the colours.
pub proof fn lemma_map_border(w: u16, h: u16)
    requires
        map_plan_fits(w, h),
    ensures
        map_plan(w, h).subrange(0, 3) == seq![
            Draw::MoveTo(0, 0),
            Draw::Background(Color::Rgb { r: 60, g: 60, b: 60 }),
            Draw::Foreground(Color::Rgb { r: 200, g: 200, b: 200 }),
        ],
        map_plan(w, h).subrange(3, 5 + 2 * w) == seq![Draw::Print(Glyph::CornerTopLeft)]
            + Seq::new((2 * w) as nat, |i: int| Draw::Print(Glyph::Horizontal)) + seq![
            Draw::Print(Glyph::CornerTopRight),
        ],
        forall|y: int|
            1 <= y <= h ==> #[trigger] map_plan(w, h).subrange(
                5 + 2 * w + 4 * (y - 1),
                5 + 2 * w + 4 * y,
            ) == seq![
                Draw::MoveTo(0, y as u16),
                Draw::Print(Glyph::Vertical),
                Draw::MoveTo((2 * w + 1) as u16, y as u16),
                Draw::Print(Glyph::Vertical),
            ],
        map_plan(w, h).subrange(5 + 2 * w + 4 * h, 8 + 4 * w + 4 * h) == seq![
            Draw::MoveTo(0, (h + 1) as u16),
            Draw::Print(Glyph::CornerBottomLeft),
        ] + Seq::new((2 * w) as nat, |i: int| Draw::Print(Glyph::Horizontal)) + seq![
            Draw::Print(Glyph::CornerBottomRight),
        ],
        map_plan(w, h)[8 + 4 * w + 4 * h] == Draw::MoveTo(1, 1),
        map_plan(w, h)[map_plan(w, h).len() - 1] == Draw::ResetColor,
{
    let k = (h + 2) as nat;
    let b = border_rows(w, h, k);
    lemma_border_rows_len(w, h, k);
    let plan = map_plan(w, h);
    let a = seq![
        Draw::MoveTo(0, 0),
        Draw::Background(border_background()),
        Draw::Foreground(border_foreground()),
    ];
    assert(plan =~= a + b + seq![Draw::MoveTo(1, 1)] + field_rows(w, h as nat) + seq![
        Draw::ResetColor,
    ]);
    assert(plan.subrange(0, 3) =~= a);
    lemma_border_row_at(w, h, k, 0);
    assert(plan.subrange(3, 5 + 2 * w) =~= b.subrange(0, border_offset(w, h, 1)));
    assert(border_row(w, h, 0) =~= seq![Draw::Print(Glyph::CornerTopLeft)] + Seq::new(
        (2 * w) as nat,
        |i: int| Draw::Print(Glyph::Horizontal),
    ) + seq![Draw::Print(Glyph::CornerTopRight)]);
    assert forall|y: int| 1 <= y <= h implies #[trigger] plan.subrange(
        5 + 2 * w + 4 * (y - 1),
        5 + 2 * w + 4 * y,
    ) == seq![
        Draw::MoveTo(0, y as u16),
        Draw::Print(Glyph::Vertical),
        Draw::MoveTo((2 * w + 1) as u16, y as u16),
        Draw::Print(Glyph::Vertical),
    ] by {
        lemma_border_row_at(w, h, k, y as nat);
        assert(plan.subrange(5 + 2 * w + 4 * (y - 1), 5 + 2 * w + 4 * y) =~= b.subrange(
            border_offset(w, h, y as nat),
            border_offset(w, h, (y + 1) as nat),
        ));
    }
    lemma_border_row_at(w, h, k, (h + 1) as nat);
    assert(plan.subrange(5 + 2 * w + 4 * h, 8 + 4 * w + 4 * h) =~= b.subrange(
        border_offset(w, h, (h + 1) as nat),
        border_offset(w, h, k),
    ));
    assert(border_row(w, h, h + 1) =~= seq![
        Draw::MoveTo(0, (h + 1) as u16),
        Draw::Print(Glyph::CornerBottomLeft),
    ] + Seq::new((2 * w) as nat, |i: int| Draw::Print(Glyph::Horizontal)) + seq![
        Draw::Print(Glyph::CornerBottomRight),
    ]);
}

fn push_hline(plan: &mut Vec<Draw>, n: u16)
    ensures
        final(plan)@ == old(plan)@ + hline(n as nat),
{
    let mut x: u16 = 0;
    while x < n
        invariant
            0 <= x <= n,
            plan@ == old(plan)@ + hline(x as nat),
        decreases n - x,
    {
        plan.push(Draw::Print(Glyph::Horizontal));
        x = x + 1;
        assert(plan@ =~= old(plan)@ + hline(x as nat));
    }
}

fn push_row_cells(plan: &mut Vec<Draw>, y: u16, w: u16)
    requires
        w == 0 || y + (w - 1) <= u16::MAX,
        2 * w + 1 <= u16::MAX,
        y < u16::MAX,
    ensures
        final(plan)@ == old(plan)@ + row_cells(y as int, w as nat),
{
    let mut x: u16 = 0;
    while x < w
        invariant
            0 <= x <= w,
            w == 0 || y + (w - 1) <= u16::MAX,
            2 * w + 1 <= u16::MAX,
            y < u16::MAX,
            plan@ == old(plan)@ + row_cells(y as int, x as nat),
        decreases w - x,
    {
        let ghost before = plan@;
        plan.push(Draw::MoveTo(x * 2 + 1, y + 1));
        if (y + x) % 2 == 0 {
            plan.push(Draw::Background(Color::Rgb { r: 170, g: 215, b: 81 }));
        } else {
            plan.push(Draw::Background(Color::Rgb { r: 162, g: 209, b: 73 }));
        }
        plan.push(Draw::Print(Glyph::Blank));
        assert(plan@ =~= before + cell_cmds(x as int, y as int));
        x = x + 1;
        assert(plan@ =~= old(plan)@ + row_cells(y as int, x as nat));
    }
}

impl GameMap {
    pub fn new(width: u16, height: u16) -> (m: GameMap)
        ensures
            m.width == width,
            m.height == height,
    {
        GameMap { width, height }
    }

    /// Whether every computation of `display` stays inside the `u16` range.
    pub fn can_display(&self) -> (b: bool)
        ensures
            b == map_plan_fits(self.width, self.height),
    {
        self.height <= u16::MAX - 2 && self.width <= 32767 && (self.width == 0 || self.height == 0
            || (self.width - 1) <= u16::MAX - (self.height - 1))
    }

    /// The commands that draw the field: a border of box-drawing lines around
    /// it, then every cell, two characters wide, in its checkerboard shade.
    pub fn display(&self) -> (plan: Vec<Draw>)
        requires
            map_plan_fits(self.width, self.height),
        ensures
            plan@ == map_plan(self.width, self.height),
    {
        let w = self.width;
        let h = self.height;
        let mut plan: Vec<Draw> = Vec::new();
        plan.push(Draw::MoveTo(0, 0));
        plan.push(Draw::Background(Color::Rgb { r: 60, g: 60, b: 60 }));
        plan.push(Draw::Foreground(Color::Rgb { r: 200, g: 200, b: 200 }));
        let ghost head = plan@;
        let rows = h + 2;
        let mut y: u16 = 0;
        while y < rows
            invariant
                w == self.width,
                h == self.height,
                map_plan_fits(w, h),
                rows == h + 2,
                0 <= y <= rows,
                plan@ == head + border_rows(w, h, y as nat),
            decreases rows - y,
        {
            let ghost before = plan@;
            if y == 0 {
                plan.push(Draw::Print(Glyph::CornerTopLeft));
                push_hline(&mut plan, w * 2);
                plan.push(Draw::Print(Glyph::CornerTopRight));
            } else if y < h + 1 {
                plan.push(Draw::MoveTo(0, y));
                plan.push(Draw::Print(Glyph::Vertical));
                plan.push(Draw::MoveTo(w * 2 + 1, y));
                plan.push(Draw::Print(Glyph::Vertical));
            } else if y == h + 1 {
                plan.push(Draw::MoveTo(0, y));
                plan.push(Draw::Print(Glyph::CornerBottomLeft));
                push_hline(&mut plan, w * 2);
                plan.push(Draw::Print(Glyph::CornerBottomRight));
            }
            assert(plan@ =~= before + border_row(w, h, y as int));
            y = y + 1;
            assert(plan@ =~= head + border_rows(w, h, y as nat));
        }
        plan.push(Draw::MoveTo(1, 1));
        let ghost mid = plan@;
        let mut y: u16 = 0;
        while y < h
            invariant
                w == self.width,
                h == self.height,
                map_plan_fits(w, h),
                0 <= y <= h,
                plan@ == mid + field_rows(w, y as nat),
            decreases h - y,
        {
            let ghost before = plan@;
            push_row_cells(&mut plan, y, w);
            plan.push(Draw::MoveTo(1, y + 1));
            assert(plan@ =~= before + row_cells(y as int, w as nat) + seq![
                Draw::MoveTo(1, (y + 1) as u16),
            ]);
            y = y + 1;
            assert(plan@ =~= mid + field_rows(w, y as nat));
        }
        plan.push(Draw::ResetColor);
        assert(plan@ =~= map_plan(w, h));
        plan
    }
}

} // verus!
