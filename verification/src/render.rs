use vstd::prelude::*;

use crate::draw::{cell_shade, glyph_text, snake_color, Color, Draw, Glyph};
use crate::geometry::{
    adjacent, lemma_shape_joins_neighbour_sides, shape, shape_computable, shape_fits, side_of,
    var_of_sides, Dir, Pos,
};
use crate::snake::{connected, linked};
use crate::map::{lemma_map_plan_cell, map_plan, map_plan_fits};
use crate::snake::Snake;

verus! {

/// The terminal column of the left half of cell `p`: every cell is two
/// characters wide and column 0 holds the border.
pub open spec fn screen_col(p: Pos) -> u16 {
    (2 * p.x + 1) as u16
}

/// The terminal row of cell `p`: row 0 holds the border.
pub open spec fn screen_row(p: Pos) -> u16 {
    (p.y + 1) as u16
}

/// The terminal position of cell `p` can be computed on `u16`.
pub open spec fn screen_fits(p: Pos) -> bool {
    2 * p.x + 1 <= u16::MAX && p.y + 1 <= u16::MAX
}

/// The shade of cell `p` can be computed on `u16`.
pub open spec fn shade_fits(p: Pos) -> bool {
    p.x + p.y <= u16::MAX
}

/// Print glyph `g` on cell `p`.
pub open spec fn put(p: Pos, g: Glyph) -> Seq<Draw> {
    seq![Draw::MoveTo(screen_col(p), screen_row(p)), Draw::Print(g)]
}

/// The arrow drawn for the head: it points in the direction of motion.
pub open spec fn head_glyph(d: Dir) -> Glyph {
    match d {
        Dir::Up => Glyph::ArrowUp,
        Dir::Left => Glyph::ArrowLeft,
        Dir::Down => Glyph::ArrowDown,
        Dir::Right => Glyph::ArrowRight,
    }
}

/// Each arrow points where its text says: the head moving up is drawn `/\`,
/// left `<═`, down `\/` and right `═>`.
pub proof fn lemma_arrow_texts()
    ensures
        glyph_text(head_glyph(Dir::Up)) == seq!['/', '\\'],
        glyph_text(head_glyph(Dir::Left)) == seq!['<', '═'],
        glyph_text(head_glyph(Dir::Down)) == seq!['\\', '/'],
        glyph_text(head_glyph(Dir::Right)) == seq!['═', '>'],
{
}

/// The tail `t` as a full redraw marks it: an arrow pointing away from the
/// next segment `n`, one test for each of the four sides.
pub open spec fn tail_marks(t: Pos, n: Pos) -> Seq<Draw> {
    (if n.y + 1 == t.y { put(t, Glyph::ArrowDown) } else { seq![] }) + (if n.x + 1 == t.x {
        put(t, Glyph::ArrowRight)
    } else {
        seq![]
    }) + (if n.y == t.y + 1 { put(t, Glyph::ArrowUp) } else { seq![] }) + (if n.x == t.x + 1 {
        put(t, Glyph::ArrowLeft)
    } else {
        seq![]
    })
}

/// The tail `t` as a step redraw marks it: the arrow of the first of the four
/// tests that holds.
pub open spec fn tail_mark(t: Pos, n: Pos) -> Seq<Draw> {
    if n.y + 1 == t.y {
        put(t, Glyph::ArrowDown)
    } else if n.x + 1 == t.x {
        put(t, Glyph::ArrowRight)
    } else if n.y == t.y + 1 {
        put(t, Glyph::ArrowUp)
    } else if n.x == t.x + 1 {
        put(t, Glyph::ArrowLeft)
    } else {
        seq![]
    }
}

/// The step-redraw tests on the tail stay inside the `u16` range, in the
/// order in which they are computed.
pub open spec fn tail_mark_fits(t: Pos, n: Pos) -> bool {
    n.y < u16::MAX && if n.y + 1 == t.y {
        screen_fits(t)
    } else {
        n.x < u16::MAX && if n.x + 1 == t.x {
            screen_fits(t)
        } else {
            n.y > 0 && if n.y == t.y + 1 {
                screen_fits(t)
            } else {
                n.x > 0 && (n.x == t.x + 1 ==> screen_fits(t))
            }
        }
    }
}

/// The commands that draw segment `i` of body `s` in a full redraw: its
/// background shade, then the tail arrow, the body shape or the head arrow.
pub open spec fn segment_plan(s: Seq<Pos>, d: Dir, i: int) -> Seq<Draw> {
    seq![Draw::Background(cell_shade(s[i].x as int, s[i].y as int))] + if i == 0 {
        tail_marks(s[0], s[1])
    } else if i < s.len() - 1 {
        put(s[i], Glyph::Segment(shape(s[i - 1], s[i], s[i + 1])))
    } else {
        put(s[i], head_glyph(d))
    }
}

/// The commands for the first `k` segments of a full redraw.
pub open spec fn body_plan(s: Seq<Pos>, d: Dir, k: nat) -> Seq<Draw>
    decreases k,
{
    if k == 0 {
        seq![]
    } else {
        body_plan(s, d, (k - 1) as nat) + segment_plan(s, d, k - 1)
    }
}

/// A full redraw of the snake with body `s` and direction `d`.
pub open spec fn full_plan(s: Seq<Pos>, d: Dir) -> Seq<Draw> {
    seq![Draw::Foreground(snake_color())] + body_plan(s, d, s.len()) + seq![Draw::ResetColor]
}

/// Every computation of a full redraw of the connected body `s` stays inside
/// the `u16` range.
pub open spec fn full_plan_fits(s: Seq<Pos>) -> bool {
    &&& forall|i: int| 0 <= i < s.len() ==> shade_fits(#[trigger] s[i]) && screen_fits(s[i])
    &&& 1 <= s[1].x < u16::MAX
    &&& 1 <= s[1].y < u16::MAX
    &&& forall|i: int| 1 <= i < s.len() - 1 ==> #[trigger] shape_fits(s[i - 1], s[i], s[i + 1])
}

/// The redraw after a step: the cell `last` that the tail left is blanked in
/// its field shade, the new tail gets its arrow, the segment behind the head
/// gets its shape, and the head is marked `##` unless the snake is dead.
pub open spec fn step_plan(s: Seq<Pos>, last: Pos, dead: bool) -> Seq<Draw> {
    let n = s.len() as int;
    seq![
        Draw::Foreground(snake_color()),
        Draw::Background(cell_shade(last.x as int, last.y as int)),
    ] + put(last, Glyph::Blank) + tail_mark(s[0], s[1]) + put(
        s[n - 2],
        Glyph::Segment(shape(s[n - 3], s[n - 2], s[n - 1])),
    ) + (if dead { seq![] } else { put(s[n - 1], Glyph::Hash) }) + seq![Draw::ResetColor]
}

/// Every computation of the redraw after a step stays inside the `u16` range.
pub open spec fn step_plan_fits(s: Seq<Pos>, last: Pos, dead: bool) -> bool {
    let n = s.len() as int;
    &&& shade_fits(last)
    &&& screen_fits(last)
    &&& tail_mark_fits(s[0], s[1])
    &&& shape_fits(s[n - 3], s[n - 2], s[n - 1])
    &&& screen_fits(s[n - 2])
    &&& !dead ==> screen_fits(s[n - 1])
}

/// For a tail next to the following segment, the full redraw and the step
/// redraw mark it alike: with the arrow that points from that segment to the tail.
pub proof fn lemma_tail_arrow(t: Pos, n: Pos)
    requires
        adjacent(t, n),
    ensures
        tail_marks(t, n) == tail_mark(t, n),
        tail_mark(t, n) == put(t, head_glyph(side_of(n, t))),
{
    assert(tail_marks(t, n) =~= tail_mark(t, n));
}

/// When the step redraw blanks the cell that the tail left, it paints it in
/// the shade that the field drawing gave that cell, at the same place.
pub proof fn lemma_blank_restores_field(s: Seq<Pos>, last: Pos, dead: bool, w: u16, h: u16)
    requires
        s.len() >= 3,
        last.x < w,
        last.y < h,
        map_plan_fits(w, h),
    ensures
        step_plan(s, last, dead).subrange(1, 4) == seq![
            Draw::Background(cell_shade(last.x as int, last.y as int)),
            Draw::MoveTo(screen_col(last), screen_row(last)),
            Draw::Print(Glyph::Blank),
        ],
        exists|k: int|
            0 <= k && k + 3 <= map_plan(w, h).len() && #[trigger] map_plan(w, h).subrange(k, k + 3)
                == seq![
                Draw::MoveTo(screen_col(last), screen_row(last)),
                Draw::Background(cell_shade(last.x as int, last.y as int)),
                Draw::Print(Glyph::Blank),
            ],
{
    assert(step_plan(s, last, dead).subrange(1, 4) =~= seq![
        Draw::Background(cell_shade(last.x as int, last.y as int)),
        Draw::MoveTo(screen_col(last), screen_row(last)),
        Draw::Print(Glyph::Blank),
    ]);
    lemma_map_plan_cell(w, h, last.x as int, last.y as int);
}

/// The glyph that a full redraw prints for segment `i`.
pub open spec fn segment_glyph(s: Seq<Pos>, d: Dir, i: int) -> Glyph {
    if i == 0 {
        head_glyph(side_of(s[1], s[0]))
    } else if i < s.len() - 1 {
        Glyph::Segment(shape(s[i - 1], s[i], s[i + 1]))
    } else {
        head_glyph(d)
    }
}

/// In a connected body every segment of a full redraw is three commands:
/// its shade, a move to its cell, and its glyph.
proof fn lemma_segment_plan(s: Seq<Pos>, d: Dir, i: int)
    requires
        s.len() >= 2,
        connected(s),
        0 <= i < s.len(),
    ensures
        segment_plan(s, d, i) == seq![
            Draw::Background(cell_shade(s[i].x as int, s[i].y as int)),
            Draw::MoveTo(screen_col(s[i]), screen_row(s[i])),
            Draw::Print(segment_glyph(s, d, i)),
        ],
{
    if i == 0 {
        assert(linked(s, 0));
        lemma_tail_arrow(s[0], s[1]);
    }
    assert(segment_plan(s, d, i) =~= seq![
        Draw::Background(cell_shade(s[i].x as int, s[i].y as int)),
        Draw::MoveTo(screen_col(s[i]), screen_row(s[i])),
        Draw::Print(segment_glyph(s, d, i)),
    ]);
}

proof fn lemma_body_plan(s: Seq<Pos>, d: Dir, k: nat, i: int)
    requires
        s.len() >= 2,
        connected(s),
        k <= s.len(),
        0 <= i < k,
    ensures
        body_plan(s, d, k).len() == 3 * k,
        body_plan(s, d, k).subrange(3 * i, 3 * i + 3) == segment_plan(s, d, i),
    decreases k,
{
    lemma_body_plan_len(s, d, k);
    lemma_body_plan_len(s, d, (k - 1) as nat);
    if i < k - 1 {
        lemma_body_plan(s, d, (k - 1) as nat, i);
        assert(body_plan(s, d, k).subrange(3 * i, 3 * i + 3) =~= body_plan(
            s,
            d,
            (k - 1) as nat,
        ).subrange(3 * i, 3 * i + 3));
    } else {
        lemma_segment_plan(s, d, i);
        assert(body_plan(s, d, k).subrange(3 * i, 3 * i + 3) =~= segment_plan(s, d, i));
    }
}

proof fn lemma_body_plan_len(s: Seq<Pos>, d: Dir, k: nat)
    requires
        s.len() >= 2,
        connected(s),
        k <= s.len(),
    ensures
        body_plan(s, d, k).len() == 3 * k,
    decreases k,
{
    if k > 0 {
        lemma_body_plan_len(s, d, (k - 1) as nat);
        lemma_segment_plan(s, d, k - 1);
    }
}

/// What a full redraw of a connected body shows at segment `i`: three
/// commands at `1 + 3 * i`, the first setting the shade of the cell under the
/// segment (the light green where `x + y` is even, the darker one where it is
/// odd), the second moving to that cell's place on the screen, the third
/// printing an arrow on the tail that points away from the next segment, a
/// glyph joining the two sides where a body segment's neighbours lie, and an
/// arrow in the direction of motion on the head.
pub proof fn lemma_full_redraw_cells(s: Seq<Pos>, d: Dir, i: int)
    requires
        s.len() >= 3,
        connected(s),
        0 <= i < s.len(),
    ensures
        full_plan(s, d).len() == 3 * s.len() + 2,
        full_plan(s, d)[0] == Draw::Foreground(Color::Rgb { r: 66, g: 111, b: 227 }),
        full_plan(s, d)[3 * s.len() as int + 1] == Draw::ResetColor,
        full_plan(s, d)[1 + 3 * i] == Draw::Background(
            if (s[i].x + s[i].y) % 2 == 0 {
                Color::Rgb { r: 170, g: 215, b: 81 }
            } else {
                Color::Rgb { r: 162, g: 209, b: 73 }
            },
        ),
        full_plan(s, d)[2 + 3 * i] == Draw::MoveTo(
            (2 * s[i].x + 1) as u16,
            (s[i].y + 1) as u16,
        ),
        full_plan(s, d)[3 + 3 * i] == Draw::Print(segment_glyph(s, d, i)),
        i == 0 ==> full_plan(s, d)[3] == Draw::Print(head_glyph(side_of(s[1], s[0]))),
        0 < i < s.len() - 1 && s[i - 1] != s[i + 1] ==> full_plan(s, d)[3 + 3 * i] == Draw::Print(
            Glyph::Segment(var_of_sides(side_of(s[i], s[i - 1]), side_of(s[i], s[i + 1]))),
        ),
        i == s.len() - 1 ==> full_plan(s, d)[3 + 3 * i] == Draw::Print(head_glyph(d)),
{
    let n = s.len();
    lemma_body_plan(s, d, n, i);
    lemma_segment_plan(s, d, i);
    let b = body_plan(s, d, n);
    assert(full_plan(s, d) =~= seq![Draw::Foreground(snake_color())] + b + seq![Draw::ResetColor]);
    assert(full_plan(s, d)[1 + 3 * i] == b.subrange(3 * i, 3 * i + 3)[0]);
    assert(full_plan(s, d)[2 + 3 * i] == b.subrange(3 * i, 3 * i + 3)[1]);
    assert(full_plan(s, d)[3 + 3 * i] == b.subrange(3 * i, 3 * i + 3)[2]);
    if 0 < i < n - 1 && s[i - 1] != s[i + 1] {
        assert(linked(s, i - 1));
        assert(linked(s, i));
        lemma_shape_joins_neighbour_sides(s[i - 1], s[i], s[i + 1]);
    }
}

/// What the redraw after a step shows for a connected body: the cell that
/// the tail left is blanked in its field shade; the new tail gets the arrow
/// pointing away from the next segment; the segment behind the head gets the
/// same glyph as in a full redraw, the one joining the sides where its
/// neighbours lie; and the head is marked `##` exactly when the snake is alive.
pub proof fn lemma_step_redraw_cells(s: Seq<Pos>, d: Dir, last: Pos, dead: bool)
    requires
        s.len() >= 3,
        connected(s),
    ensures
        step_plan(s, last, dead).len() == if dead { 9int } else { 11int },
        step_plan(s, last, dead)[0] == Draw::Foreground(Color::Rgb { r: 66, g: 111, b: 227 }),
        step_plan(s, last, dead)[1] == Draw::Background(
            if (last.x + last.y) % 2 == 0 {
                Color::Rgb { r: 170, g: 215, b: 81 }
            } else {
                Color::Rgb { r: 162, g: 209, b: 73 }
            },
        ),
        step_plan(s, last, dead)[2] == Draw::MoveTo((2 * last.x + 1) as u16, (last.y + 1) as u16),
        step_plan(s, last, dead)[3] == Draw::Print(Glyph::Blank),
        step_plan(s, last, dead)[4] == Draw::MoveTo((2 * s[0].x + 1) as u16, (s[0].y + 1) as u16),
        step_plan(s, last, dead)[5] == Draw::Print(head_glyph(side_of(s[1], s[0]))),
        step_plan(s, last, dead)[6] == Draw::MoveTo(
            (2 * s[s.len() - 2].x + 1) as u16,
            (s[s.len() - 2].y + 1) as u16,
        ),
        step_plan(s, last, dead)[7] == full_plan(s, d)[3 + 3 * (s.len() - 2)],
        s[s.len() - 3] != s[s.len() - 1] ==> step_plan(s, last, dead)[7] == Draw::Print(
            Glyph::Segment(
                var_of_sides(
                    side_of(s[s.len() - 2], s[s.len() - 3]),
                    side_of(s[s.len() - 2], s[s.len() - 1]),
                ),
            ),
        ),
        !dead ==> step_plan(s, last, dead)[8] == Draw::MoveTo(
            (2 * s[s.len() - 1].x + 1) as u16,
            (s[s.len() - 1].y + 1) as u16,
        ) && step_plan(s, last, dead)[9] == Draw::Print(Glyph::Hash),
        step_plan(s, last, dead)[step_plan(s, last, dead).len() - 1] == Draw::ResetColor,
{
    let n = s.len() as int;
    assert(linked(s, 0));
    lemma_tail_arrow(s[0], s[1]);
    lemma_full_redraw_cells(s, d, n - 2);
    let g = Glyph::Segment(shape(s[n - 3], s[n - 2], s[n - 1]));
    if dead {
        assert(step_plan(s, last, dead) =~= seq![
            Draw::Foreground(snake_color()),
            Draw::Background(cell_shade(last.x as int, last.y as int)),
        ] + put(last, Glyph::Blank) + put(s[0], head_glyph(side_of(s[1], s[0]))) + put(s[n - 2], g)
            + seq![Draw::ResetColor]);
    } else {
        assert(step_plan(s, last, dead) =~= seq![
            Draw::Foreground(snake_color()),
            Draw::Background(cell_shade(last.x as int, last.y as int)),
        ] + put(last, Glyph::Blank) + put(s[0], head_glyph(side_of(s[1], s[0]))) + put(s[n - 2], g)
            + put(s[n - 1], Glyph::Hash) + seq![Draw::ResetColor]);
    }
}

/// Appends the commands that print `g` on cell `p`.
fn push_put(plan: &mut Vec<Draw>, p: Pos, g: Glyph)
    requires
        screen_fits(p),
    ensures
        final(plan)@ == old(plan)@ + put(p, g),
{
    plan.push(Draw::MoveTo(p.x * 2 + 1, p.y + 1));
    plan.push(Draw::Print(g));
    assert(plan@ =~= old(plan)@ + put(p, g));
}

/// Appends the background shade of cell `p`.
fn push_shade(plan: &mut Vec<Draw>, p: Pos)
    requires
        shade_fits(p),
    ensures
        final(plan)@ == old(plan)@.push(Draw::Background(cell_shade(p.x as int, p.y as int))),
{
    if (p.x + p.y) % 2 == 0 {
        plan.push(Draw::Background(Color::Rgb { r: 170, g: 215, b: 81 }));
    } else {
        plan.push(Draw::Background(Color::Rgb { r: 162, g: 209, b: 73 }));
    }
}

fn push_tail_marks(plan: &mut Vec<Draw>, t: Pos, n: Pos)
    requires
        1 <= n.x < u16::MAX,
        1 <= n.y < u16::MAX,
        screen_fits(t),
    ensures
        final(plan)@ == old(plan)@ + tail_marks(t, n),
{
    let ghost start = plan@;
    if n.y + 1 == t.y {
        push_put(plan, t, Glyph::ArrowDown);
    }
    if n.x + 1 == t.x {
        push_put(plan, t, Glyph::ArrowRight);
    }
    if n.y - 1 == t.y {
        push_put(plan, t, Glyph::ArrowUp);
    }
    if n.x - 1 == t.x {
        push_put(plan, t, Glyph::ArrowLeft);
    }
    assert(plan@ =~= start + tail_marks(t, n));
}

fn push_head(plan: &mut Vec<Draw>, p: Pos, d: Dir)
    requires
        screen_fits(p),
    ensures
        final(plan)@ == old(plan)@ + put(p, head_glyph(d)),
{
    match d {
        Dir::Up => push_put(plan, p, Glyph::ArrowUp),
        Dir::Left => push_put(plan, p, Glyph::ArrowLeft),
        Dir::Down => push_put(plan, p, Glyph::ArrowDown),
        Dir::Right => push_put(plan, p, Glyph::ArrowRight),
    }
}

fn screen_computable(p: Pos) -> (b: bool)
    ensures
        b == screen_fits(p),
{
    p.x <= 32767 && p.y < u16::MAX
}

fn shade_computable(p: Pos) -> (b: bool)
    ensures
        b == shade_fits(p),
{
    p.x <= u16::MAX - p.y
}

fn tail_mark_computable(t: Pos, n: Pos) -> (b: bool)
    ensures
        b == tail_mark_fits(t, n),
{
    if n.y == u16::MAX {
        false
    } else if n.y + 1 == t.y {
        screen_computable(t)
    } else if n.x == u16::MAX {
        false
    } else if n.x + 1 == t.x {
        screen_computable(t)
    } else if n.y == 0 {
        false
    } else if n.y - 1 == t.y {
        screen_computable(t)
    } else if n.x == 0 {
        false
    } else if n.x - 1 == t.x {
        screen_computable(t)
    } else {
        true
    }
}

impl Snake {
    /// Whether every computation of `display_full` stays inside the `u16` range.
    pub fn can_display_full(&self) -> (b: bool)
        requires
            self.wf(),
        ensures
            b == full_plan_fits(self.segs()),
    {
        let ghost s = self.segs();
        let len = self.len();
        let mut i: usize = 0;
        while i < len
            invariant
                s == self.segs(),
                len == s.len(),
                s.len() >= 3,
                0 <= i <= len,
                forall|j: int| 0 <= j < i ==> shade_fits(#[trigger] s[j]) && screen_fits(s[j]),
            decreases len - i,
        {
            let p = self.sget(i);
            if !(shade_computable(p) && screen_computable(p)) {
                return false;
            }
            i = i + 1;
        }
        let n = self.sget(1);
        if !(1 <= n.x && n.x < u16::MAX && 1 <= n.y && n.y < u16::MAX) {
            return false;
        }
        let mut i: usize = 1;
        while i < len - 1
            invariant
                s == self.segs(),
                len == s.len(),
                s.len() >= 3,
                1 <= i <= len - 1,
                forall|j: int| 0 <= j < s.len() ==> shade_fits(#[trigger] s[j]) && screen_fits(s[j]),
                1 <= s[1].x < u16::MAX,
                1 <= s[1].y < u16::MAX,
                forall|j: int| 1 <= j < i ==> #[trigger] shape_fits(s[j - 1], s[j], s[j + 1]),
            decreases len - i,
        {
            if !shape_computable(self.sget(i - 1), self.sget(i), self.sget(i + 1)) {
                return false;
            }
            i = i + 1;
        }
        true
    }

    /// Whether every computation of `display` stays inside the `u16` range.
    pub fn can_display(&self, last_pix: Pos, is_dead: bool) -> (b: bool)
        requires
            self.wf(),
        ensures
            b == step_plan_fits(self.segs(), last_pix, is_dead),
    {
        let len = self.len();
        shade_computable(last_pix) && screen_computable(last_pix) && tail_mark_computable(
            self.sget(0),
            self.sget(1),
        ) && shape_computable(self.sget(len - 3), self.sget(len - 2), self.sget(len - 1))
            && screen_computable(self.sget(len - 2)) && (is_dead || screen_computable(
            self.sget(len - 1),
        ))
    }

    /// The commands that redraw the snake after a step: the cell `last_pix`
    /// that the tail left is blanked in its field shade, the new tail gets its
    /// arrow, the segment behind the head its shape, and the head `##` unless
    /// `is_dead`.
    pub fn display(&self, last_pix: Pos, is_dead: bool) -> (plan: Vec<Draw>)
        requires
            self.wf(),
            step_plan_fits(self.segs(), last_pix, is_dead),
        ensures
            plan@ == step_plan(self.segs(), last_pix, is_dead),
    {
        let ghost s = self.segs();
        let mut plan: Vec<Draw> = Vec::new();
        plan.push(Draw::Foreground(Color::Rgb { r: 66, g: 111, b: 227 }));
        push_shade(&mut plan, last_pix);
        push_put(&mut plan, last_pix, Glyph::Blank);
        let ghost after_blank = plan@;
        let t = self.sget(0);
        let n = self.sget(1);
        if n.y + 1 == t.y {
            push_put(&mut plan, t, Glyph::ArrowDown);
        } else if n.x + 1 == t.x {
            push_put(&mut plan, t, Glyph::ArrowRight);
        } else if n.y - 1 == t.y {
            push_put(&mut plan, t, Glyph::ArrowUp);
        } else if n.x - 1 == t.x {
            push_put(&mut plan, t, Glyph::ArrowLeft);
        }
        assert(plan@ =~= after_blank + tail_mark(s[0], s[1]));
        let len = self.len();
        let i = len - 2;
        let p = self.sget(i);
        let v = self.get_var(i);
        push_put(&mut plan, p, Glyph::Segment(v));
        if !is_dead {
            push_put(&mut plan, self.sget(len - 1), Glyph::Hash);
        }
        plan.push(Draw::ResetColor);
        assert(plan@ =~= step_plan(s, last_pix, is_dead));
        plan
    }

    /// The commands that draw the whole snake: the tail arrow, each body
    /// segment's shape and the head arrow, each on its cell's field shade.
    pub fn display_full(&self) -> (plan: Vec<Draw>)
        requires
            self.wf(),
            full_plan_fits(self.segs()),
        ensures
            plan@ == full_plan(self.segs(), self.heading()),
    {
        let ghost s = self.segs();
        let ghost d = self.heading();
        let mut plan: Vec<Draw> = Vec::new();
        plan.push(Draw::Foreground(Color::Rgb { r: 66, g: 111, b: 227 }));
        let len = self.len();
        let mut i: usize = 0;
        while i < len
            invariant
                s == self.segs(),
                d == self.heading(),
                self.wf(),
                full_plan_fits(s),
                len == s.len(),
                0 <= i <= len,
                plan@ == seq![Draw::Foreground(snake_color())] + body_plan(s, d, i as nat),
            decreases len - i,
        {
            let ghost before = plan@;
            let p = self.sget(i);
            assert(shade_fits(s[i as int]) && screen_fits(s[i as int]));
            push_shade(&mut plan, p);
            if i == 0 {
                let n = self.sget(1);
                push_tail_marks(&mut plan, p, n);
            } else if i < len - 1 {
                assert(shape_fits(s[i - 1], s[i as int], s[i + 1]));
                let v = self.get_var(i);
                push_put(&mut plan, p, Glyph::Segment(v));
            } else {
                push_head(&mut plan, p, self.get_dir());
            }
            assert(plan@ =~= before + segment_plan(s, d, i as int));
            assert(body_plan(s, d, (i + 1) as nat) == body_plan(s, d, i as nat) + segment_plan(
                s,
                d,
                i as int,
            ));
            i = i + 1;
            assert(plan@ =~= seq![Draw::Foreground(snake_color())] + body_plan(s, d, i as nat));
        }
        plan.push(Draw::ResetColor);
        assert(plan@ =~= full_plan(s, d));
        plan
    }
}

} // verus!
