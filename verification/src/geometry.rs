use vstd::prelude::*;

verus! {

/// A cell of the playing field. `x` grows to the right, `y` grows downwards.
#[derive(Clone, Copy, Debug, PartialEq, Eq, Structural)]
pub struct Pos {
    pub x: u16,
    pub y: u16,
}

impl Pos {
    pub fn new(x: u16, y: u16) -> (p: Pos)
        ensures
            p.x == x,
            p.y == y,
    {
        Pos { x, y }
    }
}

/// The direction in which the snake's head moves.
#[derive(Clone, Copy, Debug, PartialEq, Eq, Structural)]
pub enum Dir {
    Up,
    Left,
    Down,
    Right,
}

/// The shape of a body segment, named by the two sides on which its
/// neighbours lie.
#[derive(Clone, Copy, Debug, PartialEq, Eq, Structural)]
pub enum Var {
    /// left and right
    Lr,
    /// up and down
    Ud,
    /// left and up
    Lu,
    /// left and down
    Ld,
    /// up and right
    Ur,
    /// down and right
    Dr,
}

/// Two cells share a side.
pub open spec fn adjacent(a: Pos, b: Pos) -> bool {
    ||| (a.x == b.x && (a.y + 1 == b.y || b.y + 1 == a.y))
    ||| (a.y == b.y && (a.x + 1 == b.x || b.x + 1 == a.x))
}

/// A step from `p` in direction `d` stays inside the `u16` range.
pub open spec fn can_step(p: Pos, d: Dir) -> bool {
    match d {
        Dir::Up => p.y > 0,
        Dir::Left => p.x > 0,
        Dir::Down => p.y < u16::MAX,
        Dir::Right => p.x < u16::MAX,
    }
}

/// The neighbour of `p` in direction `d`.
pub open spec fn step_pos(p: Pos, d: Dir) -> Pos {
    match d {
        Dir::Up => Pos { x: p.x, y: (p.y - 1) as u16 },
        Dir::Left => Pos { x: (p.x - 1) as u16, y: p.y },
        Dir::Down => Pos { x: p.x, y: (p.y + 1) as u16 },
        Dir::Right => Pos { x: (p.x + 1) as u16, y: p.y },
    }
}

/// The side of `c` on which its neighbour `q` lies.
pub open spec fn side_of(c: Pos, q: Pos) -> Dir {
    if q.x + 1 == c.x {
        Dir::Left
    } else if q.x == c.x + 1 {
        Dir::Right
    } else if q.y + 1 == c.y {
        Dir::Up
    } else {
        Dir::Down
    }
}

/// The segment shape whose two ends point to the sides `a` and `b`.
pub open spec fn var_of_sides(a: Dir, b: Dir) -> Var {
    match (a, b) {
        (Dir::Left, Dir::Right) | (Dir::Right, Dir::Left) => Var::Lr,
        (Dir::Up, Dir::Down) | (Dir::Down, Dir::Up) => Var::Ud,
        (Dir::Left, Dir::Up) | (Dir::Up, Dir::Left) => Var::Lu,
        (Dir::Left, Dir::Down) | (Dir::Down, Dir::Left) => Var::Ld,
        (Dir::Up, Dir::Right) | (Dir::Right, Dir::Up) => Var::Ur,
        _ => Var::Dr,
    }
}

/// The shape of the segment `c` between `p` and `n`, read as the first of
/// these tests that holds: `c` lies between them horizontally (`Lr`),
/// vertically (`Ud`), then the corners `Lu`, `Ld`, `Ur`, and `Dr` otherwise.
pub open spec fn shape(p: Pos, c: Pos, n: Pos) -> Var {
    if (p.x + 1 == c.x && n.x == c.x + 1) || (p.x == c.x + 1 && n.x + 1 == c.x) {
        Var::Lr
    } else if (p.y + 1 == c.y && n.y == c.y + 1) || (p.y == c.y + 1 && n.y + 1 == c.y) {
        Var::Ud
    } else if (p.x + 1 == c.x && n.y + 1 == c.y) || (p.y + 1 == c.y && n.x + 1 == c.x) {
        Var::Lu
    } else if (p.x + 1 == c.x && n.y == c.y + 1) || (p.y == c.y + 1 && n.x + 1 == c.x) {
        Var::Ld
    } else if (p.y + 1 == c.y && n.x == c.x + 1) || (p.x == c.x + 1 && n.y + 1 == c.y) {
        Var::Ur
    } else {
        Var::Dr
    }
}

// How the shape tests are evaluated on `u16`: each comparison `a + 1 == b` or
// `a - 1 == b` is computed only where `&&` and `||` reach it, and `None`
// marks a computation that leaves the `u16` range.

/// `a + 1 == b`, computed on `u16`.
pub open spec fn succ_eq(a: u16, b: u16) -> Option<bool> {
    if a < u16::MAX { Some(a + 1 == b) } else { None }
}

/// `a - 1 == b`, computed on `u16`.
pub open spec fn pred_eq(a: u16, b: u16) -> Option<bool> {
    if a > 0 { Some(a - 1 == b) } else { None }
}

/// `l && r`, where `r` is computed only when `l` is true.
pub open spec fn lazy_and(l: Option<bool>, r: Option<bool>) -> Option<bool> {
    match l {
        Some(true) => r,
        _ => l,
    }
}

/// `l || r`, where `r` is computed only when `l` is false.
pub open spec fn lazy_or(l: Option<bool>, r: Option<bool>) -> Option<bool> {
    match l {
        Some(false) => r,
        _ => l,
    }
}

/// The result `v` where the test holds, `rest` where it fails.
pub open spec fn first_match(test: Option<bool>, v: Var, rest: Option<Var>) -> Option<Var> {
    match test {
        Some(true) => Some(v),
        Some(false) => rest,
        None => None,
    }
}

/// The shape of `c` as the `u16` tests compute it; `None` where one of the
/// computations that is reached leaves the `u16` range.
pub open spec fn shape_eval(p: Pos, c: Pos, n: Pos) -> Option<Var> {
    let lr = lazy_or(
        lazy_and(succ_eq(p.x, c.x), pred_eq(n.x, c.x)),
        lazy_and(pred_eq(p.x, c.x), succ_eq(n.x, c.x)),
    );
    let ud = lazy_or(
        lazy_and(succ_eq(p.y, c.y), pred_eq(n.y, c.y)),
        lazy_and(pred_eq(p.y, c.y), succ_eq(n.y, c.y)),
    );
    let lu = lazy_or(
        lazy_and(succ_eq(p.x, c.x), succ_eq(n.y, c.y)),
        lazy_and(succ_eq(p.y, c.y), succ_eq(n.x, c.x)),
    );
    let ld = lazy_or(
        lazy_and(succ_eq(p.x, c.x), pred_eq(n.y, c.y)),
        lazy_and(pred_eq(p.y, c.y), succ_eq(n.x, c.x)),
    );
    let ur = lazy_or(
        lazy_and(succ_eq(p.y, c.y), pred_eq(n.x, c.x)),
        lazy_and(pred_eq(p.x, c.x), succ_eq(n.y, c.y)),
    );
    first_match(
        lr,
        Var::Lr,
        first_match(
            ud,
            Var::Ud,
            first_match(lu, Var::Lu, first_match(ld, Var::Ld, first_match(ur, Var::Ur, Some(Var::Dr)))),
        ),
    )
}

/// The shape tests for `c` between `p` and `n` stay inside the `u16` range.
pub open spec fn shape_fits(p: Pos, c: Pos, n: Pos) -> bool {
    shape_eval(p, c, n) is Some
}

/// The shape of the segment `c` between its neighbours `p` and `n`.
pub fn shape_of(p: Pos, c: Pos, n: Pos) -> (v: Var)
    requires
        shape_fits(p, c, n),
    ensures
        v == shape(p, c, n),
{
    if p.x + 1 == c.x && n.x - 1 == c.x || p.x - 1 == c.x && n.x + 1 == c.x {
        Var::Lr
    } else if p.y + 1 == c.y && n.y - 1 == c.y || p.y - 1 == c.y && n.y + 1 == c.y {
        Var::Ud
    } else if p.x + 1 == c.x && n.y + 1 == c.y || p.y + 1 == c.y && n.x + 1 == c.x {
        Var::Lu
    } else if p.x + 1 == c.x && n.y - 1 == c.y || p.y - 1 == c.y && n.x + 1 == c.x {
        Var::Ld
    } else if p.y + 1 == c.y && n.x - 1 == c.x || p.x - 1 == c.x && n.y + 1 == c.y {
        Var::Ur
    } else {
        Var::Dr
    }
}

fn succ_eq_exec(a: u16, b: u16) -> (r: Option<bool>)
    ensures
        r == succ_eq(a, b),
{
    if a < u16::MAX { Some(a + 1 == b) } else { None }
}

fn pred_eq_exec(a: u16, b: u16) -> (r: Option<bool>)
    ensures
        r == pred_eq(a, b),
{
    if a > 0 { Some(a - 1 == b) } else { None }
}

fn lazy_and_exec(l: Option<bool>, r: Option<bool>) -> (o: Option<bool>)
    ensures
        o == lazy_and(l, r),
{
    match l {
        Some(true) => r,
        _ => l,
    }
}

fn lazy_or_exec(l: Option<bool>, r: Option<bool>) -> (o: Option<bool>)
    ensures
        o == lazy_or(l, r),
{
    match l {
        Some(false) => r,
        _ => l,
    }
}

/// Whether the shape tests for `c` between `p` and `n` stay inside the `u16` range.
pub fn shape_computable(p: Pos, c: Pos, n: Pos) -> (b: bool)
    ensures
        b == shape_fits(p, c, n),
{
    let lr = lazy_or_exec(
        lazy_and_exec(succ_eq_exec(p.x, c.x), pred_eq_exec(n.x, c.x)),
        lazy_and_exec(pred_eq_exec(p.x, c.x), succ_eq_exec(n.x, c.x)),
    );
    let ud = lazy_or_exec(
        lazy_and_exec(succ_eq_exec(p.y, c.y), pred_eq_exec(n.y, c.y)),
        lazy_and_exec(pred_eq_exec(p.y, c.y), succ_eq_exec(n.y, c.y)),
    );
    let lu = lazy_or_exec(
        lazy_and_exec(succ_eq_exec(p.x, c.x), succ_eq_exec(n.y, c.y)),
        lazy_and_exec(succ_eq_exec(p.y, c.y), succ_eq_exec(n.x, c.x)),
    );
    let ld = lazy_or_exec(
        lazy_and_exec(succ_eq_exec(p.x, c.x), pred_eq_exec(n.y, c.y)),
        lazy_and_exec(pred_eq_exec(p.y, c.y), succ_eq_exec(n.x, c.x)),
    );
    let ur = lazy_or_exec(
        lazy_and_exec(succ_eq_exec(p.y, c.y), pred_eq_exec(n.x, c.x)),
        lazy_and_exec(pred_eq_exec(p.x, c.x), succ_eq_exec(n.y, c.y)),
    );
    match (lr, ud, lu, ld, ur) {
        (None, _, _, _, _) => false,
        (Some(true), _, _, _, _) => true,
        (_, None, _, _, _) => false,
        (_, Some(true), _, _, _) => true,
        (_, _, None, _, _) => false,
        (_, _, Some(true), _, _) => true,
        (_, _, _, None, _) => false,
        (_, _, _, Some(true), _) => true,
        (_, _, _, _, None) => false,
        _ => true,
    }
}

/// Where the `u16` evaluation of the shape tests succeeds, it gives `shape`.
pub proof fn lemma_shape_eval(p: Pos, c: Pos, n: Pos)
    requires
        shape_fits(p, c, n),
    ensures
        shape_eval(p, c, n) == Some(shape(p, c, n)),
{
}

/// A body segment looks the same whether it is read from the tail or from
/// the head: exchanging its two neighbours leaves its shape unchanged.
pub proof fn lemma_shape_symmetric(p: Pos, c: Pos, n: Pos)
    ensures
        shape(p, c, n) == shape(n, c, p),
{
}

/// For a segment whose two neighbours share a side with it and are distinct,
/// the shape names exactly the two sides on which the neighbours lie.
pub proof fn lemma_shape_joins_neighbour_sides(p: Pos, c: Pos, n: Pos)
    requires
        adjacent(p, c),
        adjacent(c, n),
        p != n,
    ensures
        shape(p, c, n) == var_of_sides(side_of(c, p), side_of(c, n)),
{
}

/// A step in any direction lands on a cell adjacent to the start.
pub proof fn lemma_step_adjacent(p: Pos, d: Dir)
    requires
        can_step(p, d),
    ensures
        adjacent(p, step_pos(p, d)),
        side_of(p, step_pos(p, d)) == d,
{
}

} // verus!
