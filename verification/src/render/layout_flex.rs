//! Flex rows and columns: children without a flex factor are measured first,
//! in order, against the main-axis space left by those before them; the free
//! space that remains is then shared among flex children in proportion to
//! their factors, the last flex child taking the rounding remainder.

use vstd::prelude::*;

use crate::render::layout::{
    sat_add, sat_sub, spec_constrain, spec_rect, Constraints, LayoutRenderableItem, Rect, Size,
};

verus! {

/// The direction children are laid out along.
#[derive(Clone, Copy, Debug, PartialEq, Eq, Structural)]
pub enum Axis {
    Horizontal,
    Vertical,
}

/// Whether a flex child fills its allocated share or may remain smaller.
#[derive(Clone, Copy, Debug, PartialEq, Eq, Structural)]
pub enum FlexFit {
    Tight,
    Loose,
}

/// The bound along the main axis.
pub open spec fn spec_main_max(axis: Axis, c: Constraints) -> Option<u16> {
    match axis {
        Axis::Horizontal => c.max_width,
        Axis::Vertical => c.max_height,
    }
}

/// The minimum across the main axis.
pub open spec fn spec_cross_min(axis: Axis, c: Constraints) -> u16 {
    match axis {
        Axis::Horizontal => c.min_height,
        Axis::Vertical => c.min_width,
    }
}

/// The bound across the main axis.
pub open spec fn spec_cross_max(axis: Axis, c: Constraints) -> Option<u16> {
    match axis {
        Axis::Horizontal => c.max_height,
        Axis::Vertical => c.max_width,
    }
}

/// Constraints given along and across the main axis.
pub open spec fn spec_child_constraints(
    axis: Axis,
    main_min: u16,
    main_max: Option<u16>,
    cross_min: u16,
    cross_max: Option<u16>,
) -> Constraints {
    match axis {
        Axis::Horizontal => Constraints {
            min_width: main_min,
            max_width: main_max,
            min_height: cross_min,
            max_height: cross_max,
        },
        Axis::Vertical => Constraints {
            min_width: cross_min,
            max_width: cross_max,
            min_height: main_min,
            max_height: main_max,
        },
    }
}

/// A size's extent along the main axis.
pub open spec fn spec_main_size(axis: Axis, s: Size) -> u16 {
    match axis {
        Axis::Horizontal => s.width,
        Axis::Vertical => s.height,
    }
}

/// A size's extent across the main axis.
pub open spec fn spec_cross_size(axis: Axis, s: Size) -> u16 {
    match axis {
        Axis::Horizontal => s.height,
        Axis::Vertical => s.width,
    }
}

/// The size with the given extents along and across the main axis.
pub open spec fn spec_axis_size(axis: Axis, main: u16, cross: u16) -> Size {
    match axis {
        Axis::Horizontal => Size { width: main, height: cross },
        Axis::Vertical => Size { width: cross, height: main },
    }
}

/// A rectangle of `size` placed `offset` cells along the main axis from `origin`.
pub open spec fn spec_axis_rect(axis: Axis, origin: Rect, offset: u16, size: Size) -> Rect {
    match axis {
        Axis::Horizontal => spec_rect(sat_add(origin.x, offset), origin.y, size.width, size.height),
        Axis::Vertical => spec_rect(origin.x, sat_add(origin.y, offset), size.width, size.height),
    }
}

/// Main-axis space taken by the children without a flex factor among the
/// first `i` (saturating).
pub open spec fn used_before(axis: Axis, fl: Seq<(u16, FlexFit)>, sizes: Seq<Size>, i: int) -> u16
    decreases i,
{
    if i <= 0 {
        0
    } else {
        let prev = used_before(axis, fl, sizes, i - 1);
        if fl[i - 1].0 == 0 {
            sat_add(prev, spec_main_size(axis, sizes[i - 1]))
        } else {
            prev
        }
    }
}

/// Sum of the flex factors of the first `i` children.
pub open spec fn flex_total(fl: Seq<(u16, FlexFit)>, i: int) -> nat
    decreases i,
{
    if i <= 0 { 0 } else { flex_total(fl, i - 1) + (fl[i - 1].0 as nat) }
}

/// Index of the last child with a flex factor among the first `i`, or -1.
pub open spec fn last_flex(fl: Seq<(u16, FlexFit)>, i: int) -> int
    decreases i,
{
    if i <= 0 {
        -1
    } else if fl[i - 1].0 != 0 {
        i - 1
    } else {
        last_flex(fl, i - 1)
    }
}

/// The main-axis share of flex child `j`: the last flex child takes what the
/// others left of `free`; the others take `free * flex / total`, rounded down.
pub open spec fn flex_share(fl: Seq<(u16, FlexFit)>, free: u16, total: nat, last: int, allocated: u16, j: int) -> u16 {
    if j == last {
        sat_sub(free, allocated)
    } else if total == 0 {
        0
    } else {
        ((free * fl[j].0) / (total as int)) as u16
    }
}

/// Shares handed to the flex children among the first `i` (saturating).
pub open spec fn allocated_before(fl: Seq<(u16, FlexFit)>, free: u16, total: nat, last: int, i: int) -> u16
    decreases i,
{
    if i <= 0 {
        0
    } else {
        let a = allocated_before(fl, free, total, last, i - 1);
        if fl[i - 1].0 != 0 {
            sat_add(a, flex_share(fl, free, total, last, a, i - 1))
        } else {
            a
        }
    }
}

/// Constraints child `i` is measured with, given what every child measured.
pub open spec fn asked(axis: Axis, fl: Seq<(u16, FlexFit)>, c: Constraints, sizes: Seq<Size>, i: int) -> Constraints {
    let cmin = spec_cross_min(axis, c);
    let cmax = spec_cross_max(axis, c);
    match spec_main_max(axis, c) {
        None => spec_child_constraints(axis, 0, None, cmin, cmax),
        Some(m) => if fl[i].0 == 0 {
            spec_child_constraints(axis, 0, Some(sat_sub(m, used_before(axis, fl, sizes, i))), cmin, cmax)
        } else {
            let free = sat_sub(m, used_before(axis, fl, sizes, fl.len() as int));
            let total = flex_total(fl, fl.len() as int);
            let last = last_flex(fl, fl.len() as int);
            let share = flex_share(fl, free, total, last, allocated_before(fl, free, total, last, i), i);
            let main_min = match fl[i].1 {
                FlexFit::Tight => share,
                FlexFit::Loose => 0,
            };
            spec_child_constraints(axis, main_min, Some(share), cmin, cmax)
        },
    }
}

/// Main-axis extent of the first `i` sizes laid end to end (saturating).
pub open spec fn main_sum(axis: Axis, sizes: Seq<Size>, i: int) -> u16
    decreases i,
{
    if i <= 0 { 0 } else { sat_add(main_sum(axis, sizes, i - 1), spec_main_size(axis, sizes[i - 1])) }
}

/// Largest cross-axis extent among the first `i` sizes.
pub open spec fn cross_fold(axis: Axis, sizes: Seq<Size>, i: int) -> u16
    decreases i,
{
    if i <= 0 {
        0
    } else {
        let prev = cross_fold(axis, sizes, i - 1);
        let c = spec_cross_size(axis, sizes[i - 1]);
        if prev >= c { prev } else { c }
    }
}

/// The size a flex container reports for children of the given sizes.
pub open spec fn spec_flex_size(axis: Axis, c: Constraints, sizes: Seq<Size>) -> Size {
    spec_constrain(
        c,
        spec_axis_size(axis, main_sum(axis, sizes, sizes.len() as int), cross_fold(axis, sizes, sizes.len() as int)),
    )
}

impl Axis {
    fn main_max(self, constraints: Constraints) -> (r: Option<u16>)
        ensures
            r == spec_main_max(self, constraints),
    {
        match self {
            Axis::Horizontal => constraints.max_width,
            Axis::Vertical => constraints.max_height,
        }
    }

    fn cross_min(self, constraints: Constraints) -> (r: u16)
        ensures
            r == spec_cross_min(self, constraints),
    {
        match self {
            Axis::Horizontal => constraints.min_height,
            Axis::Vertical => constraints.min_width,
        }
    }

    fn cross_max(self, constraints: Constraints) -> (r: Option<u16>)
        ensures
            r == spec_cross_max(self, constraints),
    {
        match self {
            Axis::Horizontal => constraints.max_height,
            Axis::Vertical => constraints.max_width,
        }
    }

    fn child_constraints(self, main_min: u16, main_max: Option<u16>, cross_min: u16, cross_max: Option<u16>) -> (r:
        Constraints)
        ensures
            r == spec_child_constraints(self, main_min, main_max, cross_min, cross_max),
    {
        match self {
            Axis::Horizontal => Constraints::new(main_min, main_max, cross_min, cross_max),
            Axis::Vertical => Constraints::new(cross_min, cross_max, main_min, main_max),
        }
    }

    fn main_size(self, size: Size) -> (r: u16)
        ensures
            r == spec_main_size(self, size),
    {
        match self {
            Axis::Horizontal => size.width,
            Axis::Vertical => size.height,
        }
    }

    fn cross_size(self, size: Size) -> (r: u16)
        ensures
            r == spec_cross_size(self, size),
    {
        match self {
            Axis::Horizontal => size.height,
            Axis::Vertical => size.width,
        }
    }

    fn size(self, main: u16, cross: u16) -> (r: Size)
        ensures
            r == spec_axis_size(self, main, cross),
    {
        match self {
            Axis::Horizontal => Size::new(main, cross),
            Axis::Vertical => Size::new(cross, main),
        }
    }

    fn rect(self, origin: Rect, main_offset: u16, size: Size) -> (r: Rect)
        ensures
            r == spec_axis_rect(self, origin, main_offset, size),
    {
        match self {
            Axis::Horizontal => Rect::new(origin.x.saturating_add(main_offset), origin.y, size.width, size.height),
            Axis::Vertical => Rect::new(origin.x, origin.y.saturating_add(main_offset), size.width, size.height),
        }
    }
}

/// A child with its flex factor (0 = measured first, unshared) and fit.
pub struct FlexChild<'a, R> {
    pub flex: u16,
    pub fit: FlexFit,
    pub child: LayoutRenderableItem<'a, R>,
}

/// Flex factors and fits of a list of children.
pub open spec fn flexes<'a, R>(cs: Seq<FlexChild<'a, R>>) -> Seq<(u16, FlexFit)> {
    cs.map_values(|c: FlexChild<'a, R>| (c.flex, c.fit))
}

/// Whether `sizes` are what the children answered when measured as a flex
/// container does it: child `i` with the constraints `asked` gives it.
pub open spec fn measured_by<'a, R, F: Fn(&R, Constraints) -> Size>(
    f: LayoutFlexRenderable<'a, R>,
    c: Constraints,
    measure: &F,
    sizes: Seq<Size>,
) -> bool {
    &&& sizes.len() == f.flexes_spec().len()
    &&& forall|i: int|
        0 <= i < sizes.len() ==> measure.ensures(
            (&f.child_spec(i), asked(f.axis_spec(), f.flexes_spec(), c, sizes, i)),
            #[trigger] sizes[i],
        )
}

/// Where a flex container puts its children: its own size, and each
/// child's measured size and rectangle.
pub struct FlexPlan {
    pub size: Size,
    pub child_sizes: Vec<Size>,
    pub child_rects: Vec<Rect>,
}

/// Children laid out along one axis.
pub struct LayoutFlexRenderable<'a, R> {
    axis: Axis,
    children: Vec<FlexChild<'a, R>>,
}

proof fn lemma_used_frame(axis: Axis, fl: Seq<(u16, FlexFit)>, s1: Seq<Size>, s2: Seq<Size>, i: int)
    requires
        0 <= i <= fl.len(),
        forall|k: int| 0 <= k < i && fl[k].0 == 0 ==> s1[k] == s2[k],
    ensures
        used_before(axis, fl, s1, i) == used_before(axis, fl, s2, i),
    decreases i,
{
    if i > 0 {
        lemma_used_frame(axis, fl, s1, s2, i - 1);
    }
}

/// What child `i` is asked depends only on the sizes of children without a
/// flex factor: those before it, or, for a flex child, all of them.
proof fn lemma_asked_frame(axis: Axis, fl: Seq<(u16, FlexFit)>, c: Constraints, s1: Seq<Size>, s2: Seq<Size>, i: int)
    requires
        0 <= i < fl.len(),
        forall|k: int| 0 <= k < fl.len() && fl[k].0 == 0 && (k < i || fl[i].0 != 0) ==> s1[k] == s2[k],
    ensures
        asked(axis, fl, c, s1, i) == asked(axis, fl, c, s2, i),
{
    if fl[i].0 == 0 {
        lemma_used_frame(axis, fl, s1, s2, i);
    } else {
        lemma_used_frame(axis, fl, s1, s2, fl.len() as int);
    }
}

proof fn lemma_flex_total_mono(fl: Seq<(u16, FlexFit)>, i: int, j: int)
    requires
        0 <= i <= j,
    ensures
        flex_total(fl, i) <= flex_total(fl, j),
    decreases j - i,
{
    if i < j {
        lemma_flex_total_mono(fl, i, j - 1);
    }
}

proof fn lemma_floor_sum(a: int, b: int, t: int)
    requires
        t > 0,
        a >= 0,
        b >= 0,
    ensures
        a / t + b / t <= (a + b) / t,
{
    assert(a / t + b / t <= (a + b) / t) by (nonlinear_arith)
        requires
            t > 0,
            a >= 0,
            b >= 0,
    {
        assert(a == t * (a / t) + a % t);
        assert(b == t * (b / t) + b % t);
        assert(a + b == t * (a / t + b / t) + (a % t + b % t));
        assert(0 <= a % t + b % t);
        assert((a + b) / t >= a / t + b / t);
    }
}

proof fn lemma_scaled_le(free: int, f: int, t: int)
    requires
        t > 0,
        0 <= f <= t,
        free >= 0,
    ensures
        (free * f) / t <= free,
        (free * f) / t >= 0,
{
    assert((free * f) / t <= free && (free * f) / t >= 0) by (nonlinear_arith)
        requires
            t > 0,
            0 <= f <= t,
            free >= 0,
    {
        assert(free * f <= free * t);
    }
}

proof fn lemma_last_flex_props(fl: Seq<(u16, FlexFit)>, i: int)
    requires
        0 <= i <= fl.len(),
    ensures
        last_flex(fl, i) >= 0 ==> last_flex(fl, i) < i && fl[last_flex(fl, i)].0 != 0,
        forall|j: int| last_flex(fl, i) < j < i ==> fl[j].0 == 0,
        last_flex(fl, i) >= -1,
    decreases i,
{
    if i > 0 {
        lemma_last_flex_props(fl, i - 1);
    }
}

proof fn lemma_allocated_bound(fl: Seq<(u16, FlexFit)>, free: u16, last: int, i: int)
    requires
        0 <= i <= last,
        last < fl.len(),
        flex_total(fl, fl.len() as int) > 0,
    ensures
        allocated_before(fl, free, flex_total(fl, fl.len() as int), last, i) as int <= (free * flex_total(fl, i))
            / (flex_total(fl, fl.len() as int) as int),
    decreases i,
{
    let t = flex_total(fl, fl.len() as int);
    if i > 0 {
        lemma_allocated_bound(fl, free, last, i - 1);
        let a = allocated_before(fl, free, t, last, i - 1);
        lemma_flex_total_mono(fl, i, fl.len() as int);
        lemma_flex_total_mono(fl, i - 1, i);
        let prev = (free * flex_total(fl, i - 1)) / (t as int);
        let f = fl[i - 1].0 as int;
        lemma_floor_sum(free * flex_total(fl, i - 1), free * f, t as int);
        assert(free * flex_total(fl, i - 1) + free * f == free * flex_total(fl, i)) by (nonlinear_arith)
            requires
                flex_total(fl, i) == flex_total(fl, i - 1) + f,
        ;
        lemma_scaled_le(free as int, flex_total(fl, i) as int, t as int);
        lemma_scaled_le(free as int, f, t as int);
        lemma_scaled_le(free as int, flex_total(fl, i - 1) as int, t as int);
        if fl[i - 1].0 != 0 {
            assert(flex_share(fl, free, t, last, a, i - 1) as int == (free * f) / (t as int));
        }
    }
}

/// When some child has a flex factor, the shares handed to the flex
/// children add up to exactly the free space: the last flex child takes
/// what the proportional shares of the others leave.
pub proof fn law_flex_shares_fill_free_space(fl: Seq<(u16, FlexFit)>, free: u16)
    requires
        last_flex(fl, fl.len() as int) >= 0,
    ensures
        allocated_before(
            fl,
            free,
            flex_total(fl, fl.len() as int),
            last_flex(fl, fl.len() as int),
            fl.len() as int,
        ) == free,
{
    let n = fl.len() as int;
    let last = last_flex(fl, n);
    let t = flex_total(fl, n);
    lemma_last_flex_props(fl, n);
    lemma_flex_total_mono(fl, last + 1, n);
    lemma_flex_total_mono(fl, last, last + 1);
    assert(t > 0);
    lemma_allocated_bound(fl, free, last, last);
    lemma_flex_total_mono(fl, last, n);
    lemma_scaled_le(free as int, flex_total(fl, last) as int, t as int);
    assert(allocated_before(fl, free, t, last, last + 1) == free);
    lemma_allocated_tail(fl, free, t, last, n);
}

proof fn lemma_allocated_tail(fl: Seq<(u16, FlexFit)>, free: u16, t: nat, last: int, i: int)
    requires
        0 <= last < i <= fl.len(),
        forall|j: int| last < j < fl.len() ==> fl[j].0 == 0,
        allocated_before(fl, free, t, last, last + 1) == free,
    ensures
        allocated_before(fl, free, t, last, i) == free,
    decreases i,
{
    if i > last + 1 {
        lemma_allocated_tail(fl, free, t, last, i - 1);
    }
}

proof fn lemma_cross_fold_is_max(axis: Axis, sizes: Seq<Size>, i: int)
    requires
        0 <= i <= sizes.len(),
    ensures
        forall|j: int| 0 <= j < i ==> spec_cross_size(axis, #[trigger] sizes[j]) <= cross_fold(axis, sizes, i),
        i == 0 ==> cross_fold(axis, sizes, i) == 0,
        i > 0 ==> exists|j: int|
            0 <= j < i && cross_fold(axis, sizes, i) == spec_cross_size(axis, #[trigger] sizes[j]),
    decreases i,
{
    if i > 0 {
        lemma_cross_fold_is_max(axis, sizes, i - 1);
        let c = spec_cross_size(axis, sizes[i - 1]);
        if cross_fold(axis, sizes, i - 1) >= c && i > 1 {
            let j = choose|j: int|
                0 <= j < i - 1 && cross_fold(axis, sizes, i - 1) == spec_cross_size(axis, #[trigger] sizes[j]);
            assert(0 <= j < i && cross_fold(axis, sizes, i) == spec_cross_size(axis, sizes[j]));
        } else {
            assert(cross_fold(axis, sizes, i) == spec_cross_size(axis, sizes[i - 1]));
        }
    }
}

/// Law: a flex container is as deep across its axis as its deepest child.
/// Before the constraints apply, its cross extent is at least the cross
/// extent of every child and equal to that of one of them (zero without
/// children); once they apply, it is at least the cross extent of every
/// child held to the same constraints.
pub proof fn law_cross_extent_is_deepest_child(axis: Axis, c: Constraints, sizes: Seq<Size>)
    ensures
        forall|i: int|
            0 <= i < sizes.len() ==> spec_cross_size(axis, #[trigger] sizes[i]) <= cross_fold(
                axis,
                sizes,
                sizes.len() as int,
            ),
        sizes.len() == 0 ==> cross_fold(axis, sizes, 0) == 0,
        sizes.len() > 0 ==> exists|j: int|
            0 <= j < sizes.len() && cross_fold(axis, sizes, sizes.len() as int) == spec_cross_size(
                axis,
                #[trigger] sizes[j],
            ),
        spec_cross_size(axis, spec_flex_size(axis, c, sizes)) == spec_cross_size(
            axis,
            spec_constrain(c, spec_axis_size(axis, 0, cross_fold(axis, sizes, sizes.len() as int))),
        ),
        forall|i: int|
            0 <= i < sizes.len() ==> spec_cross_size(axis, spec_constrain(c, #[trigger] sizes[i]))
                <= spec_cross_size(axis, spec_flex_size(axis, c, sizes)),
{
    lemma_cross_fold_is_max(axis, sizes, sizes.len() as int);
}

/// Every constrained size lies within the constraints whose minima do not
/// exceed their maxima.
pub proof fn law_constrain_within_bounds(c: Constraints, s: Size)
    requires
        c.max_width matches Some(m) ==> c.min_width <= m,
        c.max_height matches Some(m) ==> c.min_height <= m,
    ensures
        c.min_width <= spec_constrain(c, s).width,
        c.max_width matches Some(m) ==> spec_constrain(c, s).width <= m,
        c.min_height <= spec_constrain(c, s).height,
        c.max_height matches Some(m) ==> spec_constrain(c, s).height <= m,
        spec_constrain(c, s) == spec_constrain(c, spec_constrain(c, s)),
{
}

impl<'a, R> LayoutFlexRenderable<'a, R> {
    /// The layout axis.
    pub closed spec fn axis_spec(&self) -> Axis {
        self.axis
    }

    /// Flex factors and fits of the children, in order.
    pub closed spec fn flexes_spec(&self) -> Seq<(u16, FlexFit)> {
        flexes(self.children@)
    }

    /// Child `i`.
    pub closed spec fn child_spec(&self, i: int) -> R {
        *self.children@[i].child.inner()
    }

    /// Number of children.
    pub fn len(&self) -> (n: usize)
        ensures
            n == self.flexes_spec().len(),
    {
        self.children.len()
    }

    /// Child `i`.
    pub fn child(&self, i: usize) -> (r: &R)
        requires
            i < self.flexes_spec().len(),
        ensures
            *r == self.child_spec(i as int),
    {
        self.children[i].child.get()
    }

    /// An empty container along `axis`.
    pub fn new(axis: Axis) -> (r: Self)
        ensures
            r.axis_spec() == axis,
            r.flexes_spec() == Seq::<(u16, FlexFit)>::empty(),
    {
        let r = LayoutFlexRenderable { axis, children: Vec::new() };
        assert(r.flexes_spec() =~= Seq::<(u16, FlexFit)>::empty());
        r
    }

    /// Append a child held by the container.
    pub fn push(&mut self, flex: u16, fit: FlexFit, child: R)
        ensures
            final(self).axis_spec() == old(self).axis_spec(),
            final(self).flexes_spec() == old(self).flexes_spec().push((flex, fit)),
            final(self).child_spec(old(self).flexes_spec().len() as int) == child,
            forall|i: int| 0 <= i < old(self).flexes_spec().len() ==> final(self).child_spec(i) == old(self).child_spec(i),
    {
        self.children.push(FlexChild { flex, fit, child: LayoutRenderableItem::Owned(child) });
        assert(self.flexes_spec() =~= old(self).flexes_spec().push((flex, fit)));
    }

    /// Append a child, however it is held.
    pub fn push_item(&mut self, flex: u16, fit: FlexFit, child: LayoutRenderableItem<'a, R>)
        ensures
            final(self).axis_spec() == old(self).axis_spec(),
            final(self).flexes_spec() == old(self).flexes_spec().push((flex, fit)),
            final(self).child_spec(old(self).flexes_spec().len() as int) == *child.inner(),
            forall|i: int| 0 <= i < old(self).flexes_spec().len() ==> final(self).child_spec(i) == old(self).child_spec(i),
    {
        self.children.push(FlexChild { flex, fit, child });
        assert(self.flexes_spec() =~= old(self).flexes_spec().push((flex, fit)));
    }

    /// Append a child borrowed from the caller.
    pub fn push_ref(&mut self, flex: u16, fit: FlexFit, child: &'a R)
        ensures
            final(self).axis_spec() == old(self).axis_spec(),
            final(self).flexes_spec() == old(self).flexes_spec().push((flex, fit)),
            final(self).child_spec(old(self).flexes_spec().len() as int) == *child,
            forall|i: int| 0 <= i < old(self).flexes_spec().len() ==> final(self).child_spec(i) == old(self).child_spec(i),
    {
        self.children.push(FlexChild { flex, fit, child: LayoutRenderableItem::Borrowed(child) });
        assert(self.flexes_spec() =~= old(self).flexes_spec().push((flex, fit)));
    }

    /// Measure every child and place it along the axis from `origin`.
    ///
    /// With a main-axis bound, children without a flex factor are measured
    /// first, in order, each against what those before it left; the free
    /// space then goes to the flex children as `asked` describes. Without a
    /// bound every child is measured unbounded along the axis. Children are
    /// placed end to end; the container takes the sum of their main-axis
    /// extents and the largest cross-axis extent, within `constraints`.
    pub fn plan<F>(&self, constraints: Constraints, origin: Rect, measure: &F) -> (p: FlexPlan) where
        F: Fn(&R, Constraints) -> Size,
        requires
            forall|r: &R, k: Constraints| measure.requires((r, k)),
            flex_total(self.flexes_spec(), self.flexes_spec().len() as int) <= u32::MAX,
        ensures
            measured_by(*self, constraints, measure, p.child_sizes@),
            p.child_rects@.len() == self.flexes_spec().len(),
            p.size == spec_flex_size(self.axis_spec(), constraints, p.child_sizes@),
            forall|i: int|
                0 <= i < p.child_rects@.len() ==> p.child_rects@[i] == spec_axis_rect(
                    self.axis_spec(),
                    origin,
                    main_sum(self.axis_spec(), p.child_sizes@, i),
                    p.child_sizes@[i],
                ),
    {
        let axis = self.axis;
        let cross_min = axis.cross_min(constraints);
        let cross_max = axis.cross_max(constraints);
        let n = self.children.len();
        let ghost fl = self.flexes_spec();
        let mut child_sizes: Vec<Size> = Vec::new();
        let mut z: usize = 0;
        while z < n
            invariant
                z <= n,
                child_sizes@.len() == z,
            decreases n - z,
        {
            child_sizes.push(Size::zero());
            z += 1;
        }
        match axis.main_max(constraints) {
            Some(max_main) => {
                let mut used_main: u16 = 0;
                let mut total_flex: u32 = 0;
                let mut last_flex_idx: Option<usize> = None;
                let mut i: usize = 0;
                while i < n
                    invariant
                        i <= n,
                        n == self.children@.len(),
                        fl == self.flexes_spec(),
                        fl.len() == n,
                        child_sizes@.len() == n,
                        axis == self.axis_spec(),
                        cross_min == spec_cross_min(axis, constraints),
                        cross_max == spec_cross_max(axis, constraints),
                        spec_main_max(axis, constraints) == Some(max_main),
                        forall|r: &R, k: Constraints| measure.requires((r, k)),
                        flex_total(fl, n as int) <= u32::MAX,
                        used_main == used_before(axis, fl, child_sizes@, i as int),
                        total_flex == flex_total(fl, i as int),
                        match last_flex_idx {
                            Some(k) => k == last_flex(fl, i as int),
                            None => last_flex(fl, i as int) == -1,
                        },
                        forall|j: int|
                            0 <= j < i && fl[j].0 == 0 ==> measure.ensures(
                                (&self.child_spec(j), asked(axis, fl, constraints, child_sizes@, j)),
                                child_sizes@[j],
                            ),
                    decreases n - i,
                {
                    let child = &self.children[i];
                    assert(fl[i as int] == (child.flex, child.fit));
                    if child.flex == 0 {
                        let remaining_main = max_main.saturating_sub(used_main);
                        let size = measure(
                            child.child.get(),
                            axis.child_constraints(0, Some(remaining_main), cross_min, cross_max),
                        );
                        let ghost before = child_sizes@;
                        used_main = used_main.saturating_add(axis.main_size(size));
                        child_sizes.set(i, size);
                        proof {
                            lemma_used_frame(axis, fl, before, child_sizes@, i as int);
                            assert forall|j: int|
                                0 <= j < i + 1 && fl[j].0 == 0 implies measure.ensures(
                                (&self.child_spec(j), asked(axis, fl, constraints, child_sizes@, j)),
                                child_sizes@[j],
                            ) by {
                                lemma_asked_frame(axis, fl, constraints, before, child_sizes@, j);
                            }
                        }
                    } else {
                        proof {
                            lemma_flex_total_mono(fl, i + 1, n as int);
                        }
                        total_flex += child.flex as u32;
                        last_flex_idx = Some(i);
                    }
                    i += 1;
                }
                let free_space = max_main.saturating_sub(used_main);
                let mut allocated_share: u16 = 0;
                let ghost sizes1 = child_sizes@;
                let ghost total = flex_total(fl, n as int);
                let ghost last = last_flex(fl, n as int);
                let mut i: usize = 0;
                while i < n
                    invariant
                        i <= n,
                        n == self.children@.len(),
                        fl == self.flexes_spec(),
                        fl.len() == n,
                        child_sizes@.len() == n,
                        sizes1.len() == n,
                        axis == self.axis_spec(),
                        cross_min == spec_cross_min(axis, constraints),
                        cross_max == spec_cross_max(axis, constraints),
                        spec_main_max(axis, constraints) == Some(max_main),
                        forall|r: &R, k: Constraints| measure.requires((r, k)),
                        total == flex_total(fl, n as int),
                        total <= u32::MAX,
                        total_flex == total,
                        last == last_flex(fl, n as int),
                        match last_flex_idx {
                            Some(k) => k == last,
                            None => last == -1,
                        },
                        free_space == sat_sub(max_main, used_before(axis, fl, sizes1, n as int)),
                        allocated_share == allocated_before(fl, free_space, total, last, i as int),
                        forall|k: int| 0 <= k < n && fl[k].0 == 0 ==> child_sizes@[k] == sizes1[k],
                        forall|j: int|
                            0 <= j < n && fl[j].0 == 0 ==> measure.ensures(
                                (&self.child_spec(j), asked(axis, fl, constraints, sizes1, j)),
                                sizes1[j],
                            ),
                        forall|j: int|
                            0 <= j < i && fl[j].0 != 0 ==> measure.ensures(
                                (&self.child_spec(j), asked(axis, fl, constraints, child_sizes@, j)),
                                child_sizes@[j],
                            ),
                    decreases n - i,
                {
                    let child = &self.children[i];
                    assert(fl[i as int] == (child.flex, child.fit));
                    if child.flex != 0 {
                        let is_last = match last_flex_idx {
                            Some(l) => l == i,
                            None => false,
                        };
                        let share = if is_last {
                            free_space.saturating_sub(allocated_share)
                        } else if total_flex == 0 {
                            0
                        } else {
                            assert((free_space as u32) * (child.flex as u32) <= 0xfffe0001u32) by (nonlinear_arith)
                                requires
                                    free_space <= 0xffff,
                                    child.flex <= 0xffff,
                            ;
                            ((free_space as u32 * child.flex as u32) / total_flex) as u16
                        };
                        proof {
                            lemma_used_frame(axis, fl, sizes1, child_sizes@, n as int);
                        }
                        assert(share == flex_share(fl, free_space, total, last, allocated_share, i as int));
                        allocated_share = allocated_share.saturating_add(share);
                        let main_min = match child.fit {
                            FlexFit::Tight => share,
                            FlexFit::Loose => 0,
                        };
                        let size = measure(
                            child.child.get(),
                            axis.child_constraints(main_min, Some(share), cross_min, cross_max),
                        );
                        let ghost before = child_sizes@;
                        child_sizes.set(i, size);
                        proof {
                            lemma_used_frame(axis, fl, sizes1, child_sizes@, n as int);
                            assert forall|j: int|
                                0 <= j < i + 1 && fl[j].0 != 0 implies measure.ensures(
                                (&self.child_spec(j), asked(axis, fl, constraints, child_sizes@, j)),
                                child_sizes@[j],
                            ) by {
                                lemma_asked_frame(axis, fl, constraints, before, child_sizes@, j);
                                lemma_asked_frame(axis, fl, constraints, sizes1, child_sizes@, j);
                            }
                        }
                    }
                    i += 1;
                }
                proof {
                    assert forall|j: int|
                        0 <= j < n && fl[j].0 == 0 implies measure.ensures(
                        (&self.child_spec(j), asked(axis, fl, constraints, child_sizes@, j)),
                        child_sizes@[j],
                    ) by {
                        lemma_asked_frame(axis, fl, constraints, sizes1, child_sizes@, j);
                    }
                }
            },
            None => {
                let mut i: usize = 0;
                while i < n
                    invariant
                        i <= n,
                        n == self.children@.len(),
                        fl == self.flexes_spec(),
                        fl.len() == n,
                        child_sizes@.len() == n,
                        axis == self.axis_spec(),
                        cross_min == spec_cross_min(axis, constraints),
                        cross_max == spec_cross_max(axis, constraints),
                        spec_main_max(axis, constraints) is None,
                        forall|r: &R, k: Constraints| measure.requires((r, k)),
                        forall|j: int|
                            0 <= j < i ==> measure.ensures(
                                (&self.child_spec(j), asked(axis, fl, constraints, child_sizes@, j)),
                                child_sizes@[j],
                            ),
                    decreases n - i,
                {
                    let size = measure(
                        self.children[i].child.get(),
                        axis.child_constraints(0, None, cross_min, cross_max),
                    );
                    child_sizes.set(i, size);
                    i += 1;
                }
            },
        }
        let mut main: u16 = 0;
        let mut cross: u16 = 0;
        let mut k: usize = 0;
        while k < n
            invariant
                k <= n,
                child_sizes@.len() == n,
                main == main_sum(axis, child_sizes@, k as int),
                cross == cross_fold(axis, child_sizes@, k as int),
            decreases n - k,
        {
            let s = child_sizes[k];
            main = main.saturating_add(axis.main_size(s));
            let c = axis.cross_size(s);
            cross = if cross >= c { cross } else { c };
            k += 1;
        }
        let size = constraints.constrain(axis.size(main, cross));
        let mut main_offset: u16 = 0;
        let mut child_rects: Vec<Rect> = Vec::new();
        let mut k: usize = 0;
        while k < n
            invariant
                k <= n,
                child_sizes@.len() == n,
                child_rects@.len() == k,
                main_offset == main_sum(axis, child_sizes@, k as int),
                forall|j: int|
                    0 <= j < k ==> child_rects@[j] == spec_axis_rect(
                        axis,
                        origin,
                        main_sum(axis, child_sizes@, j),
                        child_sizes@[j],
                    ),
            decreases n - k,
        {
            let s = child_sizes[k];
            child_rects.push(axis.rect(origin, main_offset, s));
            main_offset = main_offset.saturating_add(axis.main_size(s));
            k += 1;
        }
        FlexPlan { size, child_sizes, child_rects }
    }
}

impl<'a, R> LayoutFlexRenderable<'a, R> {
    /// The size the container takes within `constraints`.
    pub fn measure_inner<F>(&self, constraints: Constraints, measure: &F) -> (r: Size) where
        F: Fn(&R, Constraints) -> Size,
        requires
            forall|c: &R, k: Constraints| measure.requires((c, k)),
            flex_total(self.flexes_spec(), self.flexes_spec().len() as int) <= u32::MAX,
        ensures
            exists|sizes: Seq<Size>|
                measured_by(*self, constraints, measure, sizes) && r == spec_flex_size(
                    self.axis_spec(),
                    constraints,
                    sizes,
                ),
    {
        let p = self.plan(constraints, Rect::zero(), measure);
        assert(measured_by(*self, constraints, measure, p.child_sizes@));
        p.size
    }
}

/// Horizontal flex layout.
pub struct LayoutFlexRow<'a, R> {
    inner: LayoutFlexRenderable<'a, R>,
}

/// Vertical flex layout.
pub struct LayoutFlexColumn<'a, R> {
    inner: LayoutFlexRenderable<'a, R>,
}

impl<'a, R> LayoutFlexRow<'a, R> {
    /// The underlying horizontal container.
    pub closed spec fn flex_spec(&self) -> LayoutFlexRenderable<'a, R> {
        self.inner
    }
    /// Number of children.
    pub fn len(&self) -> (n: usize)
        ensures
            n == self.flex_spec().flexes_spec().len(),
    {
        self.inner.len()
    }

    /// Child `i`.
    pub fn child(&self, i: usize) -> (r: &R)
        requires
            i < self.flex_spec().flexes_spec().len(),
        ensures
            *r == self.flex_spec().child_spec(i as int),
    {
        self.inner.child(i)
    }


    /// An empty row.
    pub fn new() -> (r: Self)
        ensures
            r.flex_spec().axis_spec() == Axis::Horizontal,
            r.flex_spec().flexes_spec() == Seq::<(u16, FlexFit)>::empty(),
    {
        LayoutFlexRow { inner: LayoutFlexRenderable::new(Axis::Horizontal) }
    }

    /// Append a child held by the row.
    pub fn push(&mut self, flex: u16, fit: FlexFit, child: R)
        ensures
            final(self).flex_spec().axis_spec() == old(self).flex_spec().axis_spec(),
            final(self).flex_spec().flexes_spec() == old(self).flex_spec().flexes_spec().push((flex, fit)),
            final(self).flex_spec().child_spec(old(self).flex_spec().flexes_spec().len() as int) == child,
            forall|i: int|
                0 <= i < old(self).flex_spec().flexes_spec().len() ==> final(self).flex_spec().child_spec(i) == old(
                    self,
                ).flex_spec().child_spec(i),
    {
        self.inner.push(flex, fit, child);
    }

    /// Append a child, however it is held.
    pub fn push_item(&mut self, flex: u16, fit: FlexFit, child: LayoutRenderableItem<'a, R>)
        ensures
            final(self).flex_spec().axis_spec() == old(self).flex_spec().axis_spec(),
            final(self).flex_spec().flexes_spec() == old(self).flex_spec().flexes_spec().push((flex, fit)),
            final(self).flex_spec().child_spec(old(self).flex_spec().flexes_spec().len() as int) == *child.inner(),
            forall|i: int|
                0 <= i < old(self).flex_spec().flexes_spec().len() ==> final(self).flex_spec().child_spec(i) == old(
                    self,
                ).flex_spec().child_spec(i),
    {
        self.inner.push_item(flex, fit, child);
    }

    /// Append a child borrowed from the caller.
    pub fn push_ref(&mut self, flex: u16, fit: FlexFit, child: &'a R)
        ensures
            final(self).flex_spec().axis_spec() == old(self).flex_spec().axis_spec(),
            final(self).flex_spec().flexes_spec() == old(self).flex_spec().flexes_spec().push((flex, fit)),
            final(self).flex_spec().child_spec(old(self).flex_spec().flexes_spec().len() as int) == *child,
            forall|i: int|
                0 <= i < old(self).flex_spec().flexes_spec().len() ==> final(self).flex_spec().child_spec(i) == old(
                    self,
                ).flex_spec().child_spec(i),
    {
        self.inner.push_ref(flex, fit, child);
    }

    /// The size the row takes within `constraints`.
    pub fn measure<F>(&self, constraints: Constraints, measure: &F) -> (r: Size) where
        F: Fn(&R, Constraints) -> Size,
        requires
            forall|c: &R, k: Constraints| measure.requires((c, k)),
            flex_total(self.flex_spec().flexes_spec(), self.flex_spec().flexes_spec().len() as int) <= u32::MAX,
        ensures
            exists|sizes: Seq<Size>|
                measured_by(self.flex_spec(), constraints, measure, sizes) && r == spec_flex_size(
                    self.flex_spec().axis_spec(),
                    constraints,
                    sizes,
                ),
    {
        self.inner.measure_inner(constraints, measure)
    }

    /// Where the row puts its children within `area`.
    pub fn plan<F>(&self, area: Rect, measure: &F) -> (p: FlexPlan) where
        F: Fn(&R, Constraints) -> Size,
        requires
            forall|c: &R, k: Constraints| measure.requires((c, k)),
            flex_total(self.flex_spec().flexes_spec(), self.flex_spec().flexes_spec().len() as int) <= u32::MAX,
        ensures
            measured_by(
                self.flex_spec(),
                Constraints { min_width: 0, max_width: Some(area.width), min_height: 0, max_height: Some(area.height) },
                measure,
                p.child_sizes@,
            ),
            p.child_rects@.len() == p.child_sizes@.len(),
            forall|i: int|
                0 <= i < p.child_rects@.len() ==> p.child_rects@[i] == spec_axis_rect(
                    self.flex_spec().axis_spec(),
                    area,
                    main_sum(self.flex_spec().axis_spec(), p.child_sizes@, i),
                    p.child_sizes@[i],
                ),
    {
        self.inner.plan(Constraints::loose(area.width, area.height), area, measure)
    }
}

impl<'a, R> Default for LayoutFlexRow<'a, R> {
    /// An empty row.
    fn default() -> (r: Self)
        ensures
            r.flex_spec().axis_spec() == Axis::Horizontal,
            r.flex_spec().flexes_spec() == Seq::<(u16, FlexFit)>::empty(),
    {
        Self::new()
    }
}

impl<'a, R> LayoutFlexColumn<'a, R> {
    /// The underlying vertical container.
    pub closed spec fn flex_spec(&self) -> LayoutFlexRenderable<'a, R> {
        self.inner
    }
    /// Number of children.
    pub fn len(&self) -> (n: usize)
        ensures
            n == self.flex_spec().flexes_spec().len(),
    {
        self.inner.len()
    }

    /// Child `i`.
    pub fn child(&self, i: usize) -> (r: &R)
        requires
            i < self.flex_spec().flexes_spec().len(),
        ensures
            *r == self.flex_spec().child_spec(i as int),
    {
        self.inner.child(i)
    }


    /// An empty column.
    pub fn new() -> (r: Self)
        ensures
            r.flex_spec().axis_spec() == Axis::Vertical,
            r.flex_spec().flexes_spec() == Seq::<(u16, FlexFit)>::empty(),
    {
        LayoutFlexColumn { inner: LayoutFlexRenderable::new(Axis::Vertical) }
    }

    /// Append a child held by the column.
    pub fn push(&mut self, flex: u16, fit: FlexFit, child: R)
        ensures
            final(self).flex_spec().axis_spec() == old(self).flex_spec().axis_spec(),
            final(self).flex_spec().flexes_spec() == old(self).flex_spec().flexes_spec().push((flex, fit)),
            final(self).flex_spec().child_spec(old(self).flex_spec().flexes_spec().len() as int) == child,
            forall|i: int|
                0 <= i < old(self).flex_spec().flexes_spec().len() ==> final(self).flex_spec().child_spec(i) == old(
                    self,
                ).flex_spec().child_spec(i),
    {
        self.inner.push(flex, fit, child);
    }

    /// Append a child, however it is held.
    pub fn push_item(&mut self, flex: u16, fit: FlexFit, child: LayoutRenderableItem<'a, R>)
        ensures
            final(self).flex_spec().axis_spec() == old(self).flex_spec().axis_spec(),
            final(self).flex_spec().flexes_spec() == old(self).flex_spec().flexes_spec().push((flex, fit)),
            final(self).flex_spec().child_spec(old(self).flex_spec().flexes_spec().len() as int) == *child.inner(),
            forall|i: int|
                0 <= i < old(self).flex_spec().flexes_spec().len() ==> final(self).flex_spec().child_spec(i) == old(
                    self,
                ).flex_spec().child_spec(i),
    {
        self.inner.push_item(flex, fit, child);
    }

    /// Append a child borrowed from the caller.
    pub fn push_ref(&mut self, flex: u16, fit: FlexFit, child: &'a R)
        ensures
            final(self).flex_spec().axis_spec() == old(self).flex_spec().axis_spec(),
            final(self).flex_spec().flexes_spec() == old(self).flex_spec().flexes_spec().push((flex, fit)),
            final(self).flex_spec().child_spec(old(self).flex_spec().flexes_spec().len() as int) == *child,
            forall|i: int|
                0 <= i < old(self).flex_spec().flexes_spec().len() ==> final(self).flex_spec().child_spec(i) == old(
                    self,
                ).flex_spec().child_spec(i),
    {
        self.inner.push_ref(flex, fit, child);
    }

    /// The size the column takes within `constraints`.
    pub fn measure<F>(&self, constraints: Constraints, measure: &F) -> (r: Size) where
        F: Fn(&R, Constraints) -> Size,
        requires
            forall|c: &R, k: Constraints| measure.requires((c, k)),
            flex_total(self.flex_spec().flexes_spec(), self.flex_spec().flexes_spec().len() as int) <= u32::MAX,
        ensures
            exists|sizes: Seq<Size>|
                measured_by(self.flex_spec(), constraints, measure, sizes) && r == spec_flex_size(
                    self.flex_spec().axis_spec(),
                    constraints,
                    sizes,
                ),
    {
        self.inner.measure_inner(constraints, measure)
    }

    /// Where the column puts its children within `area`.
    pub fn plan<F>(&self, area: Rect, measure: &F) -> (p: FlexPlan) where
        F: Fn(&R, Constraints) -> Size,
        requires
            forall|c: &R, k: Constraints| measure.requires((c, k)),
            flex_total(self.flex_spec().flexes_spec(), self.flex_spec().flexes_spec().len() as int) <= u32::MAX,
        ensures
            measured_by(
                self.flex_spec(),
                Constraints { min_width: 0, max_width: Some(area.width), min_height: 0, max_height: Some(area.height) },
                measure,
                p.child_sizes@,
            ),
            p.child_rects@.len() == p.child_sizes@.len(),
            forall|i: int|
                0 <= i < p.child_rects@.len() ==> p.child_rects@[i] == spec_axis_rect(
                    self.flex_spec().axis_spec(),
                    area,
                    main_sum(self.flex_spec().axis_spec(), p.child_sizes@, i),
                    p.child_sizes@[i],
                ),
    {
        self.inner.plan(Constraints::loose(area.width, area.height), area, measure)
    }
}

impl<'a, R> Default for LayoutFlexColumn<'a, R> {
    /// An empty column.
    fn default() -> (r: Self)
        ensures
            r.flex_spec().axis_spec() == Axis::Vertical,
            r.flex_spec().flexes_spec() == Seq::<(u16, FlexFit)>::empty(),
    {
        Self::new()
    }
}

} // verus!
