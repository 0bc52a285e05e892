use mb_tui::render::layout::{Constraints, LayoutRenderableItem, Rect, Size};
use mb_tui::render::layout_flex::{FlexFit, LayoutFlexColumn, LayoutFlexRow};

fn fixed(size: &Size, constraints: Constraints) -> Size {
    constraints.constrain(*size)
}

#[test]
fn row_shares_free_space_after_fixed_children() {
    let mut row: LayoutFlexRow<Size> = LayoutFlexRow::new();
    row.push(0, FlexFit::Loose, Size::new(3, 1));
    row.push(1, FlexFit::Tight, Size::new(1, 1));
    row.push(0, FlexFit::Loose, Size::new(2, 2));
    let plan = row.plan(Rect::new(0, 0, 10, 5), &fixed);
    assert_eq!(
        plan.child_sizes,
        vec![Size::new(3, 1), Size::new(5, 1), Size::new(2, 2)]
    );
    assert_eq!(
        plan.child_rects,
        vec![
            Rect::new(0, 0, 3, 1),
            Rect::new(3, 0, 5, 1),
            Rect::new(8, 0, 2, 2)
        ]
    );
    assert_eq!(plan.size, Size::new(10, 2));
    assert_eq!(
        row.measure(Constraints::loose(10, 5), &fixed),
        Size::new(10, 2)
    );
}

#[test]
fn loose_flex_child_may_stay_smaller_than_its_share() {
    let mut row: LayoutFlexRow<Size> = LayoutFlexRow::default();
    row.push(1, FlexFit::Loose, Size::new(2, 1));
    row.push(1, FlexFit::Tight, Size::new(2, 1));
    let plan = row.plan(Rect::new(1, 1, 9, 3), &fixed);
    assert_eq!(plan.child_sizes, vec![Size::new(2, 1), Size::new(5, 1)]);
    assert_eq!(
        plan.child_rects,
        vec![Rect::new(1, 1, 2, 1), Rect::new(3, 1, 5, 1)]
    );
}

#[test]
fn shares_follow_flex_factors_and_last_takes_remainder() {
    let mut column: LayoutFlexColumn<Size> = LayoutFlexColumn::new();
    column.push(1, FlexFit::Tight, Size::new(1, 0));
    column.push(2, FlexFit::Tight, Size::new(1, 0));
    column.push(2, FlexFit::Tight, Size::new(1, 0));
    let plan = column.plan(Rect::new(0, 0, 4, 11), &fixed);
    assert_eq!(
        plan.child_sizes,
        vec![Size::new(1, 2), Size::new(1, 4), Size::new(1, 5)]
    );
    assert_eq!(plan.size, Size::new(1, 11));
}

#[test]
fn fixed_children_see_only_remaining_space() {
    let mut row: LayoutFlexRow<Size> = LayoutFlexRow::new();
    row.push(0, FlexFit::Loose, Size::new(7, 1));
    row.push(0, FlexFit::Loose, Size::new(7, 1));
    let plan = row.plan(Rect::new(0, 0, 10, 1), &fixed);
    assert_eq!(plan.child_sizes, vec![Size::new(7, 1), Size::new(3, 1)]);
}

#[test]
fn unbounded_main_axis_measures_children_freely() {
    let a = Size::new(4, 2);
    let mut column: LayoutFlexColumn<Size> = LayoutFlexColumn::new();
    column.push_ref(1, FlexFit::Tight, &a);
    column.push_item(0, FlexFit::Loose, LayoutRenderableItem::Owned(Size::new(6, 3)));
    let c = Constraints::new(0, Some(20), 0, None);
    assert_eq!(column.measure(c, &fixed), Size::new(6, 5));
}

#[test]
fn rects_are_clamped_to_the_coordinate_space() {
    let mut row: LayoutFlexRow<Size> = LayoutFlexRow::new();
    row.push(0, FlexFit::Loose, Size::new(10, 1));
    let plan = row.plan(Rect::new(65530, 0, 20, 1), &fixed);
    assert_eq!(plan.child_rects, vec![Rect::new(65530, 0, 5, 1)]);
    assert_eq!(plan.child_rects[0].width, 5);
}
