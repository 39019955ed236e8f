use barust::statusbar::{
    bar_y, click_target, find_collision, generate_regions, generate_split_regions, layout_fits_in,
    redraw_plan, regions_ready, split_layout_fits_in, strut_partial, LayoutItem, Redraw, RightLeft,
};
use barust::utils::{Position, Rectangle};
use barust::widgets::Size;

fn item(padding: u32, size: Option<Size>) -> LayoutItem {
    LayoutItem { padding, size, fallback_width: 40, fallback_padding: 10 }
}

fn rect(x: u32, width: u32, height: u32) -> Rectangle {
    Rectangle { x, y: 0, width, height }
}

#[test]
fn size_helpers() {
    assert!(Size::Flex.is_flex());
    assert!(!Size::Static(3).is_flex());
    assert_eq!(Size::Flex.unwrap_or(7), 7);
    assert_eq!(Size::Static(3).unwrap_or(7), 3);
}

#[test]
fn layout_with_one_flexible_widget() {
    // 100 px bar: a 20 px widget padded by 5, a flexible one padded by 10
    let items = vec![item(5, Some(Size::Static(20))), item(10, Some(Size::Flex))];
    let mut regions = vec![Rectangle::default(); 2];
    let changed = generate_regions(&items, 100, 21, &mut regions);
    assert!(changed);
    // static extent: 20 + 10 + 20 = 50, so the flexible widget gets 50
    assert_eq!(regions, vec![rect(5, 20, 21), rect(40, 50, 21)]);
    // the flexible widget ends 10 px (its padding) before the right edge
    assert_eq!(regions[1].x + regions[1].width + 10, 100);
    // laying out again moves nothing
    assert!(!generate_regions(&items, 100, 21, &mut regions));
}

#[test]
fn layout_without_flexible_widget_gives_leftover_to_none() {
    let items = vec![item(0, Some(Size::Static(10))), item(2, Some(Size::Static(6)))];
    let mut regions = vec![Rectangle::default(); 2];
    generate_regions(&items, 50, 20, &mut regions);
    assert_eq!(regions, vec![rect(0, 10, 20), rect(12, 6, 20)]);
}

#[test]
fn layout_splits_free_space_evenly() {
    let items = vec![item(0, Some(Size::Flex)), item(0, Some(Size::Static(1))), item(0, Some(Size::Flex))];
    let mut regions = vec![Rectangle::default(); 3];
    generate_regions(&items, 10, 5, &mut regions);
    // free width 9 split in two: 4 each, one pixel left over
    assert_eq!(regions, vec![rect(0, 4, 5), rect(4, 1, 5), rect(5, 4, 5)]);
}

#[test]
fn layout_uses_the_replacement_of_a_failed_widget() {
    let items = vec![item(3, None), item(0, Some(Size::Static(5)))];
    let mut regions = vec![Rectangle::default(); 2];
    generate_regions(&items, 100, 8, &mut regions);
    // padding 3 before, replacement 40 wide with padding 10 after
    assert_eq!(regions, vec![rect(3, 40, 8), rect(53, 5, 8)]);
}

#[test]
fn layout_keeps_regions_beyond_the_widgets() {
    let items = vec![item(0, Some(Size::Static(5)))];
    let extra = rect(99, 1, 1);
    let mut regions = vec![Rectangle::default(), extra];
    generate_regions(&items, 10, 2, &mut regions);
    assert_eq!(regions, vec![rect(0, 5, 2), extra]);
}

#[test]
fn split_layout_continues_right_after_left() {
    let left = vec![Some(Size::Static(10)), Some(Size::Flex)];
    let right = vec![Some(Size::Static(5))];
    let mut l = Vec::new();
    let mut r = vec![rect(1, 1, 1)];
    assert!(generate_split_regions(&left, &right, 100, 20, &mut l, &mut r));
    assert_eq!(l, vec![rect(0, 10, 20), rect(10, 85, 20)]);
    assert_eq!(r, vec![rect(95, 5, 20)]);
}

#[test]
fn split_layout_stops_at_a_failed_widget() {
    let left = vec![Some(Size::Flex), None];
    let right = vec![Some(Size::Static(5))];
    let mut l = vec![rect(7, 7, 7)];
    let old_right = vec![rect(1, 1, 1)];
    let mut r = old_right.clone();
    assert!(!generate_split_regions(&left, &right, 100, 20, &mut l, &mut r));
    assert_eq!(l, vec![rect(0, 95, 20)]);
    assert_eq!(r, old_right);

    let left = vec![Some(Size::Flex)];
    let right = vec![Some(Size::Static(5)), None];
    let mut l = Vec::new();
    let mut r = Vec::new();
    assert!(!generate_split_regions(&left, &right, 100, 20, &mut l, &mut r));
    assert_eq!(l, vec![rect(0, 95, 20)]);
    assert_eq!(r, vec![rect(95, 5, 20)]);
}

#[test]
fn collisions_use_the_first_region_hit() {
    let regions = [
        Rectangle { x: 0, y: 0, width: 30, height: 20 },
        Rectangle { x: 10, y: 0, width: 30, height: 20 },
    ];
    assert_eq!(find_collision(&regions, 15, 5), Some(0));
    assert_eq!(find_collision(&regions, 35, 5), Some(1));
    // the edges do not count
    assert_eq!(find_collision(&regions, 0, 5), None);
    assert_eq!(find_collision(&regions, 5, 0), None);
    // the vertical test uses the width: y = 25 is inside a 30 wide region
    assert_eq!(find_collision(&regions, 5, 25), Some(0));
    // negative coordinates become large unsigned ones
    assert_eq!(find_collision(&regions, -1, 5), None);
}

#[test]
fn clicks_reach_the_right_side_first() {
    let left = vec![Rectangle { x: 0, y: 0, width: 50, height: 20 }];
    let right = vec![Rectangle { x: 40, y: 0, width: 50, height: 20 }];
    assert_eq!(click_target(&left, &right, 45, 5), Some((RightLeft::Right, 0)));
    assert_eq!(click_target(&left, &right, 20, 5), Some((RightLeft::Left, 0)));
    assert_eq!(click_target(&left, &right, 100, 5), None);
}

#[test]
fn bar_window_position_and_strut() {
    assert_eq!(bar_y(Position::Top, 4, 1080, 21), 4);
    assert_eq!(bar_y(Position::Bottom, 4, 1080, 21), 1059);
    assert_eq!(strut_partial(21, 1920), vec![0, 0, 21, 0, 0, 0, 0, 0, 0, 1920, 0, 0]);
}

#[test]
fn redraw_after_events() {
    assert_eq!(redraw_plan(Some(2), true), Redraw::All);
    assert_eq!(redraw_plan(Some(2), false), Redraw::Only(2));
    assert_eq!(redraw_plan(None, false), Redraw::Nothing);
    assert_eq!(redraw_plan(None, true), Redraw::All);
}

#[test]
fn drawing_needs_one_region_per_widget() {
    assert!(regions_ready(2, 2, 1, 1));
    assert!(!regions_ready(0, 2, 1, 1));
    assert!(!regions_ready(2, 2, 0, 1));
}

#[test]
fn layout_fits_only_when_fixed_widths_fit() {
    let items = vec![item(5, Some(Size::Static(20))), item(10, Some(Size::Flex))];
    // static extent is 50
    assert!(layout_fits_in(&items, 100));
    assert!(layout_fits_in(&items, 50));
    assert!(!layout_fits_in(&items, 49));
    assert!(layout_fits_in(&Vec::new(), 0));
    // a failed widget is replaced by one 40 px wide padded by 10: its own
    // padding (5) counts before the replacement's width is known
    let failed = vec![item(5, None)];
    assert!(layout_fits_in(&failed, 10));
    // the regions would run past u32::MAX
    let wide = vec![
        item(0, Some(Size::Static(u32::MAX))),
        item(0, None),
    ];
    assert!(!layout_fits_in(&wide, u32::MAX));
}

#[test]
fn split_layout_needs_a_flexible_widget_and_room() {
    let left = vec![Some(Size::Static(10)), Some(Size::Flex)];
    let right = vec![Some(Size::Static(5))];
    assert!(split_layout_fits_in(&left, &right, 100));
    assert!(split_layout_fits_in(&left, &right, 15));
    assert!(!split_layout_fits_in(&left, &right, 14));
    // no flexible widget: the share would be a division by zero
    let fixed = vec![Some(Size::Static(10))];
    assert!(!split_layout_fits_in(&fixed, &Vec::new(), 100));
    // a widget that failed takes no room
    let failed = vec![None, Some(Size::Flex)];
    assert!(split_layout_fits_in(&failed, &Vec::new(), 0));
}

#[test]
fn clicks_on_the_split_layout_reach_one_widget() {
    let left = vec![Some(Size::Static(10)), Some(Size::Flex)];
    let right = vec![Some(Size::Static(5))];
    let (mut l, mut r) = (Vec::new(), Vec::new());
    assert!(generate_split_regions(&left, &right, 100, 20, &mut l, &mut r));
    // the vertical position is compared against the region's width
    assert_eq!(click_target(&l, &r, 5, 3), Some((RightLeft::Left, 0)));
    assert_eq!(click_target(&l, &r, 50, 3), Some((RightLeft::Left, 1)));
    assert_eq!(click_target(&l, &r, 97, 3), Some((RightLeft::Right, 0)));
    // a click on the edge between two regions reaches neither
    assert_eq!(click_target(&l, &r, 10, 3), None);
}
