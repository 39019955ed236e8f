//! The bar's own decisions: where each widget goes, which widget a click
//! lands on, and where the bar window sits on the screen.
use crate::utils::{Position, Rectangle};
use crate::widgets::Size;
use vstd::prelude::*;

verus! {

/// What the layout needs of one widget.
#[derive(Debug, Clone, Copy, PartialEq, Eq, Structural)]
pub struct LayoutItem {
    /// The padding the widget reports on each side.
    pub padding: u32,
    /// The size the widget reports, or `None` when it failed to report one.
    pub size: Option<Size>,
    /// For a widget that failed: the width of the widget that replaces it.
    pub fallback_width: u32,
    /// For a widget that failed: the padding of the widget that replaces it.
    pub fallback_padding: u32,
}

/// What one widget takes of the width before the flexible share is known:
/// its fixed width if it has one, and its padding on both sides.
pub open spec fn item_static_extent(item: LayoutItem) -> int {
    match item.size {
        Some(Size::Static(w)) => w + 2 * item.padding,
        _ => 2 * item.padding,
    }
}

/// The width taken by all widgets before the flexible share is known.
pub open spec fn static_extent(items: Seq<LayoutItem>) -> int
    decreases items.len(),
{
    if items.len() == 0 {
        0
    } else {
        static_extent(items.drop_last()) + item_static_extent(items.last())
    }
}

/// How many widgets report a flexible size.
pub open spec fn flex_count(items: Seq<LayoutItem>) -> nat
    decreases items.len(),
{
    if items.len() == 0 {
        0
    } else {
        flex_count(items.drop_last()) + if items.last().size == Some(Size::Flex) {
            1nat
        } else {
            0nat
        }
    }
}

/// The width each flexible widget gets: the free width split evenly, or all
/// of it when no widget is flexible.
pub open spec fn flex_width(items: Seq<LayoutItem>, width: int) -> int {
    let free = width - static_extent(items);
    if flex_count(items) == 0 {
        free
    } else {
        free / (flex_count(items) as int)
    }
}

/// The width given to one widget.
pub open spec fn item_width(item: LayoutItem, flex: int) -> int {
    match item.size {
        Some(Size::Flex) => flex,
        Some(Size::Static(w)) => w as int,
        None => item.fallback_width as int,
    }
}

/// How far one widget moves the next one to the right: its padding, its
/// width, and the padding after it (that of its replacement if it failed).
pub open spec fn item_advance(item: LayoutItem, flex: int) -> int {
    item.padding + item_width(item, flex) + if item.size is Some {
        item.padding as int
    } else {
        item.fallback_padding as int
    }
}

/// Where the space of widget `i` starts: the advance of all widgets before it.
pub open spec fn advance_before(items: Seq<LayoutItem>, i: int, flex: int) -> int
    decreases i,
{
    if i <= 0 {
        0
    } else {
        advance_before(items, i - 1, flex) + item_advance(items[i - 1], flex)
    }
}

/// The region of widget `i` in a bar of the given size.
pub open spec fn layout_region(items: Seq<LayoutItem>, i: int, width: int, height: u32) -> Rectangle {
    let flex = flex_width(items, width);
    Rectangle {
        x: (advance_before(items, i, flex) + items[i].padding) as u32,
        y: 0,
        width: item_width(items[i], flex) as u32,
        height,
    }
}

/// The widgets fit in the bar: their fixed widths and paddings do not exceed
/// its width, and the regions can be numbered in `u32`.
pub open spec fn layout_fits(items: Seq<LayoutItem>, width: int) -> bool {
    &&& static_extent(items) <= width
    &&& items.len() <= u32::MAX
    &&& advance_before(items, items.len() as int, flex_width(items, width)) <= u32::MAX
}

proof fn lemma_static_extent_take(items: Seq<LayoutItem>, i: int)
    requires
        0 <= i < items.len(),
    ensures
        static_extent(items.take(i + 1)) == static_extent(items.take(i)) + item_static_extent(
            items[i],
        ),
        static_extent(items.take(i)) <= static_extent(items),
{
    assert(items.take(i + 1).drop_last() =~= items.take(i));
    lemma_static_extent_prefix(items, i);
}

proof fn lemma_static_extent_prefix(items: Seq<LayoutItem>, i: int)
    requires
        0 <= i <= items.len(),
    ensures
        static_extent(items.take(i)) <= static_extent(items),
    decreases items.len() - i,
{
    if i < items.len() {
        lemma_static_extent_prefix(items, i + 1);
        assert(items.take(i + 1).drop_last() =~= items.take(i));
    } else {
        assert(items.take(i) =~= items);
    }
}

proof fn lemma_flex_count_take(items: Seq<LayoutItem>, i: int)
    requires
        0 <= i < items.len(),
    ensures
        flex_count(items.take(i + 1)) == flex_count(items.take(i)) + if items[i].size == Some(
            Size::Flex,
        ) {
            1nat
        } else {
            0nat
        },
        flex_count(items.take(i)) <= i,
    decreases i,
{
    assert(items.take(i + 1).drop_last() =~= items.take(i));
    if i > 0 {
        lemma_flex_count_take(items, i - 1);
    }
}

proof fn lemma_advance_monotone(items: Seq<LayoutItem>, i: int, j: int, flex: int)
    requires
        0 <= i <= j <= items.len(),
        flex >= 0,
    ensures
        advance_before(items, i, flex) <= advance_before(items, j, flex),
    decreases j - i,
{
    if i < j {
        lemma_advance_monotone(items, i, j - 1, flex);
    }
}

/// Lays the widgets out from left to right: each widget gets its padding,
/// its width (a fixed width, the flexible share, or its replacement's width)
/// and its padding again. Writes the region of each widget over the regions
/// held so far, and tells whether any of them changed.
pub fn generate_regions(
    items: &Vec<LayoutItem>,
    width: u32,
    height: u32,
    regions: &mut Vec<Rectangle>,
) -> (changed: bool)
    requires
        layout_fits(items@, width as int),
    ensures
        final(regions)@.len() == old(regions)@.len(),
        forall|i: int|
            0 <= i < items@.len() && i < old(regions)@.len() ==> final(regions)@[i]
                == layout_region(items@, i, width as int, height),
        forall|i: int|
            items@.len() <= i < old(regions)@.len() ==> final(regions)@[i] == old(regions)@[i],
        changed == exists|i: int|
            0 <= i < items@.len() && i < old(regions)@.len() && old(regions)@[i]
                != layout_region(items@, i, width as int, height),
{
    let ghost old_regions = regions@;
    let n = items.len();
    let mut static_size: u32 = 0;
    let mut flex_widgets: u32 = 0;
    let mut i: usize = 0;
    while i < n
        invariant
            n == items@.len(),
            i <= n,
            layout_fits(items@, width as int),
            static_size == static_extent(items@.take(i as int)),
            flex_widgets == flex_count(items@.take(i as int)),
        decreases n - i,
    {
        proof {
            lemma_static_extent_take(items@, i as int);
            lemma_static_extent_take(items@, i as int);
            lemma_flex_count_take(items@, i as int);
            lemma_static_extent_prefix(items@, i as int + 1);
        }
        let item = items[i];
        match item.size {
            Some(Size::Static(w)) => {
                static_size = static_size + (w + 2 * item.padding);
            },
            Some(Size::Flex) => {
                static_size = static_size + 2 * item.padding;
                flex_widgets = flex_widgets + 1;
            },
            None => {
                static_size = static_size + 2 * item.padding;
            },
        }
        i = i + 1;
    }
    proof {
        assert(items@.take(n as int) =~= items@);
    }
    let free = width - static_size;
    let flex_size = if flex_widgets == 0 {
        free
    } else {
        free / flex_widgets
    };
    let ghost flex = flex_width(items@, width as int);
    assert(flex_size == flex);
    let m = if n < regions.len() {
        n
    } else {
        regions.len()
    };
    let mut changed = false;
    let mut x: u32 = 0;
    let mut i: usize = 0;
    while i < m
        invariant
            n == items@.len(),
            m <= n,
            m <= old_regions.len(),
            i <= m,
            regions@.len() == old_regions.len(),
            layout_fits(items@, width as int),
            flex == flex_width(items@, width as int),
            flex_size == flex,
            x == advance_before(items@, i as int, flex),
            forall|j: int|
                0 <= j < i ==> regions@[j] == layout_region(items@, j, width as int, height),
            forall|j: int| i <= j < old_regions.len() ==> regions@[j] == old_regions[j],
            changed == exists|j: int|
                0 <= j < i && old_regions[j] != layout_region(items@, j, width as int, height),
        decreases m - i,
    {
        proof {
            lemma_advance_monotone(items@, i as int + 1, n as int, flex);
        }
        let item = items[i];
        x = x + item.padding;
        let (widget_width, trailing) = match item.size {
            Some(s) => (s.unwrap_or(flex_size), item.padding),
            None => (item.fallback_width, item.fallback_padding),
        };
        let rectangle = Rectangle { x, y: 0, width: widget_width, height };
        assert(rectangle == layout_region(items@, i as int, width as int, height));
        if !changed && regions[i] != rectangle {
            changed = true;
        }
        proof {
            let r = layout_region(items@, i as int, width as int, height);
            assert(old_regions[i as int] == regions@[i as int]);
            if old_regions[i as int] != r {
                assert(0 <= i < i + 1 && old_regions[i as int] != layout_region(
                    items@,
                    i as int,
                    width as int,
                    height,
                ));
            }
            assert(changed == exists|j: int|
                0 <= j < i + 1 && old_regions[j] != layout_region(
                    items@,
                    j,
                    width as int,
                    height,
                ));
        }
        regions.set(i, rectangle);
        x = x + widget_width + trailing;
        i = i + 1;
    }
    changed
}


/// Tells whether the widgets fit in a bar of the given width, so that
/// [generate_regions] may be called on them.
pub fn layout_fits_in(items: &Vec<LayoutItem>, width: u32) -> (r: bool)
    ensures
        r == layout_fits(items@, width as int),
{
    let n = items.len();
    if n as u64 > 0xffff_ffffu64 {
        return false;
    }
    let mut static_size: u64 = 0;
    let mut flex_widgets: u64 = 0;
    let mut i: usize = 0;
    while i < n
        invariant
            n == items@.len(),
            n <= u32::MAX,
            i <= n,
            static_size == static_extent(items@.take(i as int)),
            static_size <= width,
            flex_widgets == flex_count(items@.take(i as int)),
        decreases n - i,
    {
        proof {
            lemma_static_extent_take(items@, i as int);
            lemma_flex_count_take(items@, i as int);
            lemma_static_extent_prefix(items@, i as int + 1);
        }
        let item = items[i];
        let pad = 2 * (item.padding as u64);
        match item.size {
            Some(Size::Static(w)) => {
                static_size = static_size + (w as u64 + pad);
            },
            Some(Size::Flex) => {
                static_size = static_size + pad;
                flex_widgets = flex_widgets + 1;
            },
            None => {
                static_size = static_size + pad;
            },
        }
        if static_size > width as u64 {
            return false;
        }
        i = i + 1;
    }
    proof {
        assert(items@.take(n as int) =~= items@);
    }
    let free = width as u64 - static_size;
    let flex_size = if flex_widgets == 0 {
        free
    } else {
        free / flex_widgets
    };
    let ghost flex = flex_width(items@, width as int);
    assert(flex_size == flex);
    let mut x: u64 = 0;
    let mut i: usize = 0;
    while i < n
        invariant
            n == items@.len(),
            i <= n,
            flex == flex_width(items@, width as int),
            flex_size == flex,
            flex_size <= width,
            x == advance_before(items@, i as int, flex),
            x <= u32::MAX,
        decreases n - i,
    {
        proof {
            lemma_advance_monotone(items@, i as int + 1, n as int, flex);
        }
        let item = items[i];
        let (widget_width, trailing) = match item.size {
            Some(Size::Flex) => (flex_size, item.padding as u64),
            Some(Size::Static(w)) => (w as u64, item.padding as u64),
            None => (item.fallback_width as u64, item.fallback_padding as u64),
        };
        x = x + item.padding as u64 + widget_width + trailing;
        if x > 0xffff_ffffu64 {
            return false;
        }
        i = i + 1;
    }
    true
}

/// Every widget reported a size.
pub open spec fn all_reported(items: Seq<LayoutItem>) -> bool {
    forall|i: int| 0 <= i < items.len() ==> items[i].size is Some
}

proof fn lemma_advance_when_reported(items: Seq<LayoutItem>, k: int, flex: int)
    requires
        0 <= k <= items.len(),
        all_reported(items),
    ensures
        advance_before(items, k, flex) == static_extent(items.take(k)) + flex_count(items.take(k))
            * flex,
    decreases k,
{
    if k > 0 {
        lemma_advance_when_reported(items, k - 1, flex);
        let t = items.take(k);
        assert(t.drop_last() =~= items.take(k - 1));
        assert(t.last() == items[k - 1]);
        let before = flex_count(items.take(k - 1)) as int;
        let it = items[k - 1];
        assert(it.size is Some);
        assert(static_extent(t) == static_extent(items.take(k - 1)) + item_static_extent(it));
        assert(advance_before(items, k, flex) == advance_before(items, k - 1, flex) + item_advance(
            it,
            flex,
        ));
        if it.size == Some(Size::Flex) {
            assert(flex_count(t) == before + 1);
            assert((before + 1) * flex == before * flex + flex) by (nonlinear_arith);
        } else {
            assert(flex_count(t) == before);
        }
    } else {
        assert(items.take(0).len() == 0);
        assert(flex_count(items.take(0)) == 0);
        assert(0 * flex == 0) by (nonlinear_arith);
    }
}

/// When every widget reported its size and the fixed widths fit, the
/// widgets end within the bar; when some widget is flexible, the space left
/// after the last one is less than the number of flexible widgets (the
/// flexible widgets fill the bar but for the rounding of their share).
pub proof fn lemma_layout_fills_bar(items: Seq<LayoutItem>, width: int)
    requires
        all_reported(items),
        0 <= static_extent(items) <= width,
    ensures
        advance_before(items, items.len() as int, flex_width(items, width)) <= width,
        flex_count(items) > 0 ==> width - advance_before(
            items,
            items.len() as int,
            flex_width(items, width),
        ) < flex_count(items),
{
    let flex = flex_width(items, width);
    lemma_advance_when_reported(items, items.len() as int, flex);
    assert(items.take(items.len() as int) =~= items);
    let c = flex_count(items) as int;
    let free = width - static_extent(items);
    if c > 0 {
        assert(flex == free / c);
        assert(c * (free / c) <= free && free - c * (free / c) < c) by (nonlinear_arith)
            requires
                c > 0,
                free >= 0,
        ;
    } else {
        assert(c * flex == 0) by (nonlinear_arith)
            requires
                c == 0,
        ;
    }
}

/// The regions follow each other from left to right: a widget's region ends
/// before the next one's starts, the gap being the paddings between them.
pub proof fn lemma_regions_in_order(items: Seq<LayoutItem>, width: int, height: u32, i: int)
    requires
        layout_fits(items, width),
        0 <= i,
        i + 1 < items.len(),
    ensures
        layout_region(items, i, width, height).x + layout_region(items, i, width, height).width
            <= layout_region(items, i + 1, width, height).x,
        layout_region(items, i + 1, width, height).x == layout_region(items, i, width, height).x
            + layout_region(items, i, width, height).width + (if items[i].size is Some {
            items[i].padding as int
        } else {
            items[i].fallback_padding as int
        }) + items[i + 1].padding,
{
    let flex = flex_width(items, width);
    assert(flex >= 0) by {
        if flex_count(items) > 0 {
            assert((width - static_extent(items)) / (flex_count(items) as int) >= 0) by (nonlinear_arith)
                requires
                    width - static_extent(items) >= 0,
                    flex_count(items) > 0,
            ;
        }
    }
    lemma_advance_monotone(items, i + 2, items.len() as int, flex);
    lemma_advance_monotone(items, 0, i, flex);
    assert(item_width(items[i], flex) >= 0);
    assert(item_width(items[i + 1], flex) >= 0);
    assert(advance_before(items, i + 2, flex) == advance_before(items, i + 1, flex) + item_advance(
        items[i + 1],
        flex,
    ));
    assert(advance_before(items, i + 1, flex) == advance_before(items, i, flex) + item_advance(
        items[i],
        flex,
    ));
}

/// Laying out again widgets that did not change moves no region.
pub proof fn lemma_layout_stable(
    items: Seq<LayoutItem>,
    width: int,
    height: u32,
    regions: Seq<Rectangle>,
)
    requires
        forall|i: int|
            0 <= i < items.len() && i < regions.len() ==> regions[i] == layout_region(
                items,
                i,
                width,
                height,
            ),
    ensures
        !exists|i: int|
            0 <= i < items.len() && i < regions.len() && regions[i] != layout_region(
                items,
                i,
                width,
                height,
            ),
{
}

/// The width a reported size takes before the flexible share is known, in
/// the bar with widgets on both sides: a failed report counts as nothing.
pub open spec fn reported_static_width(size: Option<Size>) -> int {
    match size {
        Some(Size::Static(w)) => w as int,
        _ => 0,
    }
}

/// The fixed width of all widgets of the two-sided bar.
pub open spec fn split_static_width(sizes: Seq<Option<Size>>) -> int
    decreases sizes.len(),
{
    if sizes.len() == 0 {
        0
    } else {
        split_static_width(sizes.drop_last()) + reported_static_width(sizes.last())
    }
}

/// How many widgets of the two-sided bar report a flexible size.
pub open spec fn split_flex_count(sizes: Seq<Option<Size>>) -> nat
    decreases sizes.len(),
{
    if sizes.len() == 0 {
        0
    } else {
        split_flex_count(sizes.drop_last()) + if sizes.last() == Some(Size::Flex) {
            1nat
        } else {
            0nat
        }
    }
}

/// The share of each flexible widget in the two-sided bar.
pub open spec fn split_flex_width(sizes: Seq<Option<Size>>, width: int) -> int {
    (width - split_static_width(sizes)) / (split_flex_count(sizes) as int)
}

/// The width a reported size gets once the flexible share is known.
pub open spec fn reported_width(size: Option<Size>, flex: int) -> int {
    match size {
        Some(Size::Flex) => flex,
        Some(Size::Static(w)) => w as int,
        None => 0,
    }
}

/// Where widget `k` of the two-sided bar starts: the widths of those before it.
pub open spec fn split_start(sizes: Seq<Option<Size>>, k: int, flex: int) -> int
    decreases k,
{
    if k <= 0 {
        0
    } else {
        split_start(sizes, k - 1, flex) + reported_width(sizes[k - 1], flex)
    }
}

/// The region of widget `k` of the two-sided bar, the left widgets coming
/// first and the right ones after them.
pub open spec fn split_region(sizes: Seq<Option<Size>>, k: int, width: int, height: u32) -> Rectangle {
    let flex = split_flex_width(sizes, width);
    Rectangle {
        x: split_start(sizes, k, flex) as u32,
        y: 0,
        width: reported_width(sizes[k], flex) as u32,
        height,
    }
}

/// The regions of widgets `from` up to `to` of the two-sided bar.
pub open spec fn split_regions(
    sizes: Seq<Option<Size>>,
    from: int,
    to: int,
    width: int,
    height: u32,
) -> Seq<Rectangle> {
    Seq::new((to - from) as nat, |j: int| split_region(sizes, from + j, width, height))
}

/// The two-sided bar can be laid out: some widget is flexible (the share is
/// a division by their number), the fixed widths fit in the bar, and the
/// positions can be numbered in `u32`.
pub open spec fn split_layout_fits(sizes: Seq<Option<Size>>, width: int) -> bool {
    &&& split_flex_count(sizes) > 0
    &&& sizes.len() <= u32::MAX
    &&& split_static_width(sizes) <= width
    &&& split_start(sizes, sizes.len() as int, split_flex_width(sizes, width)) <= u32::MAX
}

proof fn lemma_split_take(sizes: Seq<Option<Size>>, i: int)
    requires
        0 <= i < sizes.len(),
    ensures
        split_static_width(sizes.take(i + 1)) == split_static_width(sizes.take(i))
            + reported_static_width(sizes[i]),
        split_flex_count(sizes.take(i + 1)) == split_flex_count(sizes.take(i)) + if sizes[i]
            == Some(Size::Flex) {
            1nat
        } else {
            0nat
        },
        split_static_width(sizes.take(i + 1)) <= split_static_width(sizes),
        split_flex_count(sizes.take(i + 1)) <= i + 1,
    decreases i,
{
    assert(sizes.take(i + 1).drop_last() =~= sizes.take(i));
    lemma_split_static_prefix(sizes, i + 1);
    if i > 0 {
        lemma_split_take(sizes, i - 1);
    }
}

proof fn lemma_split_static_prefix(sizes: Seq<Option<Size>>, i: int)
    requires
        0 <= i <= sizes.len(),
    ensures
        split_static_width(sizes.take(i)) <= split_static_width(sizes),
    decreases sizes.len() - i,
{
    if i < sizes.len() {
        lemma_split_static_prefix(sizes, i + 1);
        assert(sizes.take(i + 1).drop_last() =~= sizes.take(i));
    } else {
        assert(sizes.take(i) =~= sizes);
    }
}

proof fn lemma_split_start_monotone(sizes: Seq<Option<Size>>, i: int, j: int, flex: int)
    requires
        0 <= i <= j <= sizes.len(),
        flex >= 0,
    ensures
        split_start(sizes, i, flex) <= split_start(sizes, j, flex),
    decreases j - i,
{
    if i < j {
        lemma_split_start_monotone(sizes, i, j - 1, flex);
    }
}

proof fn lemma_split_start_when_reported(sizes: Seq<Option<Size>>, k: int, flex: int)
    requires
        0 <= k <= sizes.len(),
        forall|i: int| 0 <= i < sizes.len() ==> sizes[i] is Some,
    ensures
        split_start(sizes, k, flex) == split_static_width(sizes.take(k)) + split_flex_count(
            sizes.take(k),
        ) * flex,
    decreases k,
{
    if k > 0 {
        lemma_split_start_when_reported(sizes, k - 1, flex);
        let t = sizes.take(k);
        assert(t.drop_last() =~= sizes.take(k - 1));
        assert(t.last() == sizes[k - 1]);
        let before = split_flex_count(sizes.take(k - 1)) as int;
        if sizes[k - 1] == Some(Size::Flex) {
            assert(split_flex_count(t) == before + 1);
            assert((before + 1) * flex == before * flex + flex) by (nonlinear_arith);
        } else {
            assert(split_flex_count(t) == before);
        }
    } else {
        assert(sizes.take(0).len() == 0);
        assert(split_flex_count(sizes.take(0)) == 0);
        assert(0 * flex == 0) by (nonlinear_arith);
    }
}

/// In the two-sided bar each region starts where the one before it ends,
/// the right side continuing the left.
pub proof fn lemma_split_regions_adjacent(sizes: Seq<Option<Size>>, width: int, height: u32, k: int)
    requires
        split_layout_fits(sizes, width),
        0 <= k,
        k + 1 < sizes.len(),
    ensures
        split_region(sizes, k + 1, width, height).x == split_region(sizes, k, width, height).x
            + split_region(sizes, k, width, height).width,
{
    let flex = split_flex_width(sizes, width);
    assert(flex >= 0) by {
        assert((width - split_static_width(sizes)) / (split_flex_count(sizes) as int) >= 0) by (nonlinear_arith)
            requires
                width - split_static_width(sizes) >= 0,
                split_flex_count(sizes) > 0,
        ;
    }
    lemma_split_start_monotone(sizes, k + 2, sizes.len() as int, flex);
    lemma_split_start_monotone(sizes, 0, k, flex);
    assert(split_start(sizes, k + 2, flex) == split_start(sizes, k + 1, flex) + reported_width(
        sizes[k + 1],
        flex,
    ));
    assert(split_start(sizes, k + 1, flex) == split_start(sizes, k, flex) + reported_width(
        sizes[k],
        flex,
    ));
}

/// When every widget of the two-sided bar reported its size, the regions
/// end within the bar, less than one pixel per flexible widget short of its
/// right edge.
pub proof fn lemma_split_layout_fills_bar(sizes: Seq<Option<Size>>, width: int)
    requires
        forall|i: int| 0 <= i < sizes.len() ==> sizes[i] is Some,
        split_flex_count(sizes) > 0,
        0 <= split_static_width(sizes) <= width,
    ensures
        split_start(sizes, sizes.len() as int, split_flex_width(sizes, width)) <= width,
        width - split_start(sizes, sizes.len() as int, split_flex_width(sizes, width))
            < split_flex_count(sizes),
{
    let flex = split_flex_width(sizes, width);
    lemma_split_start_when_reported(sizes, sizes.len() as int, flex);
    assert(sizes.take(sizes.len() as int) =~= sizes);
    let c = split_flex_count(sizes) as int;
    let free = width - split_static_width(sizes);
    assert(flex == free / c);
    assert(c * (free / c) <= free && free - c * (free / c) < c) by (nonlinear_arith)
        requires
            c > 0,
            free >= 0,
    ;
}

/// The regions of the two-sided bar can be searched for clicks: no region's
/// right edge, nor its top plus its width, passes `u32::MAX`.
pub proof fn lemma_split_regions_in_range(
    sizes: Seq<Option<Size>>,
    from: int,
    to: int,
    width: int,
    height: u32,
)
    requires
        split_layout_fits(sizes, width),
        0 <= from <= to <= sizes.len(),
    ensures
        regions_in_range(split_regions(sizes, from, to, width, height)),
{
    let flex = split_flex_width(sizes, width);
    assert(flex >= 0) by {
        assert((width - split_static_width(sizes)) / (split_flex_count(sizes) as int) >= 0) by (nonlinear_arith)
            requires
                width - split_static_width(sizes) >= 0,
                split_flex_count(sizes) > 0,
        ;
    }
    let rs = split_regions(sizes, from, to, width, height);
    assert forall|i: int| 0 <= i < rs.len() implies rs[i].x + rs[i].width <= u32::MAX && rs[i].y
        + rs[i].width <= u32::MAX by {
        let k = from + i;
        lemma_split_start_monotone(sizes, 0, k, flex);
        lemma_split_start_monotone(sizes, k + 1, sizes.len() as int, flex);
        assert(split_start(sizes, k + 1, flex) == split_start(sizes, k, flex) + reported_width(
            sizes[k],
            flex,
        ));
        assert(reported_width(sizes[k], flex) >= 0);
    }
}

/// The regions of the two-sided bar do not overlap: a click lands in at
/// most one of them.
pub proof fn lemma_split_click_unique(
    sizes: Seq<Option<Size>>,
    width: int,
    height: u32,
    j: int,
    k: int,
    x: u32,
    y: u32,
)
    requires
        split_layout_fits(sizes, width),
        0 <= j < k < sizes.len(),
    ensures
        !(hits(split_region(sizes, j, width, height), x, y) && hits(
            split_region(sizes, k, width, height),
            x,
            y,
        )),
{
    let flex = split_flex_width(sizes, width);
    assert(flex >= 0) by {
        assert((width - split_static_width(sizes)) / (split_flex_count(sizes) as int) >= 0) by (nonlinear_arith)
            requires
                width - split_static_width(sizes) >= 0,
                split_flex_count(sizes) > 0,
        ;
    }
    lemma_split_start_monotone(sizes, 0, j, flex);
    lemma_split_start_monotone(sizes, j + 1, k, flex);
    lemma_split_start_monotone(sizes, k + 1, sizes.len() as int, flex);
    assert(split_start(sizes, j + 1, flex) == split_start(sizes, j, flex) + reported_width(
        sizes[j],
        flex,
    ));
    assert(split_start(sizes, k + 1, flex) == split_start(sizes, k, flex) + reported_width(
        sizes[k],
        flex,
    ));
    assert(reported_width(sizes[j], flex) >= 0);
    assert(reported_width(sizes[k], flex) >= 0);
}

/// Lays out one side of the two-sided bar from position `start` of all its
/// widgets: clears `regions` and pushes one region per widget until a widget
/// that failed to report its size. Gives the index reached and the next `x`.
fn split_side(
    sizes: &Vec<Option<Size>>,
    all: Ghost<Seq<Option<Size>>>,
    start: usize,
    x: u32,
    flex_size: u32,
    width: u32,
    height: u32,
    regions: &mut Vec<Rectangle>,
) -> (r: (usize, u32))
    requires
        start + sizes@.len() <= all@.len(),
        all@.subrange(start as int, start + sizes@.len()) == sizes@,
        split_layout_fits(all@, width as int),
        flex_size == split_flex_width(all@, width as int),
        x == split_start(all@, start as int, flex_size as int),
    ensures
        start <= r.0 <= start + sizes@.len(),
        forall|j: int| start <= j < r.0 ==> all@[j] is Some,
        r.0 < start + sizes@.len() ==> all@[r.0 as int] is None,
        r.1 == split_start(all@, r.0 as int, flex_size as int),
        final(regions)@ == split_regions(all@, start as int, r.0 as int, width as int, height),
{
    regions.clear();
    let mut x = x;
    let mut i: usize = 0;
    let ghost flex = flex_size as int;
    while i < sizes.len()
        invariant
            start + sizes@.len() <= all@.len(),
            all@.subrange(start as int, start + sizes@.len()) == sizes@,
            split_layout_fits(all@, width as int),
            flex_size == split_flex_width(all@, width as int),
            flex == flex_size as int,
            i <= sizes@.len(),
            forall|j: int| start <= j < start + i ==> all@[j] is Some,
            x == split_start(all@, start + i, flex),
            regions@ == split_regions(all@, start as int, start + i, width as int, height),
        decreases sizes@.len() - i,
    {
        assert(all@[start + i] == sizes@[i as int]);
        match sizes[i] {
            Some(size) => {
                proof {
                    lemma_split_start_monotone(all@, start + i + 1, all@.len() as int, flex);
                }
                let widget_width = size.unwrap_or(flex_size);
                let rectangle = Rectangle { x, y: 0, width: widget_width, height };
                regions.push(rectangle);
                x = x + widget_width;
                proof {
                    assert(regions@ =~= split_regions(
                        all@,
                        start as int,
                        start + i + 1,
                        width as int,
                        height,
                    ));
                }
                i = i + 1;
            },
            None => {
                return (start + i, x);
            },
        }
    }
    (start + i, x)
}

/// The layout of the bar with widgets on a left and a right side: the
/// fixed widths are summed, the free width is split evenly among the
/// flexible widgets, and the regions follow each other from the left, the
/// left side's first. Gives `false` as soon as a widget fails to report its
/// size; the regions laid out until then are kept and the other side's
/// regions are left as they were.
pub fn generate_split_regions(
    left: &Vec<Option<Size>>,
    right: &Vec<Option<Size>>,
    width: u32,
    height: u32,
    left_regions: &mut Vec<Rectangle>,
    right_regions: &mut Vec<Rectangle>,
) -> (ok: bool)
    requires
        split_layout_fits(left@ + right@, width as int),
    ensures
        ({
            let all = left@ + right@;
            &&& ok == forall|k: int| 0 <= k < all.len() ==> all[k] is Some
            &&& regions_in_range(final(left_regions)@)
            &&& ok ==> regions_in_range(final(right_regions)@)
            &&& ok ==> {
                &&& final(left_regions)@ == split_regions(
                    all,
                    0,
                    left@.len() as int,
                    width as int,
                    height,
                )
                &&& final(right_regions)@ == split_regions(
                    all,
                    left@.len() as int,
                    all.len() as int,
                    width as int,
                    height,
                )
            }
            &&& !ok ==> exists|e: int|
                #![trigger all[e]]
                {
                    &&& 0 <= e < all.len()
                    &&& all[e] is None
                    &&& forall|k: int| 0 <= k < e ==> all[k] is Some
                    &&& e < left@.len() ==> final(left_regions)@ == split_regions(
                        all,
                        0,
                        e,
                        width as int,
                        height,
                    ) && final(right_regions)@ == old(right_regions)@
                    &&& e >= left@.len() ==> final(left_regions)@ == split_regions(
                        all,
                        0,
                        left@.len() as int,
                        width as int,
                        height,
                    ) && final(right_regions)@ == split_regions(
                        all,
                        left@.len() as int,
                        e,
                        width as int,
                        height,
                    )
                }
        }),
{
    let ghost all = left@ + right@;
    assert(all.len() == left@.len() + right@.len());
    let mut static_size: u32 = 0;
    let mut flex_widgets: u32 = 0;
    let total = left.len() + right.len();
    let mut k: usize = 0;
    while k < total
        invariant
            total == all.len(),
            all == left@ + right@,
            k <= total,
            split_layout_fits(all, width as int),
            static_size == split_static_width(all.take(k as int)),
            flex_widgets == split_flex_count(all.take(k as int)),
        decreases total - k,
    {
        proof {
            lemma_split_take(all, k as int);
        }
        let size = if k < left.len() {
            left[k]
        } else {
            right[k - left.len()]
        };
        assert(size == all[k as int]);
        match size {
            Some(Size::Static(w)) => {
                static_size = static_size + w;
            },
            Some(Size::Flex) => {
                flex_widgets = flex_widgets + 1;
            },
            None => {},
        }
        k = k + 1;
    }
    proof {
        assert(all.take(total as int) =~= all);
    }
    let flex_size = (width - static_size) / flex_widgets;
    proof {
        assert(all.subrange(0, left@.len() as int) =~= left@);
        assert(all.subrange(left@.len() as int, (left@.len() + right@.len()) as int) =~= right@);
    }
    let (reached, x) = split_side(left, Ghost(all), 0, 0, flex_size, width, height, left_regions);
    proof {
        lemma_split_regions_in_range(all, 0, reached as int, width as int, height);
    }
    if reached < left.len() {
        proof {
            let e = reached as int;
            assert(all[e] is None);
            assert(forall|k: int| 0 <= k < e ==> all[k] is Some);
            assert(e < left@.len() ==> left_regions@ == split_regions(all, 0, e, width as int, height));
        }
        return false;
    }
    let (reached, _x) = split_side(
        right,
        Ghost(all),
        left.len(),
        x,
        flex_size,
        width,
        height,
        right_regions,
    );
    proof {
        lemma_split_regions_in_range(all, left@.len() as int, reached as int, width as int, height);
    }
    if reached < total {
        proof {
            let e = reached as int;
            assert(all[e] is None);
            assert(forall|k: int| 0 <= k < e ==> all[k] is Some);
        }
        return false;
    }
    true
}


/// Tells whether the two-sided bar can be laid out, so that
/// [generate_split_regions] may be called on its widgets' sizes.
pub fn split_layout_fits_in(left: &Vec<Option<Size>>, right: &Vec<Option<Size>>, width: u32) -> (r:
    bool)
    ensures
        r == split_layout_fits(left@ + right@, width as int),
{
    let ghost all = left@ + right@;
    assert(all.len() == left@.len() + right@.len());
    if left.len() as u128 + right.len() as u128 > 0xffff_ffffu128 {
        return false;
    }
    let total = left.len() + right.len();
    let mut static_size: u64 = 0;
    let mut flex_widgets: u64 = 0;
    let mut k: usize = 0;
    while k < total
        invariant
            total == all.len(),
            all == left@ + right@,
            total <= u32::MAX,
            k <= total,
            static_size == split_static_width(all.take(k as int)),
            static_size <= width,
            flex_widgets == split_flex_count(all.take(k as int)),
        decreases total - k,
    {
        proof {
            lemma_split_take(all, k as int);
        }
        let size = if k < left.len() {
            left[k]
        } else {
            right[k - left.len()]
        };
        assert(size == all[k as int]);
        match size {
            Some(Size::Static(w)) => {
                static_size = static_size + w as u64;
            },
            Some(Size::Flex) => {
                flex_widgets = flex_widgets + 1;
            },
            None => {},
        }
        if static_size > width as u64 {
            proof {
                lemma_split_static_prefix(all, k as int + 1);
            }
            return false;
        }
        k = k + 1;
    }
    proof {
        assert(all.take(total as int) =~= all);
    }
    if flex_widgets == 0 {
        return false;
    }
    let flex_size = (width as u64 - static_size) / flex_widgets;
    let ghost flex = split_flex_width(all, width as int);
    assert(flex_size == flex);
    assert(flex_size <= width) by (nonlinear_arith)
        requires
            flex_size == (width - static_size) / (flex_widgets as int),
            static_size <= width,
            flex_widgets >= 1,
    ;
    let mut x: u64 = 0;
    let mut k: usize = 0;
    while k < total
        invariant
            total == all.len(),
            all == left@ + right@,
            k <= total,
            flex == split_flex_width(all, width as int),
            flex_size == flex,
            flex_size <= width,
            x == split_start(all, k as int, flex),
            x <= u32::MAX,
        decreases total - k,
    {
        proof {
            lemma_split_start_monotone(all, k as int + 1, total as int, flex);
        }
        let size = if k < left.len() {
            left[k]
        } else {
            right[k - left.len()]
        };
        assert(size == all[k as int]);
        let w = match size {
            Some(Size::Flex) => flex_size,
            Some(Size::Static(w)) => w as u64,
            None => 0,
        };
        x = x + w;
        if x > 0xffff_ffffu64 {
            return false;
        }
        k = k + 1;
    }
    true
}

/// The side of the two-sided bar a widget sits on.
#[derive(Debug, Clone, Copy, PartialEq, Eq, Structural)]
pub enum RightLeft {
    Right,
    Left,
}

/// A widget of the two-sided bar: its side and its index on that side.
pub type WidgetID = (RightLeft, usize);

/// A click at (`x`, `y`) lands in `r`: strictly inside it horizontally, and
/// vertically strictly between its top and its top plus its width (the
/// bar compares the vertical position against the width).
pub open spec fn hits(r: Rectangle, x: u32, y: u32) -> bool {
    r.x < x && r.x + r.width > x && r.y < y && r.y + r.width > y
}

/// No region's right edge, nor its top plus its width, passes `u32::MAX`.
pub open spec fn regions_in_range(regions: Seq<Rectangle>) -> bool {
    forall|i: int|
        0 <= i < regions.len() ==> regions[i].x + regions[i].width <= u32::MAX && regions[i].y
            + regions[i].width <= u32::MAX
}

/// What [find_collision] gives: the first region hit, if any.
pub open spec fn first_hit(regions: Seq<Rectangle>, x: u32, y: u32, r: Option<usize>) -> bool {
    match r {
        Some(i) => i < regions.len() && hits(regions[i as int], x, y) && forall|j: int|
            0 <= j < i ==> !hits(regions[j], x, y),
        None => forall|j: int| 0 <= j < regions.len() ==> !hits(regions[j], x, y),
    }
}

/// The index of the first region that a click at (`x`, `y`) lands in; the
/// coordinates are taken as `u32` the way `as` converts them.
pub fn find_collision(regions: &[Rectangle], x: i16, y: i16) -> (r: Option<usize>)
    requires
        regions_in_range(regions@),
    ensures
        first_hit(regions@, x as u32, y as u32, r),
{
    let cx = x as u32;
    let cy = y as u32;
    let mut i: usize = 0;
    while i < regions.len()
        invariant
            i <= regions@.len(),
            regions_in_range(regions@),
            cx == x as u32,
            cy == y as u32,
            forall|j: int| 0 <= j < i ==> !hits(regions@[j], cx, cy),
        decreases regions@.len() - i,
    {
        let r = regions[i];
        if r.x < cx && r.x + r.width > cx && r.y < cy && r.y + r.width > cy {
            assert(hits(regions@[i as int], cx, cy));
            return Some(i);
        }
        i = i + 1;
    }
    None
}

/// Which widget a click on the two-sided bar reaches: one on the right side
/// if the click lands in one of their regions, else one on the left side.
pub fn click_target(
    left_regions: &Vec<Rectangle>,
    right_regions: &Vec<Rectangle>,
    x: i16,
    y: i16,
) -> (r: Option<WidgetID>)
    requires
        regions_in_range(left_regions@),
        regions_in_range(right_regions@),
    ensures
        match r {
            Some((RightLeft::Right, i)) => first_hit(right_regions@, x as u32, y as u32, Some(i)),
            Some((RightLeft::Left, i)) => first_hit(right_regions@, x as u32, y as u32, None)
                && first_hit(left_regions@, x as u32, y as u32, Some(i)),
            None => first_hit(right_regions@, x as u32, y as u32, None) && first_hit(
                left_regions@,
                x as u32,
                y as u32,
                None,
            ),
        },
{
    if let Some(index) = find_collision(right_regions.as_slice(), x, y) {
        Some((RightLeft::Right, index))
    } else if let Some(index) = find_collision(left_regions.as_slice(), x, y) {
        Some((RightLeft::Left, index))
    } else {
        None
    }
}

/// The vertical position of the bar window: its offset at the top of the
/// screen, or the screen's height less its own at the bottom.
pub fn bar_y(position: Position, yoff: u16, screen_height: u16, height: u16) -> (y: u16)
    requires
        position == Position::Bottom ==> height <= screen_height,
    ensures
        y == match position {
            Position::Top => yoff,
            Position::Bottom => (screen_height - height) as u16,
        },
{
    match position {
        Position::Top => yoff,
        Position::Bottom => screen_height - height,
    }
}

/// The partial strut of the bar window: the bar reserves its height at the
/// top of the screen over its whole width. The first four values form the
/// plain strut.
pub fn strut_partial(height: u16, width: u16) -> (r: Vec<u32>)
    ensures
        r@ == seq![0u32, 0, height as u32, 0, 0, 0, 0, 0, 0, width as u32, 0, 0],
{
    let bar_size = height as u32;
    let r = vec![0, 0, bar_size, 0, 0, 0, 0, 0, 0, width as u32, 0, 0];
    assert(r@ =~= seq![0u32, 0, height as u32, 0, 0, 0, 0, 0, 0, width as u32, 0, 0]);
    r
}

/// What the bar redraws after an event.
#[derive(Debug, Clone, Copy, PartialEq, Eq, Structural)]
pub enum Redraw {
    /// Every widget, because some region moved.
    All,
    /// Only the widget that was updated.
    Only(usize),
    /// Nothing.
    Nothing,
}

/// After an event the bar redraws everything if the layout changed, else
/// only the widget that asked to be updated, if one did.
pub fn redraw_plan(updated: Option<usize>, need_relayout: bool) -> (r: Redraw)
    ensures
        r == if need_relayout {
            Redraw::All
        } else {
            match updated {
                Some(i) => Redraw::Only(i),
                None => Redraw::Nothing,
            }
        },
{
    if need_relayout {
        Redraw::All
    } else if let Some(i) = updated {
        Redraw::Only(i)
    } else {
        Redraw::Nothing
    }
}

/// The two-sided bar draws only once it holds one region per widget on each
/// side; otherwise drawing fails.
pub fn regions_ready(
    left_regions: usize,
    left_widgets: usize,
    right_regions: usize,
    right_widgets: usize,
) -> (r: bool)
    ensures
        r == (left_regions == left_widgets && right_regions == right_widgets),
{
    !(left_regions != left_widgets || right_regions != right_widgets)
}

} // verus!
