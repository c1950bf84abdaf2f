//! The page selector down the **right-hand** edge.
//!
//! Every page has a key, all of them are visible at once, and the one you are on is filled. That
//! is the whole of it: every page's key never moves, getting from any page to any other is one
//! press, and with a filled key showing the answer there is nothing to guess.
//!
//! [`crate::softkeys`] has a fixed six slots because its contents change per page and a key that
//! moved when a neighbour disappeared would be worse than a dimmed one. Nothing here changes: the
//! page list is the same on every page, so the keys simply divide the strip. That makes navigation
//! by a wide margin the easiest thing on the display to hit, which is appropriate, since it is the
//! way out of anywhere.

use vstd::prelude::*;

use crate::layout::{slots_are_in_order, Layout};
use crate::marks::{
    block, drawn, put_fill, put_text, text_at, Align, Baseline, Painted, Mark, Style,
};
use crate::softkeys::{draw_strip, slot_middle, strip_marks};
use crate::theme::{Color, Theme};
use crate::view::{Page, ViewState};

verus! {

/// Rectangle `(x, y, w, h)` of a page's key.
pub fn slot_rect(layout: &Layout, slot: usize) -> (r: (i64, i64, i64, i64))
    requires
        layout.wf(),
        slot < 3,
    ensures
        r.0 == layout.content_x1,
        r.1 == layout.slot_top(slot as int, 3),
        r.2 == layout.strip_width,
        r.1 + r.3 == layout.slot_top(slot + 1, 3),
        r.3 >= 0,
        layout.strip_top() <= r.1,
        r.1 + r.3 <= layout.strip_bottom(),
{
    proof {
        slots_are_in_order(*layout, slot as int, slot + 1, 3);
    }
    let top: i64 = layout.top_of_slot(slot, 3);
    let bottom: i64 = layout.top_of_slot(slot + 1, 3);
    (layout.content_x1, top, layout.strip_width, bottom - top)
}

/// The page a point selects, if it is on the strip.
pub open spec fn pressed_page(layout: Layout, x: int, y: int) -> Option<Page> {
    if x < layout.content_x1 {
        None
    } else {
        match layout.slot_of(y, 3) {
            Some(slot) => Some(Page::ALL[slot]),
            None => None,
        }
    }
}

/// Which page a point selects, or `None` if it is outside the strip.
pub fn hit(layout: &Layout, x: i64, y: i64) -> (r: Option<Page>)
    requires
        layout.wf(),
    ensures
        r == pressed_page(*layout, x as int, y as int),
        r matches Some(page) ==> layout.in_slot(y as int, page.place(), 3),
{
    if x < layout.content_x1 {
        return None;
    }
    match layout.slot_at(y, 3) {
        Some(slot) => {
            let page: Page = Page::ALL[slot];
            assert(Page::ALL[0] == Page::PlanView && Page::ALL[1] == Page::Weather && Page::ALL[2]
                == Page::Ahrs);
            assert(page.place() == slot);
            Some(page)
        },
        None => None,
    }
}

/// The colour of a page's label on its key, and the colour its key is filled with, if it is.
pub open spec fn colours_of(page: Page, view: ViewState, theme: Theme) -> (Color, Option<Color>) {
    if page == view.page {
        (theme.background, Some(theme.ring_label))
    } else {
        (theme.text_secondary, None)
    }
}

/// The colour of a page's label on its key, and the colour its key is filled with, if it is.
///
/// The active page is a filled block with background-coloured text, not merely a brighter label. A
/// colour difference alone is the first thing to go in direct sunlight through a windscreen, and
/// "which page am I on" is the question this strip exists to answer.
pub fn key_colours(page: Page, view: &ViewState, theme: &Theme) -> (r: (Color, Option<Color>))
    ensures
        r == colours_of(page, *view, *theme),
{
    if page == view.page {
        (theme.background, Some(theme.ring_label))
    } else {
        (theme.text_secondary, None)
    }
}

// --- the picture ---------------------------------------------------------------------------

/// The keys of the first `n` pages, the one on screen filled in.
pub open spec fn page_marks(view: ViewState, layout: Layout, theme: Theme, n: int) -> Seq<Painted>
    decreases n,
{
    if n <= 0 {
        seq![]
    } else {
        let page = Page::ALL[n - 1];
        let (text, fill) = colours_of(page, view, theme);
        let top = layout.slot_top(n - 1, 3);
        page_marks(view, layout, theme, n - 1) + match fill {
            Some(fill) => seq![
                block(
                    layout.content_x1 + 1_000,
                    top + 1_000,
                    layout.strip_width - 2_000,
                    layout.slot_top(n, 3) - top - 2_000,
                    fill,
                ),
            ],
            None => seq![],
        } + seq![
            text_at(
                layout.content_x1 + layout.strip_width as int / 2,
                slot_middle(layout, n - 1, 3),
                page.name(),
                Style {
                    colour: text,
                    size: theme.font_size_normal,
                    align: Align::Center,
                    baseline: Baseline::Middle,
                },
            ),
        ]
    }
}

/// The strip: its chrome and every page's key.
pub fn draw(view: &ViewState, layout: &Layout, theme: &Theme) -> (r: Vec<Mark>)
    requires
        layout.wf(),
    ensures
        drawn(r@) == strip_marks(
            *layout,
            *theme,
            layout.content_x1 as int,
            layout.content_x1 as int,
            3,
        ) + page_marks(*view, *layout, *theme, 3),
{
    let mut out: Vec<Mark> = draw_strip(layout, theme, layout.content_x1, layout.content_x1, 3);
    let ghost chrome = drawn(out@);
    let mut slot: usize = 0;
    assert(drawn(out@) =~= chrome + page_marks(*view, *layout, *theme, 0));
    while slot < 3
        invariant
            slot <= 3,
            layout.wf(),
            drawn(out@) == chrome + page_marks(*view, *layout, *theme, slot as int),
        decreases 3 - slot,
    {
        let page: Page = Page::ALL[slot];
        let (x, y, w, h) = slot_rect(layout, slot);
        let (text, fill) = key_colours(page, view, theme);
        if let Some(fill) = fill {
            put_fill(&mut out, x + 1_000, y + 1_000, w - 2_000, h - 2_000, fill);
        }
        let style: Style = Style::new(
            text,
            theme.font_size_normal,
            Align::Center,
            Baseline::Middle,
        );
        put_text(&mut out, x + w / 2, y + h / 2, page.label(), style);
        slot = slot + 1;
        assert(drawn(out@) =~= chrome + page_marks(*view, *layout, *theme, slot as int));
    }
    out
}

// --- laws ----------------------------------------------------------------------------------

/// Every page has exactly one key, and a press anywhere on it selects that page.
pub proof fn each_key_selects_its_own_page(layout: Layout, page: Page, x: int, y: int)
    requires
        layout.wf(),
        x >= layout.content_x1,
        layout.in_slot(y, page.place(), 3),
    ensures
        pressed_page(layout, x, y) == Some(page),
{
    crate::layout::slots_keep_off_the_bars(layout, y, page.place(), 3);
    let held = choose|held: int| layout.in_slot(y, held, 3);
    crate::layout::slots_do_not_overlap(layout, y, page.place(), held, 3);
    assert(Page::ALL[0] == Page::PlanView && Page::ALL[1] == Page::Weather && Page::ALL[2]
        == Page::Ahrs);
}

/// Nothing is on both strips, and neither reaches into the content area or the bars.
pub proof fn the_strips_do_not_overlap(layout: Layout, x: int, y: int)
    requires
        layout.wf(),
    ensures
        pressed_page(layout, x, y) is Some ==> crate::softkeys::pressed_slot(layout, x, y) is None,
        layout.content_x0 <= x < layout.content_x1 ==> pressed_page(layout, x, y) is None
            && crate::softkeys::pressed_slot(layout, x, y) is None,
        y < layout.status_bar_height || (y >= layout.height - layout.footer_height && layout.height
            - layout.footer_height >= layout.status_bar_height + 1_000) ==> pressed_page(
            layout,
            x,
            y,
        ) is None && crate::softkeys::pressed_slot(layout, x, y) is None,
{
}

/// The page keys are equally tall, to a thousandth of a pixel.
pub proof fn slots_are_equally_tall(layout: Layout, slot: int)
    requires
        layout.wf(),
        0 <= slot < 3,
    ensures
        ({
            let height = layout.slot_top(slot + 1, 3) - layout.slot_top(slot, 3);
            let share = (layout.strip_bottom() - layout.strip_top()) / 3;
            share <= height <= share + 1
        }),
{
    assert(slot == 0 || slot == 1 || slot == 2);
}

/// A page key is never shorter than a function key.
pub proof fn page_keys_are_the_taller(layout: Layout, slot: int, key: int)
    requires
        layout.wf(),
        0 <= slot < 3,
        0 <= key < 6,
    ensures
        layout.slot_top(slot + 1, 3) - layout.slot_top(slot, 3) >= layout.slot_top(key + 1, 6)
            - layout.slot_top(key, 6),
{
    slots_are_equally_tall(layout, slot);
    crate::softkeys::slots_are_equally_tall(layout, key);
}

/// The page in view stands out on its key, dark on light, and the other keys are plain.
pub proof fn the_page_in_view_stands_out(page: Page, view: ViewState, theme: Theme)
    ensures
        page == view.page ==> colours_of(page, view, theme) == (
            theme.background,
            Some(theme.ring_label),
        ),
        page != view.page ==> colours_of(page, view, theme) == (theme.text_secondary, None::<Color>),
{
}

/// The keys say their pages from the top down, traffic, weather, attitude, and one of them, that of the
/// page in view, is filled behind its name.
pub proof fn pages_are_named_from_the_top(view: ViewState, layout: Layout, theme: Theme)
    ensures
        ({
            let marks = page_marks(view, layout, theme, 3);
            let lit = view.page.place();
            let texts = |slot: int|
                marks[if slot < lit {
                    slot
                } else {
                    slot + 1
                }];
            &&& marks.len() == 4
            &&& marks[lit] is Fill && marks[lit]->Fill_colour == theme.ring_label
            &&& marks[lit]->Fill_y == layout.slot_top(lit, 3) + 1_000
            &&& marks[lit]->Fill_y + marks[lit]->Fill_h == layout.slot_top(lit + 1, 3) - 1_000
            &&& marks[lit]->Fill_x == layout.content_x1 + 1_000
            &&& texts(0) is Text && texts(0)->text == "TFC"@
            &&& texts(1) is Text && texts(1)->text == "WX"@
            &&& texts(2) is Text && texts(2)->text == "AHRS"@
            &&& texts(0)->Text_y == slot_middle(layout, 0, 3)
            &&& texts(1)->Text_y == slot_middle(layout, 1, 3)
            &&& texts(2)->Text_y == slot_middle(layout, 2, 3)
            &&& texts(lit)->style.colour == theme.background
        }),
{
    reveal_with_fuel(page_marks, 4);
    assert(Page::ALL[0] == Page::PlanView && Page::ALL[1] == Page::Weather && Page::ALL[2]
        == Page::Ahrs);
}

} // verus!
