//! The FIS-B text products page.
//!
//! METARs, TAFs, PIREPs and the rest, as received. Deliberately shown as raw text rather than
//! decoded into prose: pilots read raw METARs, the encoding is compact enough to fit a small panel,
//! and any decoder would be one more thing that can be subtly wrong about weather.
//!
//! Each entry carries an age, because FIS-B delivery is opportunistic: a station's observation can
//! be twenty minutes stale while the one next to it is current, and nothing on the wire warns you
//! about that.

use vstd::prelude::*;

use crate::domain::{WeatherProduct, WeatherText, SECOND};
use crate::glossary::{codes_explained, codes_listed, explain, meaning_of, meanings_match};
use crate::interact::{first_shown, inside_list};
use crate::layout::{larger, smaller, Layout, LONGEST_SIDE};
use crate::marks::{
    drawn, nothing, put_all, put_line, put_text, stroke, text_at, Align, Baseline, Painted, Mark,
    Style,
};
use crate::metar::{
    hazard_of, remarks_at, report_category, summarise, token_hazard, FlightCategory, Hazard,
};
use crate::text::{
    before, before_is_strict, before_is_transitive, decimal, decimals_read_back, number, order_of,
    padded, padded_reads_back, push_decimal, push_padded, same, split_words, ten_to, texts,
    texts_sort, words, TextOrder,
};
use crate::theme::{Color, Theme};
use crate::view::ViewState;

verus! {

// --- where the rows are --------------------------------------------------------------------

/// Height of a line of text.
pub open spec fn line_of(theme: Theme) -> int {
    theme.font_size_small * 135 / 100
}

/// Height of a line of text.
pub fn line_height(theme: &Theme) -> (r: i64)
    requires
        theme.sizes_ok(),
    ensures
        r == line_of(*theme),
        0 < r <= 20_000_000,
{
    theme.font_size_small * 135 / 100
}

/// How many entries of two lines fit between the header and the footer; at least one.
pub open spec fn rows_of(theme: Theme, layout: Layout) -> int {
    let body = layout.height - layout.status_bar_height - layout.footer_height - line_of(theme);
    if body < 2 * line_of(theme) {
        1
    } else {
        body / (2 * line_of(theme))
    }
}

/// How many entries fit on screen. Used for scrolling.
pub fn rows_per_page(theme: &Theme, layout: &Layout) -> (r: usize)
    requires
        theme.sizes_ok(),
        layout.wf(),
    ensures
        r == rows_of(*theme, *layout),
        1 <= r <= 1_000_000_000,
{
    let line: i64 = line_height(theme);
    let body: i64 = layout.height - layout.status_bar_height - layout.footer_height - line;
    if body < 2 * line {
        1
    } else {
        proof {
            let b = body as int;
            let d = 2 * line;
            assert(1 <= b / d <= b) by (nonlinear_arith)
                requires
                    0 < d <= b,
            ;
        }
        (body / (2 * line)) as usize
    }
}

/// Top of an entry: the header takes 1.3 lines, each entry two.
pub open spec fn row_top(theme: Theme, layout: Layout, row: int) -> int {
    layout.status_bar_height + line_of(theme) * 13 / 10 + 2 * line_of(theme) * row
}

/// The entry a height on screen falls in, if any.
pub open spec fn row_under(theme: Theme, layout: Layout, y: int) -> Option<int> {
    let first = row_top(theme, layout, 0);
    let row = (y - first) / (2 * line_of(theme));
    if y < first || row >= rows_of(theme, layout) {
        None
    } else {
        Some(row)
    }
}

/// The entry a height on screen falls in, counted from the first one showing, if any.
pub fn row_at(theme: &Theme, layout: &Layout, y: i64) -> (r: Option<usize>)
    requires
        theme.sizes_ok(),
        layout.wf(),
    ensures
        match r {
            Some(row) => row_under(*theme, *layout, y as int) == Some(row as int),
            None => row_under(*theme, *layout, y as int) is None,
        },
{
    let line: i64 = line_height(theme);
    let first: i64 = layout.status_bar_height + line * 13 / 10;
    if y < first {
        return None;
    }
    let into: i64 = y - first;
    proof {
        let i = into as int;
        let d = 2 * line;
        assert(0 <= i / d) by (nonlinear_arith)
            requires
                0 < d,
                0 <= i,
        ;
    }
    let row: i64 = into / (2 * line);
    let rows: usize = rows_per_page(theme, layout);
    if row >= rows as i64 {
        None
    } else {
        Some(row as usize)
    }
}

/// The middle of an entry.
pub fn row_center(theme: &Theme, layout: &Layout, row: usize) -> (r: i64)
    requires
        theme.sizes_ok(),
        layout.wf(),
        row <= 1_000_000_000,
    ensures
        r == row_top(*theme, *layout, row as int) + line_of(*theme),
{
    let line: i64 = line_height(theme);
    assert(0 <= 2 * line * row <= 2 * 20_000_000 * 1_000_000_000) by (nonlinear_arith)
        requires
            0 < line <= 20_000_000,
            0 <= row <= 1_000_000_000,
    ;
    layout.status_bar_height + line * 13 / 10 + 2 * line * (row as i64) + line
}

/// Entries tile: one ends where the next begins, and a height belongs to the entry it lies in.
pub proof fn rows_tile_without_gaps(theme: Theme, layout: Layout, row: int, y: int)
    requires
        theme.sizes_ok(),
        layout.wf(),
        0 <= row < rows_of(theme, layout),
        row_top(theme, layout, row) <= y < row_top(theme, layout, row + 1),
    ensures
        row_under(theme, layout, y) == Some(row),
{
    let d = 2 * line_of(theme);
    let into = y - row_top(theme, layout, 0);
    assert(d * 0 == 0);
    assert(d * (row + 1) == d * row + d) by (nonlinear_arith);
    assert(d * row >= 0) by (nonlinear_arith)
        requires
            d > 0,
            row >= 0,
    ;
    vstd::arithmetic::div_mod::lemma_fundamental_div_mod_converse(into, d, row, into - d * row);
}

/// An entry is under the finger at its own middle.
pub proof fn every_row_is_at_its_own_middle(theme: Theme, layout: Layout, row: int)
    requires
        theme.sizes_ok(),
        layout.wf(),
        0 <= row < rows_of(theme, layout),
    ensures
        row_under(theme, layout, row_top(theme, layout, row) + line_of(theme)) == Some(row),
{
    let d = 2 * line_of(theme);
    assert(d * (row + 1) == d * row + d) by (nonlinear_arith);
    rows_tile_without_gaps(theme, layout, row, row_top(theme, layout, row) + line_of(theme));
}

// --- the order of the list -----------------------------------------------------------------

/// Sort priority: the products a pilot reaches for first come first.
pub open spec fn priority_of(product: WeatherProduct) -> int {
    match product {
        WeatherProduct::Metar => 0,
        WeatherProduct::Taf => 1,
        WeatherProduct::Sigmet => 2,
        WeatherProduct::Airmet => 3,
        WeatherProduct::Pirep => 4,
        WeatherProduct::Winds => 5,
        WeatherProduct::Notam => 6,
        WeatherProduct::Other => 7,
    }
}

/// Sort priority: the products a pilot reaches for first come first.
pub fn priority(product: &WeatherProduct) -> (r: u8)
    ensures
        r == priority_of(*product),
{
    match product {
        WeatherProduct::Metar => 0,
        WeatherProduct::Taf => 1,
        WeatherProduct::Sigmet => 2,
        WeatherProduct::Airmet => 3,
        WeatherProduct::Pirep => 4,
        WeatherProduct::Winds => 5,
        WeatherProduct::Notam => 6,
        WeatherProduct::Other => 7,
    }
}

/// Whether one product sorts strictly before another: by priority, then by location, then by what
/// it says.
pub open spec fn sorts_before(a: WeatherText, b: WeatherText) -> bool {
    let (p, q) = (priority_of(a.product), priority_of(b.product));
    ||| p < q
    ||| p == q && before(a.location@, b.location@)
    ||| p == q && a.location@ == b.location@ && before(a.body@, b.body@)
}

fn is_earlier(a: &WeatherText, b: &WeatherText) -> (r: bool)
    ensures
        r == sorts_before(*a, *b),
{
    let p: u8 = priority(&a.product);
    let q: u8 = priority(&b.product);
    if p != q {
        return p < q;
    }
    match order_of(&a.location, &b.location) {
        TextOrder::Before => true,
        TextOrder::After => {
            proof {
                before_is_strict(b.location@, a.location@);
            }
            false
        },
        TextOrder::Same => match order_of(&a.body, &b.body) {
            TextOrder::Before => true,
            _ => {
                proof {
                    if before(a.location@, b.location@) {
                        before_is_strict(a.location@, b.location@);
                    }
                }
                false
            },
        },
    }
}

/// Sorting before carries over: what sorts before something sorts before all that does not sort
/// before it.
proof fn sorting_carries_over(a: WeatherText, b: WeatherText, c: WeatherText)
    requires
        sorts_before(a, b),
        !sorts_before(c, b),
    ensures
        sorts_before(a, c),
        !sorts_before(b, a),
{
    texts_sort(b.location@, c.location@);
    texts_sort(b.body@, c.body@);
    if before(a.location@, b.location@) {
        before_is_strict(a.location@, b.location@);
        if before(b.location@, c.location@) {
            before_is_transitive(a.location@, b.location@, c.location@);
        }
    }
    if before(a.body@, b.body@) {
        before_is_strict(a.body@, b.body@);
        if before(b.body@, c.body@) {
            before_is_transitive(a.body@, b.body@, c.body@);
        }
    }
    if before(b.location@, a.location@) {
        before_is_strict(b.location@, a.location@);
    }
}

/// Whether entry `i` is listed before entry `j`: it sorts before it, or they sort alike and it was
/// there first.
pub open spec fn listed_before(items: Seq<WeatherText>, i: int, j: int) -> bool {
    ||| sorts_before(items[i], items[j])
    ||| !sorts_before(items[j], items[i]) && i < j
}

/// Whether a list of places lists the first `count` entries, each once, in reading order.
pub open spec fn in_reading_order(order: Seq<usize>, items: Seq<WeatherText>, count: int) -> bool {
    &&& order.len() == count
    &&& forall|k: int| 0 <= k < order.len() ==> #[trigger] order[k] < count
    &&& forall|k: int, m: int|
        0 <= k < m < order.len() ==> order[k] != order[m] && listed_before(
            items,
            #[trigger] order[k] as int,
            #[trigger] order[m] as int,
        )
}

/// Everything held, in reading order: the places of the entries, by product, then by location,
/// then by what they say.
pub fn ordered(items: &[WeatherText]) -> (order: Vec<usize>)
    ensures
        in_reading_order(order@, items@, items@.len() as int),
{
    let mut order: Vec<usize> = Vec::new();
    let mut next: usize = 0;
    while next < items.len()
        invariant
            next <= items.len(),
            in_reading_order(order@, items@, next as int),
        decreases items.len() - next,
    {
        let mut place: usize = 0;
        while place < order.len() && !is_earlier(&items[next], &items[order[place]])
            invariant
                place <= order.len(),
                next < items.len(),
                in_reading_order(order@, items@, next as int),
                forall|k: int|
                    0 <= k < place ==> !sorts_before(
                        items@[next as int],
                        items@[#[trigger] order@[k] as int],
                    ),
            decreases order.len() - place,
        {
            place = place + 1;
        }
        proof {
            assert forall|k: int| place <= k < order.len() implies listed_before(
                items@,
                next as int,
                #[trigger] order@[k] as int,
            ) by {
                let first = order@[place as int] as int;
                assert(sorts_before(items@[next as int], items@[first]));
                if k > place {
                    assert(listed_before(items@, first, order@[k] as int));
                    if sorts_before(items@[first], items@[order@[k] as int]) {
                        if sorts_before(items@[order@[k] as int], items@[first]) {
                            sorting_carries_over(
                                items@[first],
                                items@[order@[k] as int],
                                items@[first],
                            );
                        }
                    }
                    sorting_carries_over(
                        items@[next as int],
                        items@[first],
                        items@[order@[k] as int],
                    );
                }
            }
        }
        let ghost had = order@;
        order.insert(place, next);
        proof {
            assert(order@ == had.insert(place as int, next));
            assert forall|k: int| 0 <= k < order.len() implies #[trigger] order@[k] < next + 1 by {
                if k < place {
                    assert(order@[k] == had[k]);
                } else if k > place {
                    assert(order@[k] == had[k - 1]);
                }
            }
            assert forall|k: int, m: int| 0 <= k < m < order.len() implies order@[k] != order@[m]
                && listed_before(items@, #[trigger] order@[k] as int, #[trigger] order@[m] as int) by {
                if m < place {
                    assert(order@[k] == had[k] && order@[m] == had[m]);
                } else if m == place {
                    assert(order@[k] == had[k]);
                } else if k < place {
                    assert(order@[k] == had[k] && order@[m] == had[m - 1]);
                } else if k == place {
                    assert(order@[m] == had[m - 1]);
                } else {
                    assert(order@[k] == had[k - 1] && order@[m] == had[m - 1]);
                }
            }
        }
        next = next + 1;
    }
    order
}

// --- what it says --------------------------------------------------------------------------

/// A number of seconds, compactly: seconds under a minute, then minutes, then hours.
pub open spec fn age_text(seconds: nat) -> Seq<char> {
    if seconds < 60 {
        decimal(seconds) + "s"@
    } else if seconds < 3600 {
        decimal(seconds / 60) + "m"@
    } else {
        decimal(seconds / 3600) + "h"@ + padded(seconds % 3600 / 60, 2) + "m"@
    }
}

/// Compact age: seconds under a minute, then minutes, then hours.
pub fn format_age(age: u64) -> (r: String)
    ensures
        r@ == age_text((age / SECOND) as nat),
{
    let seconds: u64 = age / SECOND;
    let mut out: String = String::new();
    if seconds < 60 {
        push_decimal(&mut out, seconds);
        out.append("s");
    } else if seconds < 3600 {
        push_decimal(&mut out, seconds / 60);
        out.append("m");
    } else {
        push_decimal(&mut out, seconds / 3600);
        out.append("h");
        push_padded(&mut out, seconds % 3600 / 60, 2);
        out.append("m");
    }
    assert(out@ =~= age_text(seconds as nat));
    out
}

/// The colour of an age.
pub open spec fn age_colour_of(seconds: int, theme: Theme) -> Color {
    if seconds >= 3600 {
        theme.warning
    } else if seconds >= 1800 {
        theme.caution
    } else {
        theme.text_dim
    }
}

/// The colour to write an age in: it stands out once it is old enough to matter.
pub fn age_colour(age: u64, theme: &Theme) -> (r: Color)
    ensures
        r == age_colour_of((age / SECOND) as int, *theme),
{
    let minutes: u64 = age / SECOND / 60;
    if minutes >= 60 {
        theme.warning
    } else if minutes >= 30 {
        theme.caution
    } else {
        theme.text_dim
    }
}

/// The line above the list: how many products there are, and how much radar.
pub open spec fn header_of(products: nat, nexrad: Option<(usize, u64)>) -> Seq<char> {
    "FIS-B TEXT  "@ + decimal(products) + " products   |   NEXRAD "@ + match nexrad {
        Some((blocks, age)) => decimal(blocks as nat) + " blocks, "@ + age_text(
            (age / SECOND) as nat,
        ),
        None => "none"@,
    }
}

/// The line above the list. `nexrad` is the number of radar blocks held and the age of the newest.
pub fn header_text(products: usize, nexrad: Option<(usize, u64)>) -> (r: String)
    ensures
        r@ == header_of(products as nat, nexrad),
{
    let mut out: String = String::new();
    out.append("FIS-B TEXT  ");
    push_decimal(&mut out, products as u64);
    out.append(" products   |   NEXRAD ");
    match nexrad {
        Some((blocks, age)) => {
            push_decimal(&mut out, blocks as u64);
            out.append(" blocks, ");
            out.append(format_age(age).as_str());
        },
        None => {
            out.append("none");
        },
    }
    assert(out@ =~= header_of(products as nat, nexrad));
    out
}

/// The last entry showing, counted from one.
pub open spec fn last_shown(offset: int, rows: int, total: int) -> int {
    if offset + rows < total {
        offset + rows
    } else {
        total
    }
}

/// Which entries are showing.
pub open spec fn scroll_of(offset: int, rows: int, total: int) -> Seq<char> {
    decimal((offset + 1) as nat) + "-"@ + decimal(last_shown(offset, rows, total) as nat)
        + " of "@ + decimal(total as nat)
}

/// Which entries are showing, while there are more than fit.
pub fn scroll_text(offset: usize, rows: usize, total: usize) -> (r: Option<String>)
    requires
        1 <= rows,
        total > rows ==> offset <= total - rows,
    ensures
        match r {
            Some(text) => total > rows && text@ == scroll_of(
                offset as int,
                rows as int,
                total as int,
            ),
            None => total <= rows,
        },
{
    if total <= rows {
        return None;
    }
    let mut out: String = String::new();
    push_decimal(&mut out, offset as u64 + 1);
    out.append("-");
    push_decimal(&mut out, (offset + rows) as u64);
    out.append(" of ");
    push_decimal(&mut out, total as u64);
    assert(out@ =~= scroll_of(offset as int, rows as int, total as int));
    Some(out)
}

/// Where the open report stands in the list, and its age.
pub open spec fn position_of(index: int, total: int, seconds: nat) -> Seq<char> {
    decimal((index + 1) as nat) + " of "@ + decimal(total as nat) + "   "@ + age_text(seconds)
}

/// Where the open report stands in the list, and its age.
pub fn position_text(index: usize, total: usize, age: u64) -> (r: String)
    requires
        index < total,
    ensures
        r@ == position_of(index as int, total as int, (age / SECOND) as nat),
{
    let mut out: String = String::new();
    push_decimal(&mut out, index as u64 + 1);
    out.append(" of ");
    push_decimal(&mut out, total as u64);
    out.append("   ");
    out.append(format_age(age).as_str());
    assert(out@ =~= position_of(index as int, total as int, (age / SECOND) as nat));
    out
}

/// What an entry is headed with: its product, and where it is about if it says.
pub open spec fn heading_of(product: Seq<char>, location: Seq<char>) -> Seq<char> {
    if location.len() == 0 {
        product
    } else {
        product + " "@ + location
    }
}

/// What an entry is headed with: its product, and where it is about if it says.
pub fn heading(product: &str, location: &str) -> (r: String)
    ensures
        r@ == heading_of(product@, location@),
{
    let mut out: String = String::new();
    out.append(product);
    if location.unicode_len() > 0 {
        out.append(" ");
        out.append(location);
    }
    assert(out@ =~= heading_of(product@, location@));
    out
}

/// The flight category to show beside an entry.
pub open spec fn badge_of(item: WeatherText) -> Option<FlightCategory> {
    if item.product == WeatherProduct::Metar {
        report_category(item.body@)
    } else {
        None
    }
}

/// The flight category to show beside an entry: METARs and SPECIs only.
///
/// Derived from two fields with published thresholds, and shown beside the raw text rather than
/// instead of it. Absent rather than guessed when neither field could be read.
///
/// Deliberately not applied to TAFs. A TAF covers many hours in FM/TEMPO/BECMG periods and a
/// summary has no notion of periods, so it would mix them: the lowest ceiling anywhere in the
/// forecast against the first visibility.
pub fn badge(item: &WeatherText) -> (r: Option<FlightCategory>)
    ensures
        r == badge_of(*item),
{
    if matches!(item.product, WeatherProduct::Metar) {
        summarise(&item.body).category
    } else {
        None
    }
}

/// What stands in place of an empty list: a headline and a detail.
pub open spec fn notice_of(connected: bool) -> (Seq<char>, Seq<char>) {
    if connected {
        ("NO WEATHER RECEIVED YET"@, "FIS-B products arrive over several minutes"@)
    } else {
        ("WEATHER STREAM OFFLINE"@, "retrying"@)
    }
}

/// What stands in place of an empty list: a headline and a detail.
///
/// "Nothing yet" is the normal state for minutes after a cold start, because the weather stream
/// does not replay its buffer on connect. Saying so avoids it reading as a fault.
pub fn empty_notice(connected: bool) -> (r: (&'static str, &'static str))
    ensures
        (r.0@, r.1@) == notice_of(connected),
{
    if connected {
        ("NO WEATHER RECEIVED YET", "FIS-B products arrive over several minutes")
    } else {
        ("WEATHER STREAM OFFLINE", "retrying")
    }
}

/// The first entry showing while the list is browsed. Clamped rather than trusted: pruning can
/// shrink the list between frames.
pub fn shown_offset(view: &ViewState, rows: usize, total: usize) -> (r: usize)
    ensures
        r == first_shown(*view, rows as int, total as int),
        total > rows ==> r <= total - rows,
        total <= rows ==> r == 0,
{
    let last: usize = if total > rows {
        total - rows
    } else {
        0
    };
    if view.weather_scroll < last {
        view.weather_scroll
    } else {
        last
    }
}

/// The report that is open while decoding, if there is any.
pub fn selected(view: &ViewState, total: usize) -> (r: Option<usize>)
    ensures
        match r {
            Some(place) => {
                &&& place < total
                &&& place == inside_list(view.weather_scroll as int, total as int)
            },
            None => total == 0,
        },
{
    if total == 0 {
        None
    } else if view.weather_scroll < total {
        Some(view.weather_scroll)
    } else {
        Some(total - 1)
    }
}

// --- the words of a report -----------------------------------------------------------------

/// The colour of a hazard.
pub open spec fn hazard_colour(hazard: Hazard, routine: Color, theme: Theme) -> Color {
    match hazard {
        Hazard::Warning => theme.warning,
        Hazard::Caution => theme.caution,
        Hazard::Routine => routine,
    }
}

/// The colour of a code: what its hazard calls for, `routine` if nothing does.
pub fn code_colour(code: &str, routine: Color, theme: &Theme) -> (r: Color)
    ensures
        r == hazard_colour(hazard_of(code@), routine, *theme),
{
    match token_hazard(code) {
        Hazard::Warning => theme.warning,
        Hazard::Caution => theme.caution,
        Hazard::Routine => routine,
    }
}

/// The colour of a word of a report. Everything from RMK on is free-form and full of things that
/// merely look like fields, so it is dimmed rather than scanned.
pub open spec fn word_colour(tokens: Seq<Seq<char>>, i: int, theme: Theme) -> Color {
    if i >= remarks_at(tokens, 0) {
        theme.text_dim
    } else {
        hazard_colour(hazard_of(tokens[i]), theme.text_secondary, theme)
    }
}

proof fn remarks_step(tokens: Seq<Seq<char>>, i: int, k: int)
    requires
        0 <= i <= k < tokens.len(),
        forall|j: int| i <= j < k ==> tokens[j] != "RMK"@,
    ensures
        tokens[k] == "RMK"@ ==> remarks_at(tokens, i) == k,
        tokens[k] != "RMK"@ ==> remarks_at(tokens, i) > k,
    decreases k - i,
{
    if i < k {
        remarks_step(tokens, i + 1, k);
    } else if tokens[k] != "RMK"@ {
        remarks_not_before(tokens, k + 1);
    }
}

proof fn remarks_not_before(tokens: Seq<Seq<char>>, i: int)
    requires
        0 <= i <= tokens.len(),
    ensures
        remarks_at(tokens, i) >= i,
    decreases tokens.len() - i,
{
    if i < tokens.len() && tokens[i] != "RMK"@ {
        remarks_not_before(tokens, i + 1);
    }
}

/// The words of a report body, each with the colour to draw it in. The text is otherwise
/// unchanged: this highlights, it does not translate.
pub fn coloured_words<'a>(body: &'a str, theme: &Theme) -> (r: Vec<(&'a str, Color)>)
    ensures
        r@.len() == words(body@).len(),
        forall|i: int|
            0 <= i < r@.len() ==> (#[trigger] r@[i]).0@ == words(body@)[i] && r@[i].1
                == word_colour(words(body@), i, *theme),
{
    let tokens: Vec<&'a str> = split_words(body);
    let ghost all = words(body@);
    let mut out: Vec<(&'a str, Color)> = Vec::new();
    let mut in_remarks: bool = false;
    let mut i: usize = 0;
    while i < tokens.len()
        invariant
            i <= tokens.len(),
            all == words(body@),
            all == texts(tokens@),
            out@.len() == i,
            in_remarks ==> remarks_at(all, 0) < i,
            !in_remarks ==> forall|j: int| 0 <= j < i ==> all[j] != "RMK"@,
            forall|k: int|
                0 <= k < i ==> (#[trigger] out@[k]).0@ == all[k] && out@[k].1 == word_colour(
                    all,
                    k,
                    *theme,
                ),
        decreases tokens.len() - i,
    {
        let token: &'a str = tokens[i];
        assert(token@ == all[i as int]);
        proof {
            if !in_remarks {
                remarks_step(all, 0, i as int);
            }
        }
        if !in_remarks && same(token, "RMK") {
            in_remarks = true;
        }
        let colour: Color = if in_remarks {
            theme.text_dim
        } else {
            code_colour(token, theme.text_secondary, theme)
        };
        out.push((token, colour));
        i = i + 1;
    }
    out
}

/// Whether measured widths are ones a panel could give.
pub open spec fn measured(widths: Seq<i64>) -> bool {
    forall|i: int| 0 <= i < widths.len() ==> 0 <= #[trigger] widths[i] <= LONGEST_SIDE
}

/// How far along a line a word starts, with a space after each word before it.
pub open spec fn word_left(widths: Seq<i64>, space: int, i: int) -> int
    decreases i,
{
    if i <= 0 {
        0
    } else {
        word_left(widths, space, i - 1) + widths[i - 1] + space
    }
}

/// Whether a word, and all before it, end within the room there is.
pub open spec fn word_fits(widths: Seq<i64>, space: int, room: int, i: int) -> bool {
    word_left(widths, space, i) + widths[i] <= room
}

/// Where each word of a line starts, up to the first that does not fit, and where the mark of a
/// cut goes when there is one.
///
/// A long body is cut rather than wrapped in the list: a wrapped TAF can run four lines and push
/// everything else off the panel, and the leading groups are the ones that matter at a glance. The
/// cut is marked, so a clipped report cannot be mistaken for a short one.
pub fn fit_line(widths: &[i64], space: i64, room: i64) -> (r: (Vec<i64>, Option<i64>))
    requires
        measured(widths@),
        0 <= space <= LONGEST_SIDE,
        -LONGEST_SIDE <= room <= LONGEST_SIDE,
    ensures
        r.0@.len() <= widths@.len(),
        forall|i: int|
            0 <= i < r.0@.len() ==> #[trigger] r.0@[i] == word_left(widths@, space as int, i)
                && word_fits(widths@, space as int, room as int, i),
        forall|i: int| 0 <= i < r.0@.len() ==> 0 <= #[trigger] r.0@[i] <= 2 * LONGEST_SIDE,
        match r.1 {
            Some(cut) => {
                &&& 0 <= cut <= 2 * LONGEST_SIDE
                &&& r.0@.len() < widths@.len()
                &&& !word_fits(widths@, space as int, room as int, r.0@.len() as int)
                &&& cut == word_left(widths@, space as int, r.0@.len() as int)
            },
            None => r.0@.len() == widths@.len(),
        },
{
    let mut lefts: Vec<i64> = Vec::new();
    let mut x: i64 = 0;
    let mut i: usize = 0;
    while i < widths.len()
        invariant
            i <= widths.len(),
            measured(widths@),
            0 <= space <= LONGEST_SIDE,
            -LONGEST_SIDE <= room <= LONGEST_SIDE,
            lefts@.len() == i,
            x == word_left(widths@, space as int, i as int),
            0 <= x <= 2 * LONGEST_SIDE,
            forall|k: int|
                0 <= k < i ==> #[trigger] lefts@[k] == word_left(widths@, space as int, k)
                    && word_fits(widths@, space as int, room as int, k),
            forall|k: int| 0 <= k < i ==> 0 <= #[trigger] lefts@[k] <= 2 * LONGEST_SIDE,
        decreases widths.len() - i,
    {
        let width: i64 = widths[i];
        assert(0 <= widths@[i as int] <= LONGEST_SIDE);
        if x + width > room {
            return (lefts, Some(x));
        }
        lefts.push(x);
        x = x + width + space;
        i = i + 1;
    }
    assert(i == widths@.len());
    assert forall|k: int| 0 <= k < lefts@.len() implies #[trigger] lefts@[k] == word_left(
        widths@,
        space as int,
        k,
    ) && word_fits(widths@, space as int, room as int, k) by {}
    (lefts, None)
}

/// Where the next word of a wrapped report would start: how far along, and on which line.
pub open spec fn wrap_cursor(widths: Seq<i64>, space: int, room: int, i: int) -> (int, int)
    decreases i, 1int,
{
    if i <= 0 {
        (0, 0)
    } else {
        let (x, line) = wrapped_at(widths, space, room, i - 1);
        (x + widths[i - 1] + space, line)
    }
}

/// Where a word of a wrapped report goes: on the line the one before it is on if it fits there,
/// else at the start of the next.
pub open spec fn wrapped_at(widths: Seq<i64>, space: int, room: int, i: int) -> (int, int)
    decreases i, 2int,
{
    let (x, line) = wrap_cursor(widths, space, room, i);
    if x + widths[i] > room {
        (0, line + 1)
    } else {
        (x, line)
    }
}

/// Where each word of a wrapped report goes, how far along and on which line, and how many lines
/// that takes.
///
/// With one report on screen it is shown whole: the codes being explained below have to be visible
/// above, or the expansion refers to text the reader cannot see.
pub fn wrap_lines(widths: &[i64], space: i64, room: i64) -> (r: (Vec<(i64, usize)>, usize))
    requires
        measured(widths@),
        0 <= space <= LONGEST_SIDE,
        -LONGEST_SIDE <= room <= LONGEST_SIDE,
        widths@.len() < usize::MAX - 1,
    ensures
        r.0@.len() == widths@.len(),
        forall|i: int|
            0 <= i < r.0@.len() ==> ((#[trigger] r.0@[i]).0 as int, r.0@[i].1 as int) == wrapped_at(
                widths@,
                space as int,
                room as int,
                i,
            ),
        forall|i: int|
            0 <= i < r.0@.len() ==> 0 <= (#[trigger] r.0@[i]).0 <= 2 * LONGEST_SIDE && r.0@[i].1
                <= widths@.len(),
        r.1 == wrap_cursor(widths@, space as int, room as int, widths@.len() as int).1 + 1,
        1 <= r.1 <= widths@.len() + 1,
{
    let mut places: Vec<(i64, usize)> = Vec::new();
    let mut x: i64 = 0;
    let mut line: usize = 0;
    let mut i: usize = 0;
    while i < widths.len()
        invariant
            i <= widths.len(),
            measured(widths@),
            widths@.len() < usize::MAX - 1,
            0 <= space <= LONGEST_SIDE,
            -LONGEST_SIDE <= room <= LONGEST_SIDE,
            places@.len() == i,
            (x as int, line as int) == wrap_cursor(widths@, space as int, room as int, i as int),
            0 <= x <= 2 * LONGEST_SIDE,
            line <= i,
            forall|k: int|
                0 <= k < i ==> ((#[trigger] places@[k]).0 as int, places@[k].1 as int)
                    == wrapped_at(widths@, space as int, room as int, k),
            forall|k: int|
                0 <= k < i ==> 0 <= (#[trigger] places@[k]).0 <= 2 * LONGEST_SIDE && places@[k].1
                    <= widths@.len(),
        decreases widths.len() - i,
    {
        let width: i64 = widths[i];
        assert(0 <= widths@[i as int] <= LONGEST_SIDE);
        if x + width > room {
            x = 0;
            line = line + 1;
        }
        places.push((x, line));
        assert((x as int, line as int) == wrapped_at(widths@, space as int, room as int, i as int));
        x = x + width + space;
        i = i + 1;
    }
    (places, line + 1)
}

/// The largest number of characters, up to `k`, whose width with the mark of a cut fits.
pub open spec fn longest_cut(cut_widths: Seq<i64>, room: int, k: int) -> int
    decreases k,
{
    if k <= 0 {
        0
    } else if cut_widths[k - 1] <= room {
        k
    } else {
        longest_cut(cut_widths, room, k - 1)
    }
}

/// A text shortened to fit, the cut marked with an ellipsis.
pub open spec fn fitted(
    text: Seq<char>,
    width: int,
    cut_widths: Seq<i64>,
    room: int,
) -> Seq<char> {
    if room <= 0 || width <= room {
        text
    } else {
        let n = longest_cut(cut_widths, room, text.len() as int);
        if n == 0 {
            seq![]
        } else {
            text.take(n).push(ELLIPSIS)
        }
    }
}

/// The mark of a cut.
pub const ELLIPSIS: char = '\u{2026}';

/// Shorten `text` until it fits `room`, marking the cut with an ellipsis.
///
/// `width` is how wide the whole text is, and `cut_widths[k]` how wide its first `k + 1` characters
/// are with an ellipsis behind them. Character widths vary, so only a measured width is an answer.
pub fn fit_text(text: &str, width: i64, cut_widths: &[i64], room: i64) -> (r: String)
    requires
        cut_widths@.len() == text@.len(),
    ensures
        r@ == fitted(text@, width as int, cut_widths@, room as int),
{
    let mut out: String = String::new();
    if room <= 0 || width <= room {
        out.append(text);
        assert(out@ =~= text@);
        return out;
    }
    let mut end: usize = text.unicode_len();
    while end > 0 && cut_widths[end - 1] > room
        invariant
            end <= text@.len(),
            cut_widths@.len() == text@.len(),
            longest_cut(cut_widths@, room as int, text@.len() as int) == longest_cut(
                cut_widths@,
                room as int,
                end as int,
            ),
        decreases end,
    {
        end = end - 1;
    }
    if end > 0 {
        out.append(text.substring_char(0, end));
        out.push(ELLIPSIS);
        assert(out@ =~= text@.take(end as int).push(ELLIPSIS));
    }
    assert(out@ =~= fitted(text@, width as int, cut_widths@, room as int));
    out
}

// --- the expansions of a report ------------------------------------------------------------

/// How many columns a list of expansions takes.
pub open spec fn columns_of(count: int, rows_available: int) -> int {
    if count <= larger(rows_available, 1) {
        1
    } else {
        2
    }
}

/// How many rows each of its columns has: balanced, at least one, and never more than there are.
pub open spec fn rows_in_column(count: int, rows_available: int) -> int {
    let columns = columns_of(count, rows_available);
    smaller(larger((count + columns - 1) / columns, 1), larger(rows_available, 1))
}

/// How to lay `count` expansions out in `rows_available` rows: `(columns, rows per column)`.
///
/// One column while the list fits, two once it does not. Two columns halve the width each meaning
/// gets, and a good many of them do not survive that, so the second column is introduced only when
/// the alternative is losing entries off the bottom. A full definition beats a tidy grid.
///
/// Balanced rather than filling the first column: 27 entries become two columns of 14 and 13, not
/// one of 24 and one of 3.
pub fn expansion_layout(count: usize, rows_available: usize) -> (r: (usize, usize))
    ensures
        r.0 == columns_of(count as int, rows_available as int),
        r.1 == rows_in_column(count as int, rows_available as int),
{
    let rows_available: usize = if rows_available < 1 {
        1
    } else {
        rows_available
    };
    let columns: usize = if count <= rows_available {
        1
    } else {
        2
    };
    let balanced: usize = if columns == 1 {
        count
    } else {
        count / 2 + count % 2
    };
    let balanced: usize = if balanced < 1 {
        1
    } else {
        balanced
    };
    let rows: usize = if balanced < rows_available {
        balanced
    } else {
        rows_available
    };
    (columns, rows)
}

/// Height of a line of an expansion.
pub open spec fn expansion_line(theme: Theme) -> int {
    line_of(theme) * 95 / 100
}

/// How many expansions fit one under the other between a height and the footer; at least one.
pub open spec fn rows_under(theme: Theme, layout: Layout, y: int) -> int {
    let room = layout.height - layout.footer_height - y;
    if room < expansion_line(theme) {
        1
    } else {
        room / expansion_line(theme)
    }
}

/// How many expansions fit one under the other between a height and the footer; at least one.
pub fn rows_available(theme: &Theme, layout: &Layout, y: i64) -> (r: usize)
    requires
        theme.sizes_ok(),
        layout.wf(),
        0 <= y <= 100_000_000_000_000_000,
    ensures
        r == rows_under(*theme, *layout, y as int),
        r >= 1,
{
    let line: i64 = line_height(theme) * 95 / 100;
    let room: i64 = layout.height - layout.footer_height - y;
    if room < line {
        1
    } else {
        proof {
            let b = room as int;
            let d = line as int;
            assert(1 <= b / d <= b) by (nonlinear_arith)
                requires
                    0 < d <= b,
            ;
        }
        (room / line) as usize
    }
}

/// The column and the row an expansion stands in.
pub fn expansion_cell(i: usize, rows: usize) -> (r: (usize, usize))
    requires
        0 < rows,
    ensures
        r.0 == i as int / rows as int,
        r.1 == i as int % rows as int,
        r.0 * rows + r.1 == i,
        r.1 < rows,
{
    proof {
        vstd::arithmetic::div_mod::lemma_fundamental_div_mod(i as int, rows as int);
        vstd::arithmetic::mul::lemma_mul_is_commutative(rows as int, i as int / rows as int);
    }
    (i / rows, i % rows)
}

/// How many expansions are shown.
pub open spec fn shown_of(count: int, columns: int, rows: int) -> int {
    smaller(rows * columns, count)
}

/// The note on expansions there was no room for, if any. Entries are never dropped silently.
pub fn more_text(count: usize, columns: usize, rows: usize) -> (r: Option<String>)
    requires
        columns <= 2,
        rows <= usize::MAX / 2,
    ensures
        match r {
            Some(text) => {
                &&& shown_of(count as int, columns as int, rows as int) < count
                &&& text@ == "+"@ + decimal(
                    (count - shown_of(count as int, columns as int, rows as int)) as nat,
                ) + " more"@
            },
            None => shown_of(count as int, columns as int, rows as int) == count,
        },
{
    assert(0 <= rows * columns <= rows * 2) by (nonlinear_arith)
        requires
            0 <= columns <= 2,
            0 <= rows,
    ;
    let capacity: usize = rows * columns;
    if capacity < count {
        let mut out: String = String::new();
        out.append("+");
        push_decimal(&mut out, (count - capacity) as u64);
        out.append(" more");
        assert(out@ =~= "+"@ + decimal((count - capacity) as nat) + " more"@);
        Some(out)
    } else {
        None
    }
}

/// How wide a column of expansions is.
pub open spec fn column_width(layout: Layout, columns: int) -> int {
    let width = layout.content_x1 - layout.content_x0 - 2 * layout.margin;
    if columns == 1 {
        width
    } else if width >= 0 {
        width / 2
    } else {
        -((-width) / 2)
    }
}

/// Where the columns of the expansions start and how much room a meaning has in one:
/// `(column width, room)`. `code_width` is how wide the widest code is.
///
/// Without this a meaning would slide under the page strip or run into the next column, and since
/// the strip is drawn afterwards the overrun would not be clipped but silently covered.
pub fn meaning_room(layout: &Layout, theme: &Theme, columns: usize, code_width: i64) -> (r: (
    i64,
    i64,
))
    requires
        layout.wf(),
        theme.sizes_ok(),
        1 <= columns <= 2,
        0 <= code_width <= LONGEST_SIDE,
    ensures
        r.0 == column_width(*layout, columns as int),
        r.1 == r.0 - (code_width + theme.font_size_small * 8 / 10) - theme.font_size_small,
{
    let width: i64 = layout.content_width() - 2 * layout.margin;
    let column: i64 = if columns == 1 {
        width
    } else {
        width / 2
    };
    let room: i64 = column - (code_width + theme.font_size_small * 8 / 10) - theme.font_size_small;
    (column, room)
}

// --- the picture ---------------------------------------------------------------------------

/// How text of the ordinary size on this page is written.
pub open spec fn small_style(colour: Color, align: Align, theme: Theme) -> Style {
    Style { colour, size: theme.font_size_small, align, baseline: Baseline::Middle }
}

fn small(colour: Color, align: Align, theme: &Theme) -> (r: Style)
    ensures
        r == small_style(colour, align, *theme),
{
    Style::new(colour, theme.font_size_small, align, Baseline::Middle)
}

/// How wide the parts of an entry are: its heading, and each word of its body.
pub struct EntryWidths {
    pub heading: i64,
    pub words: Vec<i64>,
}

impl EntryWidths {
    /// Whether these could be the widths of an entry with this body.
    pub open spec fn fits(self, body: Seq<char>) -> bool {
        &&& 0 <= self.heading <= LONGEST_SIDE
        &&& self.words@.len() == words(body).len()
        &&& self.words@.len() <= 1_000_000_000
        &&& measured(self.words@)
    }
}

/// How wide a text is: whole, and each beginning of it with the mark of a cut behind.
pub struct Cuts {
    pub whole: i64,
    pub cut: Vec<i64>,
}

/// How wide the parts of an opened report are: those of the entry, and each code it holds and that
/// code's meaning.
pub struct ReportWidths {
    pub entry: EntryWidths,
    pub codes: Vec<i64>,
    pub meanings: Vec<Cuts>,
}

/// The codes a body holds.
pub open spec fn codes_held(body: Seq<char>) -> Seq<Seq<char>> {
    codes_explained(words(body))
}

/// What the code at this place of a body means.
pub open spec fn meaning_at(body: Seq<char>, i: int) -> Seq<char> {
    meaning_of(codes_held(body)[i])->0
}

impl ReportWidths {
    /// Whether these could be the widths of a report with this body.
    pub open spec fn fits(self, body: Seq<char>) -> bool {
        &&& self.entry.fits(body)
        &&& self.codes@.len() == codes_held(body).len()
        &&& self.codes@.len() <= 1_000_000_000
        &&& measured(self.codes@)
        &&& self.meanings@.len() == codes_held(body).len()
        &&& forall|i: int|
            0 <= i < self.meanings@.len() ==> (#[trigger] self.meanings@[i]).cut@.len()
                == meaning_at(body, i).len()
    }
}

/// Everything that is measured for this page.
pub struct PageWidths {
    pub space: i64,
    /// Of the entries on screen, while the list is browsed.
    pub entries: Vec<EntryWidths>,
    /// Of the report that is open, if one is.
    pub report: Option<ReportWidths>,
}

/// Everything this page is about. `order` is the order the items are listed in, and each stands
/// beside what its product is called.
pub struct Products<'a> {
    pub items: &'a [WeatherText],
    pub names: &'a [String],
    pub order: &'a [usize],
    /// Whether the stream they come from is connected.
    pub connected: bool,
    /// The number of radar blocks held, and the age of the newest.
    pub nexrad: Option<(usize, u64)>,
}

impl<'a> Products<'a> {
    /// Whether every place in the order is that of an item with a name.
    pub open spec fn wf(self) -> bool {
        &&& self.names@.len() == self.items@.len()
        &&& forall|k: int|
            0 <= k < self.order@.len() ==> (#[trigger] self.order@[k]) < self.items@.len()
    }

    /// The item at a place of the list.
    pub open spec fn item(self, place: int) -> WeatherText {
        self.items@[self.order@[place] as int]
    }

    /// What the product at a place of the list is called.
    pub open spec fn name(self, place: int) -> Seq<char> {
        self.names@[self.order@[place] as int]@
    }
}

/// A line across the content.
pub open spec fn rule_at(layout: Layout, theme: Theme, y: int) -> Painted {
    stroke(
        (layout.content_x0 + layout.margin, y),
        (layout.content_x1 - layout.margin, y),
        theme.text_dim,
        1_000,
    )
}

fn put_rule(out: &mut Vec<Mark>, layout: &Layout, theme: &Theme, y: i64)
    requires
        layout.wf(),
    ensures
        drawn(final(out)@) == drawn(old(out)@).push(rule_at(*layout, *theme, y as int)),
{
    put_line(
        out,
        (layout.content_left(), y),
        (layout.content_right(), y),
        theme.text_dim,
        1_000,
    );
}

/// The line above the list, where in the list it is, and the rule under both.
pub open spec fn header_marks(
    total: int,
    offset: int,
    nexrad: Option<(usize, u64)>,
    layout: Layout,
    theme: Theme,
) -> Seq<Painted> {
    let y = layout.status_bar_height + line_of(theme) * 6 / 10;
    let rows = rows_of(theme, layout);
    seq![
        text_at(
            layout.content_x0 + layout.margin,
            y,
            header_of(total as nat, nexrad),
            small_style(theme.text_secondary, Align::Left, theme),
        ),
    ] + if total > rows {
        seq![
            text_at(
                layout.content_x1 - layout.margin,
                y,
                scroll_of(offset, rows, total),
                small_style(theme.text_dim, Align::Right, theme),
            ),
        ]
    } else {
        seq![]
    } + seq![rule_at(layout, theme, layout.status_bar_height + line_of(theme) * 14 / 10)]
}

fn draw_header(
    total: usize,
    offset: usize,
    nexrad: Option<(usize, u64)>,
    layout: &Layout,
    theme: &Theme,
) -> (r: Vec<Mark>)
    requires
        theme.sizes_ok(),
        layout.wf(),
        total > rows_of(*theme, *layout) ==> offset <= total - rows_of(*theme, *layout),
    ensures
        drawn(r@) == header_marks(total as int, offset as int, nexrad, *layout, *theme),
{
    let line: i64 = line_height(theme);
    let rows: usize = rows_per_page(theme, layout);
    let y: i64 = layout.status_bar_height + line * 6 / 10;
    let mut out: Vec<Mark> = nothing();
    let text: String = header_text(total, nexrad);
    put_text(
        &mut out,
        layout.content_left(),
        y,
        text.as_str(),
        small(theme.text_secondary, Align::Left, theme),
    );
    if let Some(text) = scroll_text(offset, rows, total) {
        put_text(
            &mut out,
            layout.content_right(),
            y,
            text.as_str(),
            small(theme.text_dim, Align::Right, theme),
        );
    }
    put_rule(&mut out, layout, theme, layout.status_bar_height + line * 14 / 10);
    assert(drawn(out@) =~= header_marks(total as int, offset as int, nexrad, *layout, *theme));
    out
}

/// What stands in place of an empty list.
pub open spec fn notice_marks(connected: bool, layout: Layout, theme: Theme) -> Seq<Painted> {
    let cx = layout.content_x0 + (layout.content_x1 - layout.content_x0) / 2;
    let cy = layout.height as int / 2;
    seq![
        text_at(
            cx,
            cy,
            notice_of(connected).0,
            Style {
                colour: theme.text_secondary,
                size: theme.font_size_large,
                align: Align::Center,
                baseline: Baseline::Bottom,
            },
        ),
        text_at(
            cx,
            cy + 4_000,
            notice_of(connected).1,
            Style {
                colour: theme.text_dim,
                size: theme.font_size_small,
                align: Align::Center,
                baseline: Baseline::Top,
            },
        ),
    ]
}

fn draw_empty_notice(connected: bool, layout: &Layout, theme: &Theme) -> (r: Vec<Mark>)
    requires
        layout.wf(),
    ensures
        drawn(r@) == notice_marks(connected, *layout, *theme),
{
    let cx: i64 = layout.content_x0 + layout.content_width() / 2;
    let cy: i64 = layout.height / 2;
    let (headline, detail) = empty_notice(connected);
    let mut out: Vec<Mark> = nothing();
    let style: Style = Style::new(
        theme.text_secondary,
        theme.font_size_large,
        Align::Center,
        Baseline::Bottom,
    );
    put_text(&mut out, cx, cy, headline, style);
    let style: Style = Style::new(
        theme.text_dim,
        theme.font_size_small,
        Align::Center,
        Baseline::Top,
    );
    put_text(&mut out, cx, cy + 4_000, detail, style);
    assert(drawn(out@) =~= notice_marks(connected, *layout, *theme));
    out
}

/// An entry's heading at a height, with the flight category beside it.
pub open spec fn heading_marks(
    product: Seq<char>,
    item: WeatherText,
    width: int,
    y: int,
    layout: Layout,
    theme: Theme,
) -> Seq<Painted> {
    let x = layout.content_x0 + layout.margin;
    seq![
        text_at(
            x,
            y,
            heading_of(product, item.location@),
            small_style(theme.text_primary, Align::Left, theme),
        ),
    ] + match badge_of(item) {
        Some(category) => seq![
            text_at(
                x + width + 10_000,
                y,
                category.name(),
                small_style(category.tint(theme), Align::Left, theme),
            ),
        ],
        None => seq![],
    }
}

fn draw_heading(
    product: &str,
    item: &WeatherText,
    width: i64,
    y: i64,
    layout: &Layout,
    theme: &Theme,
) -> (r: Vec<Mark>)
    requires
        layout.wf(),
        0 <= width <= LONGEST_SIDE,
    ensures
        drawn(r@) == heading_marks(product@, *item, width as int, y as int, *layout, *theme),
{
    let x: i64 = layout.content_left();
    let mut out: Vec<Mark> = nothing();
    let text: String = heading(product, item.location.as_str());
    put_text(&mut out, x, y, text.as_str(), small(theme.text_primary, Align::Left, theme));
    if let Some(category) = badge(item) {
        let style: Style = small(category.colour(theme), Align::Left, theme);
        put_text(&mut out, x + width + 10_000, y, category.label(), style);
    }
    assert(drawn(out@) =~= heading_marks(
        product@,
        *item,
        width as int,
        y as int,
        *layout,
        *theme,
    ));
    out
}

/// How many words of a line, counted from `k`, fit one after the other.
pub open spec fn words_fitting(widths: Seq<i64>, space: int, room: int, k: int) -> int
    decreases widths.len() - k,
{
    if k >= widths.len() || !word_fits(widths, space, room, k) {
        k
    } else {
        words_fitting(widths, space, room, k + 1)
    }
}

proof fn fitting_words_counted(widths: Seq<i64>, space: int, room: int, k: int, n: int)
    requires
        0 <= k <= n <= widths.len(),
        forall|i: int| k <= i < n ==> word_fits(widths, space, room, i),
        n < widths.len() ==> !word_fits(widths, space, room, n),
    ensures
        words_fitting(widths, space, room, k) == n,
    decreases n - k,
{
    if k < n {
        fitting_words_counted(widths, space, room, k + 1, n);
    }
}

/// The first `n` words of a body on one line that starts at `x`.
pub open spec fn line_marks(
    body: Seq<char>,
    widths: Seq<i64>,
    space: int,
    n: int,
    x: int,
    y: int,
    theme: Theme,
) -> Seq<Painted> {
    Seq::new(
        n as nat,
        |i: int|
            text_at(
                x + word_left(widths, space, i),
                y,
                words(body)[i],
                small_style(word_colour(words(body), i, theme), Align::Left, theme),
            ),
    )
}

/// A body on one line, as much of it as fits, and the mark of the cut where there is one.
pub open spec fn body_marks(
    body: Seq<char>,
    widths: Seq<i64>,
    space: int,
    y: int,
    layout: Layout,
    theme: Theme,
) -> Seq<Painted> {
    let x = layout.content_x0 + layout.margin + theme.font_size_small * 12 / 10;
    let n = words_fitting(widths, space, layout.content_x1 - layout.margin - x, 0);
    line_marks(body, widths, space, n, x, y, theme) + if n < widths.len() {
        seq![
            text_at(
                x + word_left(widths, space, n),
                y,
                seq![ELLIPSIS],
                small_style(theme.text_dim, Align::Left, theme),
            ),
        ]
    } else {
        seq![]
    }
}

fn draw_body(
    body: &str,
    widths: &[i64],
    space: i64,
    y: i64,
    layout: &Layout,
    theme: &Theme,
) -> (r: Vec<Mark>)
    requires
        layout.wf(),
        theme.sizes_ok(),
        measured(widths@),
        widths@.len() == words(body@).len(),
        0 <= space <= LONGEST_SIDE,
    ensures
        drawn(r@) == body_marks(body@, widths@, space as int, y as int, *layout, *theme),
{
    let x: i64 = layout.content_left() + theme.font_size_small * 12 / 10;
    let room: i64 = layout.content_right() - x;
    let tokens: Vec<(&str, Color)> = coloured_words(body, theme);
    let (lefts, cut) = fit_line(widths, space, room);
    let ghost n = lefts@.len() as int;
    proof {
        assert forall|i: int| 0 <= i < n implies word_fits(widths@, space as int, room as int, i) by {
            let _ = lefts@[i];
        }
        fitting_words_counted(widths@, space as int, room as int, 0, n);
    }
    let mut out: Vec<Mark> = nothing();
    let mut i: usize = 0;
    assert(drawn(out@) =~= line_marks(body@, widths@, space as int, 0, x as int, y as int, *theme));
    while i < lefts.len()
        invariant
            i <= lefts.len(),
            lefts.len() <= tokens.len(),
            tokens@.len() == words(body@).len(),
            forall|k: int|
                0 <= k < tokens@.len() ==> (#[trigger] tokens@[k]).0@ == words(body@)[k]
                    && tokens@[k].1 == word_colour(words(body@), k, *theme),
            forall|k: int|
                0 <= k < lefts@.len() ==> #[trigger] lefts@[k] == word_left(
                    widths@,
                    space as int,
                    k,
                ) && word_fits(widths@, space as int, room as int, k),
            forall|k: int| 0 <= k < lefts@.len() ==> 0 <= #[trigger] lefts@[k] <= 2 * LONGEST_SIDE,
            0 <= x <= 2 * LONGEST_SIDE,
            drawn(out@) == line_marks(
                body@,
                widths@,
                space as int,
                i as int,
                x as int,
                y as int,
                *theme,
            ),
        decreases lefts.len() - i,
    {
        let (token, shade) = tokens[i];
        put_text(&mut out, x + lefts[i], y, token, small(shade, Align::Left, theme));
        i = i + 1;
        assert(drawn(out@) =~= line_marks(
            body@,
            widths@,
            space as int,
            i as int,
            x as int,
            y as int,
            *theme,
        ));
    }
    if let Some(cut) = cut {
        let mut mark: String = String::new();
        mark.push(ELLIPSIS);
        assert(mark@ =~= seq![ELLIPSIS]);
        put_text(&mut out, x + cut, y, mark.as_str(), small(theme.text_dim, Align::Left, theme));
    }
    assert(drawn(out@) =~= body_marks(
        body@,
        widths@,
        space as int,
        y as int,
        *layout,
        *theme,
    ));
    out
}

/// An entry of the list on the row whose middle is here.
pub open spec fn entry_marks(
    product: Seq<char>,
    item: WeatherText,
    widths: EntryWidths,
    space: int,
    middle: int,
    now: u64,
    layout: Layout,
    theme: Theme,
) -> Seq<Painted> {
    let up = middle - line_of(theme) / 2;
    let seconds = (age_at(item.received, now) / SECOND) as int;
    heading_marks(product, item, widths.heading as int, up, layout, theme) + seq![
        text_at(
            layout.content_x1 - layout.margin,
            up,
            age_text(seconds as nat),
            small_style(age_colour_of(seconds, theme), Align::Right, theme),
        ),
    ] + body_marks(
        item.body@,
        widths.words@,
        space,
        middle + line_of(theme) / 2,
        layout,
        theme,
    )
}

/// How long ago something arrived.
pub open spec fn age_at(received: u64, now: u64) -> u64 {
    if now >= received {
        (now - received) as u64
    } else {
        0
    }
}

fn age_of(received: u64, now: u64) -> (r: u64)
    ensures
        r == age_at(received, now),
{
    if now >= received {
        now - received
    } else {
        0
    }
}

fn draw_entry(
    product: &str,
    item: &WeatherText,
    widths: &EntryWidths,
    space: i64,
    middle: i64,
    now: u64,
    layout: &Layout,
    theme: &Theme,
) -> (r: Vec<Mark>)
    requires
        layout.wf(),
        theme.sizes_ok(),
        widths.fits(item.body@),
        0 <= space <= LONGEST_SIDE,
        0 <= middle <= 100_000_000_000_000_000,
    ensures
        drawn(r@) == entry_marks(
            product@,
            *item,
            *widths,
            space as int,
            middle as int,
            now,
            *layout,
            *theme,
        ),
{
    let line: i64 = line_height(theme);
    let age: u64 = age_of(item.received, now);
    let mut out: Vec<Mark> = draw_heading(
        product,
        item,
        widths.heading,
        middle - line / 2,
        layout,
        theme,
    );
    let text: String = format_age(age);
    put_text(
        &mut out,
        layout.content_right(),
        middle - line / 2,
        text.as_str(),
        small(age_colour(age, theme), Align::Right, theme),
    );
    put_all(
        &mut out,
        draw_body(
            item.body.as_str(),
            widths.words.as_slice(),
            space,
            middle + line / 2,
            layout,
            theme,
        ),
    );
    assert(drawn(out@) =~= entry_marks(
        product@,
        *item,
        *widths,
        space as int,
        middle as int,
        now,
        *layout,
        *theme,
    ));
    out
}

/// The first `n` entries of the list from `offset` on.
pub open spec fn list_marks(
    products: Products<'_>,
    offset: int,
    widths: Seq<EntryWidths>,
    space: int,
    n: int,
    now: u64,
    layout: Layout,
    theme: Theme,
) -> Seq<Painted>
    decreases n,
{
    if n <= 0 {
        seq![]
    } else {
        list_marks(products, offset, widths, space, n - 1, now, layout, theme) + entry_marks(
            products.name(offset + n - 1),
            products.item(offset + n - 1),
            widths[n - 1],
            space,
            row_top(theme, layout, n - 1) + line_of(theme),
            now,
            layout,
            theme,
        )
    }
}

/// How many entries are on screen.
pub open spec fn entries_shown(total: int, offset: int, layout: Layout, theme: Theme) -> int {
    smaller(total - offset, rows_of(theme, layout))
}

fn draw_list(
    products: &Products<'_>,
    offset: usize,
    widths: &Vec<EntryWidths>,
    space: i64,
    now: u64,
    layout: &Layout,
    theme: &Theme,
) -> (r: Vec<Mark>)
    requires
        products.wf(),
        layout.wf(),
        theme.sizes_ok(),
        offset <= products.order@.len(),
        widths@.len() == entries_shown(
            products.order@.len() as int,
            offset as int,
            *layout,
            *theme,
        ),
        forall|k: int|
            0 <= k < widths@.len() ==> (#[trigger] widths@[k]).fits(
                products.item(offset + k).body@,
            ),
        0 <= space <= LONGEST_SIDE,
    ensures
        drawn(r@) == list_marks(
            *products,
            offset as int,
            widths@,
            space as int,
            widths@.len() as int,
            now,
            *layout,
            *theme,
        ),
{
    let rows: usize = rows_per_page(theme, layout);
    let total: usize = products.order.len();
    let mut out: Vec<Mark> = nothing();
    let mut k: usize = 0;
    while k < widths.len()
        invariant
            k <= widths.len(),
            widths@.len() <= rows,
            rows <= 1_000_000_000,
            total == products.order@.len(),
            offset + widths@.len() <= total,
            products.wf(),
            layout.wf(),
            theme.sizes_ok(),
            forall|k: int|
                0 <= k < widths@.len() ==> (#[trigger] widths@[k]).fits(
                    products.item(offset + k).body@,
                ),
            0 <= space <= LONGEST_SIDE,
            drawn(out@) == list_marks(
                *products,
                offset as int,
                widths@,
                space as int,
                k as int,
                now,
                *layout,
                *theme,
            ),
        decreases widths.len() - k,
    {
        let place: usize = products.order[offset + k];
        assert(place < products.items@.len());
        assert(widths@[k as int].fits(products.item(offset + k).body@));
        let middle: i64 = row_center(theme, layout, k);
        assert(0 <= middle <= 100_000_000_000_000_000) by {
            let line = line_of(*theme);
            assert(0 <= 2 * line * k <= 2 * line * 1_000_000_000) by (nonlinear_arith)
                requires
                    0 < line,
                    0 <= k <= 1_000_000_000,
            ;
        }
        put_all(
            &mut out,
            draw_entry(
                products.names[place].as_str(),
                &products.items[place],
                &widths[k],
                space,
                middle,
                now,
                layout,
                theme,
            ),
        );
        k = k + 1;
    }
    out
}

/// A body wrapped onto lines, the first at `y`, each starting at `x`.
pub open spec fn wrapped_marks(
    body: Seq<char>,
    widths: Seq<i64>,
    space: int,
    room: int,
    n: int,
    x: int,
    y: int,
    theme: Theme,
) -> Seq<Painted> {
    Seq::new(
        n as nat,
        |i: int|
            text_at(
                x + wrapped_at(widths, space, room, i).0,
                y + wrapped_at(widths, space, room, i).1 * line_of(theme),
                words(body)[i],
                small_style(word_colour(words(body), i, theme), Align::Left, theme),
            ),
    )
}

/// Where a report on its own starts, across and down, and how much room its lines have.
pub open spec fn report_left(layout: Layout, theme: Theme) -> int {
    layout.content_x0 + layout.margin + theme.font_size_small * 8 / 10
}

/// How many lines a wrapped report takes.
pub open spec fn report_lines(widths: Seq<i64>, space: int, layout: Layout, theme: Theme) -> int {
    let room = layout.content_x1 - layout.margin - report_left(layout, theme);
    wrap_cursor(widths, space, room, widths.len() as int).1 + 1
}

fn draw_wrapped(
    body: &str,
    widths: &[i64],
    space: i64,
    y: i64,
    layout: &Layout,
    theme: &Theme,
) -> (r: (Vec<Mark>, usize))
    requires
        layout.wf(),
        theme.sizes_ok(),
        measured(widths@),
        widths@.len() == words(body@).len(),
        widths@.len() <= 1_000_000_000,
        0 <= space <= LONGEST_SIDE,
        0 <= y <= LONGEST_SIDE,
    ensures
        drawn(r.0@) == wrapped_marks(
            body@,
            widths@,
            space as int,
            layout.content_x1 - layout.margin - report_left(*layout, *theme),
            widths@.len() as int,
            report_left(*layout, *theme),
            y as int,
            *theme,
        ),
        r.1 == report_lines(widths@, space as int, *layout, *theme),
        1 <= r.1 <= widths@.len() + 1,
{
    let line: i64 = line_height(theme);
    let x: i64 = layout.content_left() + theme.font_size_small * 8 / 10;
    let room: i64 = layout.content_right() - x;
    let tokens: Vec<(&str, Color)> = coloured_words(body, theme);
    let (places, lines) = wrap_lines(widths, space, room);
    let mut out: Vec<Mark> = nothing();
    let mut i: usize = 0;
    assert(drawn(out@) =~= wrapped_marks(
        body@,
        widths@,
        space as int,
        room as int,
        0,
        x as int,
        y as int,
        *theme,
    ));
    while i < places.len()
        invariant
            i <= places.len(),
            places@.len() == tokens@.len(),
            tokens@.len() == words(body@).len(),
            places@.len() == widths@.len(),
            widths@.len() <= 1_000_000_000,
            forall|k: int|
                0 <= k < tokens@.len() ==> (#[trigger] tokens@[k]).0@ == words(body@)[k]
                    && tokens@[k].1 == word_colour(words(body@), k, *theme),
            forall|k: int|
                0 <= k < places@.len() ==> ((#[trigger] places@[k]).0 as int, places@[k].1 as int)
                    == wrapped_at(widths@, space as int, room as int, k),
            forall|k: int|
                0 <= k < places@.len() ==> 0 <= (#[trigger] places@[k]).0 <= 2 * LONGEST_SIDE
                    && places@[k].1 <= widths@.len(),
            0 <= x <= 2 * LONGEST_SIDE,
            0 <= y <= LONGEST_SIDE,
            line == line_of(*theme),
            0 < line <= 20_000_000,
            drawn(out@) == wrapped_marks(
                body@,
                widths@,
                space as int,
                room as int,
                i as int,
                x as int,
                y as int,
                *theme,
            ),
        decreases places.len() - i,
    {
        let (token, shade) = tokens[i];
        let (along, row) = places[i];
        assert(places@[i as int].1 <= widths@.len());
        assert(0 <= row * line <= 1_000_000_000 * 20_000_000) by (nonlinear_arith)
            requires
                0 <= row <= 1_000_000_000,
                0 < line <= 20_000_000,
        ;
        put_text(
            &mut out,
            x + along,
            y + row as i64 * line,
            token,
            small(shade, Align::Left, theme),
        );
        i = i + 1;
        assert(drawn(out@) =~= wrapped_marks(
            body@,
            widths@,
            space as int,
            room as int,
            i as int,
            x as int,
            y as int,
            *theme,
        ));
    }
    (out, lines)
}

/// The widest of the first `n`.
pub open spec fn widest(widths: Seq<i64>, n: int) -> int
    decreases n,
{
    if n <= 0 {
        0
    } else {
        larger(widest(widths, n - 1), widths[n - 1] as int)
    }
}

fn widest_of(widths: &[i64]) -> (r: i64)
    requires
        measured(widths@),
    ensures
        r == widest(widths@, widths@.len() as int),
        0 <= r <= LONGEST_SIDE,
{
    let mut r: i64 = 0;
    let mut i: usize = 0;
    while i < widths.len()
        invariant
            i <= widths.len(),
            measured(widths@),
            r == widest(widths@, i as int),
            0 <= r <= LONGEST_SIDE,
        decreases widths.len() - i,
    {
        let width: i64 = widths[i];
        assert(0 <= widths@[i as int] <= LONGEST_SIDE);
        if width > r {
            r = width;
        }
        i = i + 1;
    }
    r
}

/// The code at a place of a body and what it means, `rows` to a column, the first at `y`.
pub open spec fn expansion_marks(
    body: Seq<char>,
    widths: ReportWidths,
    i: int,
    columns: int,
    rows: int,
    y: int,
    layout: Layout,
    theme: Theme,
) -> Seq<Painted> {
    let code = codes_held(body)[i];
    let beside = widest(widths.codes@, widths.codes@.len() as int) + theme.font_size_small * 8
        / 10;
    let column = column_width(layout, columns);
    let x = layout.content_x0 + layout.margin + i / rows * column;
    let at = y + i % rows * expansion_line(theme);
    seq![
        text_at(
            x,
            at,
            code,
            small_style(
                hazard_colour(hazard_of(code), theme.text_primary, theme),
                Align::Left,
                theme,
            ),
        ),
        text_at(
            x + beside,
            at,
            fitted(
                meaning_at(body, i),
                widths.meanings@[i].whole as int,
                widths.meanings@[i].cut@,
                column - beside - theme.font_size_small,
            ),
            small_style(theme.text_secondary, Align::Left, theme),
        ),
    ]
}

/// The first `n` codes of a body and what they mean.
pub open spec fn expansions(
    body: Seq<char>,
    widths: ReportWidths,
    n: int,
    columns: int,
    rows: int,
    y: int,
    layout: Layout,
    theme: Theme,
) -> Seq<Painted>
    decreases n,
{
    if n <= 0 {
        seq![]
    } else {
        expansions(body, widths, n - 1, columns, rows, y, layout, theme) + expansion_marks(
            body,
            widths,
            n - 1,
            columns,
            rows,
            y,
            layout,
            theme,
        )
    }
}

/// Everything under an opened report: its codes and what they mean, as many as there is room for,
/// and how many there was none for.
pub open spec fn glossary_marks(
    body: Seq<char>,
    widths: ReportWidths,
    y: int,
    layout: Layout,
    theme: Theme,
) -> Seq<Painted> {
    let count = codes_held(body).len() as int;
    let room = rows_under(theme, layout, y);
    let columns = columns_of(count, room);
    let rows = rows_in_column(count, room);
    let shown = shown_of(count, columns, rows);
    if count == 0 {
        seq![
            text_at(
                layout.content_x0 + layout.margin,
                y,
                "no recognised abbreviations in this report"@,
                small_style(theme.text_dim, Align::Left, theme),
            ),
        ]
    } else {
        expansions(body, widths, shown, columns, rows, y, layout, theme) + if shown < count {
            seq![
                text_at(
                    layout.content_x1 - layout.margin,
                    y + rows * expansion_line(theme),
                    "+"@ + decimal((count - shown) as nat) + " more"@,
                    small_style(theme.text_dim, Align::Right, theme),
                ),
            ]
        } else {
            seq![]
        }
    }
}

fn draw_expansions(
    body: &str,
    widths: &ReportWidths,
    y: i64,
    layout: &Layout,
    theme: &Theme,
) -> (r: Vec<Mark>)
    requires
        layout.wf(),
        theme.sizes_ok(),
        widths.fits(body@),
        0 <= y <= 100_000_000_000_000_000,
    ensures
        drawn(r@) == glossary_marks(body@, *widths, y as int, *layout, *theme),
{
    let left: i64 = layout.content_left();
    let codes: Vec<(&'static str, &'static str)> = explain(body);
    let ghost held = codes_held(body@);
    assert(codes@.len() == held.len()) by {
        assert(codes_listed(codes@).len() == codes@.len());
    }
    let mut out: Vec<Mark> = nothing();
    if codes.len() == 0 {
        put_text(
            &mut out,
            left,
            y,
            "no recognised abbreviations in this report",
            small(theme.text_dim, Align::Left, theme),
        );
        assert(drawn(out@) =~= glossary_marks(body@, *widths, y as int, *layout, *theme));
        return out;
    }
    let step: i64 = line_height(theme) * 95 / 100;
    let room: usize = rows_available(theme, layout, y);
    let (columns, rows) = expansion_layout(codes.len(), room);
    let most: i64 = widest_of(widths.codes.as_slice());
    let (column, meaning) = meaning_room(layout, theme, columns, most);
    let beside: i64 = most + theme.font_size_small * 8 / 10;
    let ghost shown = shown_of(codes@.len() as int, columns as int, rows as int);
    assert(1 <= rows <= codes@.len());
    let mut i: usize = 0;
    assert(0 <= rows * columns <= 2_000_000_000) by (nonlinear_arith)
        requires
            0 <= rows <= 1_000_000_000,
            0 <= columns <= 2,
    ;
    while i < codes.len() && i < rows * columns
        invariant
            i <= shown,
            shown == shown_of(codes@.len() as int, columns as int, rows as int),
            0 <= rows * columns <= 2_000_000_000,
            1 <= rows <= codes@.len(),
            1 <= columns <= 2,
            codes@.len() <= 1_000_000_000,
            codes@.len() == held.len(),
            held == codes_held(body@),
            codes_listed(codes@) == held,
            meanings_match(codes@),
            layout.wf(),
            theme.sizes_ok(),
            widths.fits(body@),
            0 <= y <= 100_000_000_000_000_000,
            left == layout.content_x0 + layout.margin,
            step == expansion_line(*theme),
            0 <= step <= 20_000_000,
            most == widest(widths.codes@, widths.codes@.len() as int),
            0 <= most <= LONGEST_SIDE,
            beside == most + theme.font_size_small * 8 / 10,
            column == column_width(*layout, columns as int),
            meaning == column - beside - theme.font_size_small,
            drawn(out@) == expansions(
                body@,
                *widths,
                i as int,
                columns as int,
                rows as int,
                y as int,
                *layout,
                *theme,
            ),
        decreases codes.len() - i,
    {
        let (across, down) = expansion_cell(i, rows);
        let (code, text) = codes[i];
        assert(code@ == held[i as int]) by {
            assert(codes_listed(codes@)[i as int] == codes@[i as int].0@);
        }
        assert(text@ == meaning_at(body@, i as int)) by {
            assert(meaning_of(codes@[i as int].0@) == Some(codes@[i as int].1@));
        }
        assert(across < columns) by (nonlinear_arith)
            requires
                across * rows + down == i,
                i < rows * columns,
                0 <= down,
                0 < rows,
        ;
        assert(-2_000_000_000 <= across * column <= 2_000_000_000) by (nonlinear_arith)
            requires
                0 <= across <= 1,
                -2_000_000_000 <= column <= 2_000_000_000,
        ;
        assert(0 <= down * step <= 1_000_000_000 * 20_000_000) by (nonlinear_arith)
            requires
                0 <= down <= 1_000_000_000,
                0 <= step <= 20_000_000,
        ;
        let x: i64 = left + across as i64 * column;
        let at: i64 = y + down as i64 * step;
        let shade: Color = code_colour(code, theme.text_primary, theme);
        put_text(&mut out, x, at, code, small(shade, Align::Left, theme));
        assert(widths.meanings@[i as int].cut@.len() == meaning_at(body@, i as int).len());
        let cuts: &Cuts = &widths.meanings[i];
        let shown_text: String = fit_text(text, cuts.whole, cuts.cut.as_slice(), meaning);
        put_text(
            &mut out,
            x + beside,
            at,
            shown_text.as_str(),
            small(theme.text_secondary, Align::Left, theme),
        );
        i = i + 1;
        assert(drawn(out@) =~= expansions(
            body@,
            *widths,
            i as int,
            columns as int,
            rows as int,
            y as int,
            *layout,
            *theme,
        ));
    }
    assert(i == shown);
    assert(0 <= rows * step <= 1_000_000_000 * 20_000_000) by (nonlinear_arith)
        requires
            0 <= rows <= 1_000_000_000,
            0 <= step <= 20_000_000,
    ;
    if let Some(text) = more_text(codes.len(), columns, rows) {
        put_text(
            &mut out,
            layout.content_right(),
            y + rows as i64 * step,
            text.as_str(),
            small(theme.text_dim, Align::Right, theme),
        );
    }
    assert(drawn(out@) =~= glossary_marks(body@, *widths, y as int, *layout, *theme));
    out
}

/// One report, whole, with its abbreviations expanded under it.
pub open spec fn decoded_marks(
    product: Seq<char>,
    item: WeatherText,
    place: int,
    total: int,
    widths: ReportWidths,
    space: int,
    now: u64,
    layout: Layout,
    theme: Theme,
) -> Seq<Painted> {
    let line = line_of(theme);
    let top = layout.status_bar_height + line * 18 / 10;
    let lines = report_lines(widths.entry.words@, space, layout, theme);
    let bottom = top + line + lines * line + line * 4 / 10;
    heading_marks(product, item, widths.entry.heading as int, top, layout, theme) + seq![
        text_at(
            layout.content_x1 - layout.margin,
            top,
            position_of(place, total, (age_at(item.received, now) / SECOND) as nat),
            small_style(theme.text_dim, Align::Right, theme),
        ),
    ] + wrapped_marks(
        item.body@,
        widths.entry.words@,
        space,
        layout.content_x1 - layout.margin - report_left(layout, theme),
        widths.entry.words@.len() as int,
        report_left(layout, theme),
        top + line,
        theme,
    ) + seq![rule_at(layout, theme, bottom)] + glossary_marks(
        item.body@,
        widths,
        bottom + line * 7 / 10,
        layout,
        theme,
    )
}

/// One report with its abbreviations expanded.
///
/// The raw text stays at the top, in full and still coloured by hazard. The expansion is an
/// *addition* underneath it, never a replacement: the report is the authority and the glossary is a
/// reminder of what its codes mean.
pub fn draw_decoded(
    product: &str,
    item: &WeatherText,
    place: usize,
    total: usize,
    widths: &ReportWidths,
    space: i64,
    now: u64,
    layout: &Layout,
    theme: &Theme,
) -> (r: Vec<Mark>)
    requires
        layout.wf(),
        theme.sizes_ok(),
        place < total,
        widths.fits(item.body@),
        0 <= space <= LONGEST_SIDE,
    ensures
        drawn(r@) == decoded_marks(
            product@,
            *item,
            place as int,
            total as int,
            *widths,
            space as int,
            now,
            *layout,
            *theme,
        ),
{
    let line: i64 = line_height(theme);
    let top: i64 = layout.status_bar_height + line * 18 / 10;
    let mut out: Vec<Mark> = draw_heading(product, item, widths.entry.heading, top, layout, theme);
    let text: String = position_text(place, total, age_of(item.received, now));
    put_text(
        &mut out,
        layout.content_right(),
        top,
        text.as_str(),
        small(theme.text_dim, Align::Right, theme),
    );
    let (body, lines) = draw_wrapped(
        item.body.as_str(),
        widths.entry.words.as_slice(),
        space,
        top + line,
        layout,
        theme,
    );
    put_all(&mut out, body);
    assert(0 <= lines * line <= 1_000_000_001 * 20_000_000) by (nonlinear_arith)
        requires
            0 <= lines <= 1_000_000_001,
            0 < line <= 20_000_000,
    ;
    let bottom: i64 = top + line + lines as i64 * line + line * 4 / 10;
    put_rule(&mut out, layout, theme, bottom);
    put_all(
        &mut out,
        draw_expansions(item.body.as_str(), widths, bottom + line * 7 / 10, layout, theme),
    );
    assert(drawn(out@) =~= decoded_marks(
        product@,
        *item,
        place as int,
        total as int,
        *widths,
        space as int,
        now,
        *layout,
        *theme,
    ));
    out
}

/// Whether everything the page needs has been measured.
pub open spec fn page_measured(
    products: Products<'_>,
    view: ViewState,
    widths: PageWidths,
    layout: Layout,
    theme: Theme,
) -> bool {
    let total = products.order@.len() as int;
    let offset = first_shown(view, rows_of(theme, layout), total);
    &&& 0 <= widths.space <= LONGEST_SIDE
    &&& total > 0 && view.weather_decode ==> {
        &&& widths.report is Some
        &&& widths.report->0.fits(
            products.item(inside_list(view.weather_scroll as int, total)).body@,
        )
    }
    &&& total > 0 && !view.weather_decode ==> {
        &&& widths.entries@.len() == entries_shown(total, offset, layout, theme)
        &&& forall|k: int|
            0 <= k < widths.entries@.len() ==> (#[trigger] widths.entries@[k]).fits(
                products.item(offset + k).body@,
            )
    }
}

/// The page.
pub open spec fn page_marks(
    products: Products<'_>,
    view: ViewState,
    widths: PageWidths,
    now: u64,
    layout: Layout,
    theme: Theme,
) -> Seq<Painted> {
    let total = products.order@.len() as int;
    let offset = first_shown(view, rows_of(theme, layout), total);
    let place = inside_list(view.weather_scroll as int, total);
    header_marks(total, offset, products.nexrad, layout, theme) + if total == 0 {
        notice_marks(products.connected, layout, theme)
    } else if view.weather_decode {
        decoded_marks(
            products.name(place),
            products.item(place),
            place,
            total,
            widths.report->0,
            widths.space as int,
            now,
            layout,
            theme,
        )
    } else {
        list_marks(
            products,
            offset,
            widths.entries@,
            widths.space as int,
            widths.entries@.len() as int,
            now,
            layout,
            theme,
        )
    }
}

/// The page: the list, or the report that is open, under a line that says what is held.
pub fn draw(
    products: &Products<'_>,
    view: &ViewState,
    widths: &PageWidths,
    now: u64,
    layout: &Layout,
    theme: &Theme,
) -> (r: Vec<Mark>)
    requires
        products.wf(),
        layout.wf(),
        theme.sizes_ok(),
        page_measured(*products, *view, *widths, *layout, *theme),
    ensures
        drawn(r@) == page_marks(*products, *view, *widths, now, *layout, *theme),
{
    let total: usize = products.order.len();
    let rows: usize = rows_per_page(theme, layout);
    let offset: usize = shown_offset(view, rows, total);
    let mut out: Vec<Mark> = draw_header(total, offset, products.nexrad, layout, theme);
    if let Some(place) = selected(view, total) {
        if view.weather_decode {
            let item: usize = products.order[place];
            if let Some(report) = &widths.report {
                put_all(
                    &mut out,
                    draw_decoded(
                        products.names[item].as_str(),
                        &products.items[item],
                        place,
                        total,
                        report,
                        widths.space,
                        now,
                        layout,
                        theme,
                    ),
                );
            }
        } else {
            put_all(
                &mut out,
                draw_list(
                    products,
                    offset,
                    &widths.entries,
                    widths.space,
                    now,
                    layout,
                    theme,
                ),
            );
        }
    } else {
        put_all(&mut out, draw_empty_notice(products.connected, layout, theme));
    }
    out
}

// --- laws ----------------------------------------------------------------------------------

/// A report that does not fit its line is marked as cut, so that it cannot be mistaken for a short
/// one.
pub proof fn a_clipped_report_says_so(
    body: Seq<char>,
    widths: Seq<i64>,
    space: int,
    y: int,
    layout: Layout,
    theme: Theme,
)
    requires
        words_fitting(
            widths,
            space,
            layout.content_x1 - layout.margin - (layout.content_x0 + layout.margin
                + theme.font_size_small * 12 / 10),
            0,
        ) < widths.len(),
    ensures
        body_marks(body, widths, space, y, layout, theme).last() matches Painted::Text {
            text,
            ..
        } && text == seq![ELLIPSIS],
{
}

/// Codes that there is no room for are counted on the page, never dropped silently.
pub proof fn left_out_codes_are_counted(
    body: Seq<char>,
    widths: ReportWidths,
    y: int,
    layout: Layout,
    theme: Theme,
)
    requires
        ({
            let count = codes_held(body).len() as int;
            let room = rows_under(theme, layout, y);
            shown_of(count, columns_of(count, room), rows_in_column(count, room)) < count
        }),
    ensures
        ({
            let count = codes_held(body).len() as int;
            let room = rows_under(theme, layout, y);
            let shown = shown_of(count, columns_of(count, room), rows_in_column(count, room));
            glossary_marks(body, widths, y, layout, theme).last() matches Painted::Text {
                text,
                ..
            } && text == "+"@ + decimal((count - shown) as nat) + " more"@
        }),
{
}

/// The layout never claims more rows than it has, and always has one to use.
pub proof fn expansions_stay_on_the_panel(count: int, rows_available: int)
    requires
        count >= 0,
        rows_available >= 1,
    ensures
        1 <= rows_in_column(count, rows_available) <= rows_available,
        1 <= columns_of(count, rows_available) <= 2,
{
}

/// Nothing is left out while it could be shown: only when two full columns are not enough.
pub proof fn nothing_is_left_out_needlessly(count: int, rows_available: int)
    requires
        count >= 0,
        rows_available >= 1,
    ensures
        count <= 2 * rows_available ==> rows_in_column(count, rows_available) * columns_of(
            count,
            rows_available,
        ) >= count,
        count > 2 * rows_available ==> rows_in_column(count, rows_available) * columns_of(
            count,
            rows_available,
        ) == 2 * rows_available,
{
}

/// A second column is never nearly empty beside a full one: the two differ by at most one row.
pub proof fn columns_are_balanced(count: int, rows_available: int)
    requires
        rows_available >= 1,
        rows_available < count <= 2 * rows_available,
    ensures
        ({
            let rows = rows_in_column(count, rows_available);
            columns_of(count, rows_available) == 2 && 0 <= rows - (count - rows) <= 1
        }),
{
}

/// A wrapped word either fits in the room or starts a line of its own.
pub proof fn wrapped_words_fit_or_start_a_line(widths: Seq<i64>, space: int, room: int, i: int)
    requires
        0 <= i < widths.len(),
    ensures
        ({
            let (x, line) = wrapped_at(widths, space, room, i);
            x + widths[i] <= room || x == 0
        }),
{
}

/// Wrapped words follow each other: the next starts past this one on the same line, or on the next
/// line.
pub proof fn wrapped_words_do_not_overlap(widths: Seq<i64>, space: int, room: int, i: int)
    requires
        0 <= i,
        i + 1 < widths.len(),
    ensures
        ({
            let (x, line) = wrapped_at(widths, space, room, i);
            let (next_x, next_line) = wrapped_at(widths, space, room, i + 1);
            ||| next_line == line && next_x == x + widths[i] + space
            ||| next_line == line + 1 && next_x == 0
        }),
{
    reveal_with_fuel(wrapped_at, 2);
    reveal_with_fuel(wrap_cursor, 2);
}

/// A text that is cut keeps its beginning and fits.
pub proof fn a_cut_text_fits(text: Seq<char>, width: int, cut_widths: Seq<i64>, room: int)
    requires
        cut_widths.len() == text.len(),
        0 < room < width,
    ensures
        ({
            let n = longest_cut(cut_widths, room, text.len() as int);
            &&& 0 <= n <= text.len()
            &&& n > 0 ==> cut_widths[n - 1] <= room
            &&& forall|k: int| n <= k < text.len() ==> #[trigger] cut_widths[k] > room
        }),
{
    longest_cut_is_longest(cut_widths, room, text.len() as int);
}

proof fn longest_cut_is_longest(cut_widths: Seq<i64>, room: int, k: int)
    requires
        0 <= k <= cut_widths.len(),
    ensures
        ({
            let n = longest_cut(cut_widths, room, k);
            &&& 0 <= n <= k
            &&& n > 0 ==> cut_widths[n - 1] <= room
            &&& forall|m: int| n <= m < k ==> #[trigger] cut_widths[m] > room
        }),
    decreases k,
{
    if k > 0 && cut_widths[k - 1] > room {
        longest_cut_is_longest(cut_widths, room, k - 1);
    }
}

/// METARs come first, then forecasts, then SIGMETs, AIRMETs, pilot reports, winds, notices and the rest,
/// and within one sort they stand by place.
pub proof fn reports_stand_by_sort_and_place(
    order: Seq<usize>,
    items: Seq<WeatherText>,
    count: int,
    k: int,
    m: int,
)
    requires
        in_reading_order(order, items, count),
        0 <= k < m < order.len(),
        count <= items.len(),
    ensures
        ({
            let (a, b) = (items[order[k] as int], items[order[m] as int]);
            &&& b.product == WeatherProduct::Metar ==> a.product == WeatherProduct::Metar
            &&& a.product == WeatherProduct::Other ==> b.product == WeatherProduct::Other
            &&& b.product == WeatherProduct::Taf ==> a.product == WeatherProduct::Metar || a.product
                == WeatherProduct::Taf
            &&& b.product == WeatherProduct::Sigmet ==> a.product == WeatherProduct::Metar
                || a.product == WeatherProduct::Taf || a.product == WeatherProduct::Sigmet
            &&& a.product == b.product ==> !before(b.location@, a.location@)
            &&& a.product == b.product && a.location@ == b.location@ ==> !before(b.body@, a.body@)
            &&& order[k] != order[m]
        }),
{
    let (i, j) = (order[k] as int, order[m] as int);
    assert(listed_before(items, i, j));
    let (a, b) = (items[i], items[j]);
    if before(b.location@, a.location@) {
        before_is_strict(b.location@, a.location@);
    }
    if before(b.body@, a.body@) {
        before_is_strict(b.body@, a.body@);
    }
    if before(a.location@, a.location@) {
        before_is_strict(a.location@, a.location@);
    }
}

/// The order of the sorts.
pub proof fn the_order_of_the_sorts()
    ensures
        priority_of(WeatherProduct::Metar) < priority_of(WeatherProduct::Taf) < priority_of(
            WeatherProduct::Sigmet,
        ) < priority_of(WeatherProduct::Airmet) < priority_of(WeatherProduct::Pirep) < priority_of(
            WeatherProduct::Winds,
        ) < priority_of(WeatherProduct::Notam) < priority_of(WeatherProduct::Other),
{
}

/// An age reads back: seconds below a minute, minutes below an hour, and from there hours and minutes.
pub proof fn ages_read_back(seconds: nat)
    ensures
        ({
            let text = age_text(seconds);
            let n = text.len();
            &&& n >= 2
            &&& seconds < 60 ==> text[n - 1] == 's' && number(text.take(n - 1)) == seconds
            &&& 60 <= seconds < 3600 ==> text[n - 1] == 'm' && number(text.take(n - 1)) == seconds
                / 60
            &&& seconds >= 3600 ==> {
                &&& n >= 5 && text[n - 1] == 'm' && text[n - 4] == 'h'
                &&& 60 * number(text.take(n - 4)) + number(text.subrange(n - 3, n - 1)) == seconds
                    / 60
                &&& number(text.subrange(n - 3, n - 1)) < 60
            }
        }),
{
    reveal_strlit("s");
    reveal_strlit("m");
    reveal_strlit("h");
    let text = age_text(seconds);
    let n = text.len();
    if seconds < 60 {
        decimals_read_back(seconds);
        assert(text.take(n - 1) =~= decimal(seconds));
    } else if seconds < 3600 {
        decimals_read_back(seconds / 60);
        assert(text.take(n - 1) =~= decimal(seconds / 60));
    } else {
        decimals_read_back(seconds / 3600);
        reveal_with_fuel(ten_to, 3);
        padded_reads_back(seconds % 3600 / 60, 2);
        assert(text.take(n - 4) =~= decimal(seconds / 3600));
        assert(text.subrange(n - 3, n - 1) =~= padded(seconds % 3600 / 60, 2));
    }
}

/// A report is amber from half an hour old and red from an hour.
pub proof fn old_reports_turn_amber_then_red(seconds: int, theme: Theme)
    ensures
        seconds < 1800 ==> age_colour_of(seconds, theme) == theme.text_dim,
        1800 <= seconds < 3600 ==> age_colour_of(seconds, theme) == theme.caution,
        3600 <= seconds ==> age_colour_of(seconds, theme) == theme.warning,
{
}

/// An age runs with the clock, and is nothing of what is yet to come.
pub proof fn ages_run_with_the_clock(received: u64, now: u64)
    ensures
        now >= received ==> age_at(received, now) == now - received,
        now < received ==> age_at(received, now) == 0,
{
}

/// The header counts what there is and says how old the radar is, or that there is none; the scroll says
/// from where to where of how many, counted from one.
pub proof fn the_header_counts_what_there_is(
    products: nat,
    blocks: usize,
    age: u64,
    offset: int,
    rows: int,
    total: int,
)
    requires
        0 <= offset < total,
        0 < rows,
    ensures
        header_of(products, None) == "FIS-B TEXT  "@ + decimal(products)
            + " products   |   NEXRAD "@ + "none"@,
        header_of(products, Some((blocks, age))) == "FIS-B TEXT  "@ + decimal(products)
            + " products   |   NEXRAD "@ + (decimal(blocks as nat) + " blocks, "@ + age_text(
            (age / 1_000_000_000) as nat,
        )),
        offset + rows <= total ==> scroll_of(offset, rows, total) == decimal((offset + 1) as nat)
            + "-"@ + decimal((offset + rows) as nat) + " of "@ + decimal(total as nat),
        offset + rows > total ==> scroll_of(offset, rows, total) == decimal((offset + 1) as nat)
            + "-"@ + decimal(total as nat) + " of "@ + decimal(total as nat),
{
}

/// A heading names the product and the place it is of, if it says one.
pub proof fn headings_name_product_and_place(product: Seq<char>, location: Seq<char>)
    ensures
        location.len() == 0 ==> heading_of(product, location) == product,
        location.len() > 0 ==> heading_of(product, location) == product + " "@ + location,
{
}

/// Only METARs carry a category, and it is the one their own text is in, in its own colour, behind the
/// heading.
pub proof fn only_metars_carry_a_category(
    product: Seq<char>,
    item: WeatherText,
    width: int,
    y: int,
    layout: Layout,
    theme: Theme,
)
    ensures
        ({
            let marks = heading_marks(product, item, width, y, layout, theme);
            let category = report_category(item.body@);
            &&& marks[0] is Text && marks[0]->text == heading_of(product, item.location@)
            &&& marks[0]->Text_y == y && marks[0]->Text_x == layout.content_x0 + layout.margin
            &&& item.product != WeatherProduct::Metar ==> marks.len() == 1
            &&& item.product == WeatherProduct::Metar && category is None ==> marks.len() == 1
            &&& item.product == WeatherProduct::Metar && category is Some ==> {
                &&& marks.len() == 2
                &&& marks[1]->text == (category->0).name()
                &&& category == Some(FlightCategory::Vfr) ==> marks[1]->style.colour == theme.good
                &&& category == Some(FlightCategory::Mvfr) ==> marks[1]->style.colour
                    == theme.caution
                &&& category == Some(FlightCategory::Ifr) ==> marks[1]->style.colour
                    == theme.warning
                &&& category == Some(FlightCategory::Lifr) ==> marks[1]->style.colour
                    == theme.warning
                &&& marks[1]->Text_x == marks[0]->Text_x + width + 10_000
                &&& marks[1]->Text_y == y
            }
        }),
{
}

/// Words that are a hazard stand out, red before amber; remarks are dimmed whatever they say, and the rest
/// is plain.
pub proof fn hazards_stand_out(tokens: Seq<Seq<char>>, i: int, theme: Theme)
    requires
        0 <= i < tokens.len(),
    ensures
        i >= remarks_at(tokens, 0) ==> word_colour(tokens, i, theme) == theme.text_dim,
        i < remarks_at(tokens, 0) && hazard_of(tokens[i]) == Hazard::Warning ==> word_colour(
            tokens,
            i,
            theme,
        ) == theme.warning,
        i < remarks_at(tokens, 0) && hazard_of(tokens[i]) == Hazard::Caution ==> word_colour(
            tokens,
            i,
            theme,
        ) == theme.caution,
        i < remarks_at(tokens, 0) && hazard_of(tokens[i]) == Hazard::Routine ==> word_colour(
            tokens,
            i,
            theme,
        ) == theme.text_secondary,
{
}

/// Without a report the page says why.
pub proof fn an_empty_page_says_why(layout: Layout, theme: Theme)
    ensures
        notice_marks(true, layout, theme)[0]->text == "NO WEATHER RECEIVED YET"@,
        notice_marks(true, layout, theme)[1]->text == "FIS-B products arrive over several minutes"@,
        notice_marks(false, layout, theme)[0]->text == "WEATHER STREAM OFFLINE"@,
        notice_marks(false, layout, theme)[1]->text == "retrying"@,
        notice_marks(true, layout, theme)[0]->Text_y < notice_marks(true, layout, theme)[1]->Text_y,
{
}

/// As many rows as fit stand between the header and the footer, each of two lines, and never less than
/// one.
pub proof fn as_many_rows_as_fit(theme: Theme, layout: Layout)
    requires
        theme.font_size_small >= 1_000,
    ensures
        ({
            let body = layout.height - layout.status_bar_height - layout.footer_height - line_of(
                theme,
            );
            let rows = rows_of(theme, layout);
            &&& rows >= 1
            &&& rows > 1 ==> rows * (2 * line_of(theme)) <= body
            &&& body < (rows + 1) * (2 * line_of(theme))
            &&& 135 * theme.font_size_small - 100 < 100 * line_of(theme) <= 135
                * theme.font_size_small
        }),
{
    let body = layout.height - layout.status_bar_height - layout.footer_height - line_of(theme);
    let d = 2 * line_of(theme);
    if body >= d {
        vstd::arithmetic::div_mod::lemma_fundamental_div_mod(body, d);
        vstd::arithmetic::div_mod::lemma_mod_bound(body, d);
        let q = body / d;
        assert(q >= 1) by (nonlinear_arith)
            requires
                body >= d,
                d > 0,
                q == body / d,
        ;
        assert(q * d == d * q && (q + 1) * d == q * d + d) by (nonlinear_arith);
    } else {
        assert((1 + 1) * d == 2 * d);
    }
}

/// An entry is two lines: what it is, with its age at the right-hand end, over what it says.
pub proof fn entries_are_two_lines(
    product: Seq<char>,
    item: WeatherText,
    widths: EntryWidths,
    space: int,
    middle: int,
    now: u64,
    layout: Layout,
    theme: Theme,
)
    requires
        theme.font_size_small >= 1_000,
        now >= item.received,
    ensures
        ({
            let marks = entry_marks(product, item, widths, space, middle, now, layout, theme);
            let head = heading_marks(
                product,
                item,
                widths.heading as int,
                middle - line_of(theme) / 2,
                layout,
                theme,
            );
            let n = head.len() as int;
            let seconds = (now - item.received) / 1_000_000_000;
            &&& marks.take(n) == head
            &&& marks[n] is Text && marks[n]->text == age_text(seconds as nat)
            &&& marks[n]->Text_x == layout.content_x1 - layout.margin
            &&& marks[n]->style.align == Align::Right
            &&& marks[n]->Text_y < middle
            &&& seconds >= 3600 ==> marks[n]->style.colour == theme.warning
            &&& marks.skip(n + 1) == body_marks(
                item.body@,
                widths.words@,
                space,
                middle + line_of(theme) / 2,
                layout,
                theme,
            )
        }),
{
    let marks = entry_marks(product, item, widths, space, middle, now, layout, theme);
    let head = heading_marks(
        product,
        item,
        widths.heading as int,
        middle - line_of(theme) / 2,
        layout,
        theme,
    );
    let n = head.len() as int;
    let said = body_marks(
        item.body@,
        widths.words@,
        space,
        middle + line_of(theme) / 2,
        layout,
        theme,
    );
    assert(marks.take(n) =~= head);
    assert(marks.skip(n + 1) =~= said);
}

/// The words of a report stand in their own order on its line, each clear of the one before it.
pub proof fn words_stand_in_their_order(
    body: Seq<char>,
    widths: Seq<i64>,
    space: int,
    n: int,
    i: int,
    x: int,
    y: int,
    theme: Theme,
)
    requires
        0 <= i < n <= widths.len(),
    ensures
        ({
            let marks = line_marks(body, widths, space, n, x, y, theme);
            &&& marks.len() == n
            &&& marks[i]->text == words(body)[i]
            &&& marks[i]->Text_y == y
            &&& i == 0 ==> marks[i]->Text_x == x
            &&& i > 0 ==> marks[i]->Text_x == marks[i - 1]->Text_x + widths[i - 1] + space
            &&& marks[i]->style.colour == word_colour(words(body), i, theme)
        }),
{
}

/// The list shows its entries from the first one on screen, one row each, in the order they are read.
pub proof fn the_list_shows_a_row_each(
    products: Products<'_>,
    offset: int,
    widths: Seq<EntryWidths>,
    space: int,
    n: int,
    now: u64,
    layout: Layout,
    theme: Theme,
)
    requires
        n > 0,
    ensures
        ({
            let before = list_marks(products, offset, widths, space, n - 1, now, layout, theme);
            let all = list_marks(products, offset, widths, space, n, now, layout, theme);
            &&& all.take(before.len() as int) == before
            &&& all.skip(before.len() as int) == entry_marks(
                products.name(offset + n - 1),
                products.items@[products.order@[offset + n - 1] as int],
                widths[n - 1],
                space,
                row_top(theme, layout, n - 1) + line_of(theme),
                now,
                layout,
                theme,
            )
        }),
{
    let before = list_marks(products, offset, widths, space, n - 1, now, layout, theme);
    let all = list_marks(products, offset, widths, space, n, now, layout, theme);
    let one = entry_marks(
        products.name(offset + n - 1),
        products.item(offset + n - 1),
        widths[n - 1],
        space,
        row_top(theme, layout, n - 1) + line_of(theme),
        now,
        layout,
        theme,
    );
    assert(all.take(before.len() as int) =~= before);
    assert(all.skip(before.len() as int) =~= one);
}

/// The page is one of three: a notice where there is nothing, the open report, or the list.
pub proof fn the_page_is_one_of_three(
    products: Products<'_>,
    view: ViewState,
    widths: PageWidths,
    now: u64,
    layout: Layout,
    theme: Theme,
)
    ensures
        ({
            let total = products.order@.len() as int;
            let rows = rows_of(theme, layout);
            let offset = first_shown(view, rows, total);
            let page = page_marks(products, view, widths, now, layout, theme);
            let header = header_marks(total, offset, products.nexrad, layout, theme);
            let rest = page.skip(header.len() as int);
            &&& page.take(header.len() as int) == header
            &&& header[0]->text == header_of(total as nat, products.nexrad)
            &&& total > rows ==> header[1]->text == scroll_of(offset, rows, total)
            &&& total <= rows ==> header.len() == 2
            &&& total == 0 ==> rest == notice_marks(products.connected, layout, theme)
            &&& total > 0 && view.weather_decode && view.weather_scroll < total ==> rest
                == decoded_marks(
                products.name(view.weather_scroll as int),
                products.item(view.weather_scroll as int),
                view.weather_scroll as int,
                total,
                widths.report->0,
                widths.space as int,
                now,
                layout,
                theme,
            )
            &&& total > 0 && !view.weather_decode ==> rest == list_marks(
                products,
                offset,
                widths.entries@,
                widths.space as int,
                widths.entries@.len() as int,
                now,
                layout,
                theme,
            )
        }),
{
    let total = products.order@.len() as int;
    let offset = first_shown(view, rows_of(theme, layout), total);
    let page = page_marks(products, view, widths, now, layout, theme);
    let header = header_marks(total, offset, products.nexrad, layout, theme);
    let place = inside_list(view.weather_scroll as int, total);
    assert(page.take(header.len() as int) =~= header);
    if total == 0 {
        assert(page.skip(header.len() as int) =~= notice_marks(products.connected, layout, theme));
    } else if view.weather_decode {
        assert(page.skip(header.len() as int) =~= decoded_marks(
            products.name(place),
            products.item(place),
            place,
            total,
            widths.report->0,
            widths.space as int,
            now,
            layout,
            theme,
        ));
    } else {
        assert(page.skip(header.len() as int) =~= list_marks(
            products,
            offset,
            widths.entries@,
            widths.space as int,
            widths.entries@.len() as int,
            now,
            layout,
            theme,
        ));
    }
}

/// Each code stands with its own meaning beside it, down the first column and then the second, in the
/// colour of what it warns of.
pub proof fn codes_stand_with_their_meanings(
    body: Seq<char>,
    widths: ReportWidths,
    i: int,
    columns: int,
    rows: int,
    y: int,
    layout: Layout,
    theme: Theme,
)
    requires
        0 <= i < codes_held(body).len(),
        0 < rows,
    ensures
        ({
            let marks = expansion_marks(body, widths, i, columns, rows, y, layout, theme);
            let code = codes_held(body)[i];
            let left = layout.content_x0 + layout.margin;
            &&& marks.len() == 2
            &&& marks[0]->text == code
            &&& marks[0]->Text_y == marks[1]->Text_y
            &&& marks[0]->Text_y == y + i % rows * expansion_line(theme)
            &&& i < rows ==> marks[0]->Text_x == left
            &&& rows <= i < 2 * rows ==> marks[0]->Text_x == left + column_width(layout, columns)
            &&& hazard_of(code) == Hazard::Warning ==> marks[0]->style.colour == theme.warning
            &&& hazard_of(code) == Hazard::Caution ==> marks[0]->style.colour == theme.caution
            &&& hazard_of(code) == Hazard::Routine ==> marks[0]->style.colour == theme.text_primary
            &&& widths.meanings@[i].whole <= 0 ==> marks[1]->text == meaning_of(code)->0
        }),
{
    assert(i < rows ==> i / rows == 0) by (nonlinear_arith)
        requires
            0 <= i,
            0 < rows,
    ;
    assert(rows <= i < 2 * rows ==> i / rows == 1) by (nonlinear_arith)
        requires
            0 <= i,
            0 < rows,
    ;
    let column = column_width(layout, columns);
    assert(0 * column == 0 && 1 * column == column);
}

/// A text that fits is written whole, and one that does not is cut as little as it can be and says so.
pub proof fn texts_are_cut_as_little_as_they_can(
    text: Seq<char>,
    width: int,
    cut_widths: Seq<i64>,
    room: int,
    k: int,
)
    requires
        cut_widths.len() == text.len(),
        0 < room,
    ensures
        width <= room ==> fitted(text, width, cut_widths, room) == text,
        width > room && 0 < k <= text.len() && cut_widths[k - 1] <= room ==> fitted(
            text,
            width,
            cut_widths,
            room,
        ).len() > k,
        width > room && fitted(text, width, cut_widths, room).len() > 0 ==> fitted(
            text,
            width,
            cut_widths,
            room,
        ).last() == '\u{2026}',
{
    the_longest_cut_is_longest(cut_widths, room, text.len() as int, k);
}

proof fn the_longest_cut_is_longest(cut_widths: Seq<i64>, room: int, end: int, k: int)
    requires
        0 <= end <= cut_widths.len(),
    ensures
        0 <= longest_cut(cut_widths, room, end) <= end,
        0 < k <= end && cut_widths[k - 1] <= room ==> longest_cut(cut_widths, room, end) >= k,
    decreases end,
{
    if end > 0 {
        the_longest_cut_is_longest(cut_widths, room, end - 1, k);
    }
}

} // verus!
