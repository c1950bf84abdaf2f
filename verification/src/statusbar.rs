//! The top status bar: is the system actually working?
//!
//! Everything here answers a question the pilot would otherwise have to guess at. In particular the
//! per-radio message rates matter more than they look: a 978 MHz receiver that has quietly died
//! shows up as plausible-but-thin traffic, not as an error, and the only visible symptom is that
//! its message count sits at zero.
//!
//! There is deliberately **no bus voltage** here: no sensor reports one, so displaying a number
//! would mean inventing it.

use vstd::prelude::*;

use crate::domain::SECOND;
use crate::layout::{Layout, LONGEST_SIDE};
use crate::marks::{
    block, drawn, nothing, put_fill, put_line, put_text, stroke, text_at, Align, Baseline, Painted,
    Mark, Style,
};
use crate::metar::DEGREE;
use crate::text::{decimal, push_decimal, push_rounded, rounded, texts};
use crate::theme::{Color, Theme};
use crate::view::FrameStats;
use crate::weatherpage::{age_text, format_age};

verus! {

/// What the receiver says about itself.
#[derive(Debug, Clone, Copy, PartialEq, Eq, Structural)]
pub struct Health {
    /// Whether the position fix is one to navigate by.
    pub fix_usable: bool,
    pub satellites: u32,
    /// Messages in the last minute, on 1090 and on 978 MHz.
    pub es_rate: u32,
    pub uat_rate: u32,
    /// Whether all of this is recent enough to believe.
    pub fresh: bool,
    /// Thousandths of a degree; not positive when unknown.
    pub cpu_temp_mc: i64,
    /// Age of the newest radar, if any is held.
    pub nexrad_age: Option<u64>,
}

/// One field of the bar: its label, its value, and the colour of the value.
#[derive(Debug)]
pub struct Field {
    pub label: &'static str,
    pub value: String,
    pub colour: Color,
}

/// Whether a field says this.
pub open spec fn says(field: Field, label: Seq<char>, value: Seq<char>, colour: Color) -> bool {
    field.label@ == label && field.value@ == value && field.colour == colour
}

/// What the GPS field says: the kind of fix, and how many satellites a usable one has.
pub open spec fn gps_text(fix: Seq<char>, health: Health) -> Seq<char> {
    if health.fix_usable {
        fix + "/"@ + decimal(health.satellites as nat)
    } else {
        fix
    }
}

fn gps_value(fix: &str, health: &Health) -> (r: String)
    ensures
        r@ == gps_text(fix@, *health),
{
    let mut out: String = String::new();
    out.append(fix);
    if health.fix_usable {
        out.append("/");
        push_decimal(&mut out, health.satellites as u64);
    }
    assert(out@ =~= gps_text(fix@, *health));
    out
}

/// What a radio field says: its rate, a question mark when that is not to be believed.
pub open spec fn rate_of(rate: nat, fresh: bool) -> Seq<char> {
    if fresh {
        decimal(rate) + "/m"@
    } else {
        "?"@
    }
}

pub fn rate_text(rate: u32, fresh: bool) -> (r: String)
    ensures
        r@ == rate_of(rate as nat, fresh),
{
    let mut out: String = String::new();
    if fresh {
        push_decimal(&mut out, rate as u64);
        out.append("/m");
    } else {
        out.append("?");
    }
    assert(out@ =~= rate_of(rate as nat, fresh));
    out
}

/// The colour of a radio field.
pub open spec fn radio_colour_of(rate: int, fresh: bool, theme: Theme) -> Color {
    if !fresh {
        theme.text_dim
    } else if rate == 0 {
        theme.warning
    } else {
        theme.good
    }
}

/// The colour of a radio field. Airborne with a working antenna a rate is essentially never zero,
/// so that is a fault rather than quiet airspace.
pub fn radio_colour(rate: u32, fresh: bool, theme: &Theme) -> (r: Color)
    ensures
        r == radio_colour_of(rate as int, fresh, *theme),
{
    if !fresh {
        theme.text_dim
    } else if rate == 0 {
        theme.warning
    } else {
        theme.good
    }
}

/// A count of targets that are not drawn, and why; nothing for none.
pub open spec fn held_back(count: nat, why: Seq<char>) -> Seq<char> {
    if count > 0 {
        " +"@ + decimal(count) + why
    } else {
        seq![]
    }
}

fn push_held_back(out: &mut String, count: usize, why: &str)
    ensures
        final(out)@ == old(out)@ + held_back(count as nat, why@),
{
    if count > 0 {
        out.append(" +");
        push_decimal(out, count as u64);
        out.append(why);
    }
    assert(out@ =~= old(out)@ + held_back(count as nat, why@));
}

/// What the traffic field says: how many targets are drawn, and how many are not and why.
pub open spec fn traffic_of(stats: FrameStats) -> Seq<char> {
    decimal(stats.targets_drawn as nat) + held_back(
        stats.targets_outside_range as nat,
        " out"@,
    ) + held_back(stats.targets_outside_altitude as nat, " alt"@) + held_back(
        stats.targets_no_position as nat,
        " nopos"@,
    ) + held_back(stats.targets_unplotted as nat, " held"@)
}

/// What the traffic field says.
///
/// Culled targets are named, not lost: without them the pilot cannot tell a quiet sky from a small
/// range ring. Those hidden by the vertical filter are kept apart, because a different key undoes
/// that. And targets held back for want of an own-ship position are not absent: a zero next to a
/// working receiver would send someone looking for an antenna fault when the GPS has failed.
pub fn traffic_text(stats: &FrameStats) -> (r: String)
    ensures
        r@ == traffic_of(*stats),
{
    let mut out: String = String::new();
    push_decimal(&mut out, stats.targets_drawn as u64);
    assert(out@ =~= decimal(stats.targets_drawn as nat));
    push_held_back(&mut out, stats.targets_outside_range, " out");
    push_held_back(&mut out, stats.targets_outside_altitude, " alt");
    push_held_back(&mut out, stats.targets_no_position, " nopos");
    push_held_back(&mut out, stats.targets_unplotted, " held");
    out
}

/// The colour of the traffic field.
pub open spec fn traffic_colour_of(stats: FrameStats, theme: Theme) -> Color {
    if stats.alerts > 0 {
        theme.warning
    } else if stats.advisories > 0 {
        theme.caution
    } else {
        theme.text_primary
    }
}

/// The colour of the processor's temperature. It throttles at 80 degrees, which shows up as a
/// dropped frame rate long before anything else complains.
pub open spec fn temp_colour_of(mc: int, theme: Theme) -> Color {
    if mc >= 78_000 {
        theme.warning
    } else if mc >= 70_000 {
        theme.caution
    } else {
        theme.text_secondary
    }
}

/// The colour of the radar's age. Products cycle roughly every five minutes: an age climbing past
/// that means reception has stopped, and the precipitation on screen is history.
pub open spec fn radar_colour_of(seconds: int, theme: Theme) -> Color {
    if seconds >= 600 {
        theme.warning
    } else if seconds >= 300 {
        theme.caution
    } else {
        theme.text_secondary
    }
}

/// How many fields the bar has.
pub open spec fn field_count(health: Health) -> nat {
    4 + (if health.fresh && health.cpu_temp_mc > 0 {
        1nat
    } else {
        0nat
    }) + if health.nexrad_age is Some {
        1nat
    } else {
        0nat
    }
}

/// The fields of the bar, left to right. `fix` names the kind of position fix.
pub fn fields(fix: &str, health: &Health, stats: &FrameStats, theme: &Theme) -> (r: Vec<Field>)
    ensures
        r@.len() == field_count(*health),
        says(
            r@[0],
            "GPS"@,
            gps_text(fix@, *health),
            if health.fix_usable {
                theme.good
            } else {
                theme.warning
            },
        ),
        says(
            r@[1],
            "1090"@,
            rate_of(health.es_rate as nat, health.fresh),
            radio_colour_of(health.es_rate as int, health.fresh, *theme),
        ),
        says(
            r@[2],
            "978"@,
            rate_of(health.uat_rate as nat, health.fresh),
            radio_colour_of(health.uat_rate as int, health.fresh, *theme),
        ),
        says(r@[3], "TFC"@, traffic_of(*stats), traffic_colour_of(*stats, *theme)),
        health.fresh && health.cpu_temp_mc > 0 ==> says(
            r@[4],
            "CPU"@,
            rounded(health.cpu_temp_mc as int, 1000) + seq![DEGREE] + "C"@,
            temp_colour_of(health.cpu_temp_mc as int, *theme),
        ),
        health.nexrad_age matches Some(age) ==> says(
            r@.last(),
            "WX"@,
            age_text((age / SECOND) as nat),
            radar_colour_of((age / SECOND) as int, *theme),
        ),
{
    let mut out: Vec<Field> = Vec::new();
    out.push(
        Field {
            label: "GPS",
            value: gps_value(fix, health),
            colour: if health.fix_usable {
                theme.good
            } else {
                theme.warning
            },
        },
    );
    // Rates, not just a tick: "connected but hearing nothing" is the failure that matters, and it
    // looks identical to "connected and working" unless the count is on screen.
    out.push(
        Field {
            label: "1090",
            value: rate_text(health.es_rate, health.fresh),
            colour: radio_colour(health.es_rate, health.fresh, theme),
        },
    );
    out.push(
        Field {
            label: "978",
            value: rate_text(health.uat_rate, health.fresh),
            colour: radio_colour(health.uat_rate, health.fresh, theme),
        },
    );
    out.push(
        Field {
            label: "TFC",
            value: traffic_text(stats),
            colour: if stats.alerts > 0 {
                theme.warning
            } else if stats.advisories > 0 {
                theme.caution
            } else {
                theme.text_primary
            },
        },
    );
    if health.fresh && health.cpu_temp_mc > 0 {
        let mut value: String = String::new();
        push_rounded(&mut value, health.cpu_temp_mc, 1000);
        value.push(DEGREE);
        value.append("C");
        assert(value@ =~= rounded(health.cpu_temp_mc as int, 1000) + seq![DEGREE] + "C"@);
        let colour: Color = if health.cpu_temp_mc >= 78_000 {
            theme.warning
        } else if health.cpu_temp_mc >= 70_000 {
            theme.caution
        } else {
            theme.text_secondary
        };
        out.push(Field { label: "CPU", value, colour });
    }
    match health.nexrad_age {
        Some(age) => {
            let minutes: u64 = age / SECOND / 60;
            let colour: Color = if minutes >= 10 {
                theme.warning
            } else if minutes >= 5 {
                theme.caution
            } else {
                theme.text_secondary
            };
            out.push(Field { label: "WX", value: format_age(age), colour });
        },
        None => {},
    }
    out
}

// --- what is currently wrong ---------------------------------------------------------------

/// What decides which alarms are up.
#[derive(Debug, Clone, Copy, PartialEq, Eq, Structural)]
pub struct Faults {
    /// Own-ship has gone quiet.
    pub position_stale: bool,
    pub ever_had_position: bool,
    /// Own-ship has an altitude to compare by.
    pub has_altitude: bool,
    pub decode_errors: u64,
}

/// One alarm.
#[derive(Debug)]
pub struct Alarm {
    pub text: String,
    pub severe: bool,
}

/// Whether an alarm says this.
pub open spec fn warns(alarm: Alarm, text: Seq<char>, severe: bool) -> bool {
    alarm.text@ == text && alarm.severe == severe
}

/// Names with commas between them.
pub open spec fn with_commas(names: Seq<Seq<char>>) -> Seq<char>
    decreases names.len(),
{
    if names.len() == 0 {
        seq![]
    } else if names.len() == 1 {
        names[0]
    } else {
        with_commas(names.drop_last()) + ","@ + names.last()
    }
}

/// What an alarm is: what it says, and whether it is severe.
pub open spec fn alarm_list(
    down: Seq<Seq<char>>,
    streams: nat,
    faults: Faults,
) -> Seq<(Seq<char>, bool)> {
    let connection = if down.len() == streams {
        seq![("STRATUX OFFLINE"@, true)]
    } else if down.len() > 0 {
        seq![("NO "@ + with_commas(down), false)]
    } else {
        seq![]
    };
    let position = if faults.position_stale && faults.ever_had_position {
        seq![("POSITION STALE"@, true)]
    } else {
        seq![]
    };
    let altitude = if faults.has_altitude {
        seq![]
    } else {
        seq![("NO ALT REF"@, false)]
    };
    let decoding = if faults.decode_errors > 0 {
        seq![(decimal(faults.decode_errors as nat) + " DECODE ERR"@, false)]
    } else {
        seq![]
    };
    connection + position + altitude + decoding
}

/// Whether a list of alarms says this.
pub open spec fn alarms_say(list: Seq<Alarm>, what: Seq<(Seq<char>, bool)>) -> bool {
    &&& list.len() == what.len()
    &&& forall|i: int|
        0 <= i < list.len() ==> warns(#[trigger] list[i], what[i].0, what[i].1)
}

fn joined_names(names: &[&str]) -> (r: String)
    ensures
        r@ == with_commas(texts(names@)),
{
    let mut out: String = String::new();
    let ghost all = texts(names@);
    let mut i: usize = 0;
    assert(all.take(0) =~= seq![]);
    assert(out@ =~= with_commas(all.take(0)));
    while i < names.len()
        invariant
            i <= names.len(),
            all == texts(names@),
            out@ == with_commas(all.take(i as int)),
        decreases names.len() - i,
    {
        proof {
            assert(all.take(i + 1).drop_last() =~= all.take(i as int));
            assert(all.take(i + 1).last() == names@[i as int]@);
        }
        if i > 0 {
            out.append(",");
        }
        out.append(names[i]);
        assert(out@ =~= with_commas(all.take(i + 1)));
        i = i + 1;
    }
    assert(all.take(i as int) =~= all);
    out
}

fn alarm(text: &str, severe: bool) -> (r: Alarm)
    ensures
        warns(r, text@, severe),
{
    let mut out: String = String::new();
    out.append(text);
    assert(out@ =~= text@);
    Alarm { text: out, severe }
}

/// The current problems, most pressing first. Empty when all is well: a status bar that always
/// shows something to worry about trains the pilot to stop reading it.
///
/// `down` names the streams that are not connected, of `streams` there are.
pub fn alarms(down: &[&str], streams: usize, faults: &Faults) -> (r: Vec<Alarm>)
    ensures
        alarms_say(r@, alarm_list(texts(down@), streams as nat, *faults)),
{
    let mut out: Vec<Alarm> = Vec::new();
    if down.len() == streams {
        out.push(alarm("STRATUX OFFLINE", true));
    } else if down.len() > 0 {
        let mut text: String = String::new();
        text.append("NO ");
        text.append(joined_names(down).as_str());
        assert(text@ =~= "NO "@ + with_commas(texts(down@)));
        out.push(Alarm { text, severe: false });
    }
    // Own-ship at 10 Hz going quiet for seconds is a real fault; weather being quiet is not.
    if faults.position_stale && faults.ever_had_position {
        out.push(alarm("POSITION STALE", true));
    }
    if !faults.has_altitude {
        // Relative altitudes read "---" and threat tiers cannot escalate to alert; say so rather
        // than letting the blank tags look like a rendering glitch.
        out.push(alarm("NO ALT REF", false));
    }
    if faults.decode_errors > 0 {
        let mut text: String = String::new();
        push_decimal(&mut text, faults.decode_errors);
        text.append(" DECODE ERR");
        assert(text@ =~= decimal(faults.decode_errors as nat) + " DECODE ERR"@);
        out.push(Alarm { text, severe: false });
    }
    out
}

/// The right edge of an alarm, those before it to its right.
pub open spec fn alarm_right(right: int, widths: Seq<i64>, i: int) -> int
    decreases i,
{
    if i <= 0 {
        right
    } else {
        alarm_right(right, widths, i - 1) - (widths[i - 1] + 12_000)
    }
}

/// Whether an alarm keeps clear of the fields on the left.
pub open spec fn alarm_fits(left_end: int, right: int, widths: Seq<i64>, i: int) -> bool {
    alarm_right(right, widths, i) - widths[i] >= left_end + 14_000
}

/// Where the alarms go: the right edge of each, up to the first there is no room for.
///
/// `left_end` is where the fields on the left actually ended, which is the only honest limit for the
/// alarms to stop at.
pub fn place_alarms(left_end: i64, right: i64, widths: &[i64]) -> (r: Vec<i64>)
    requires
        -LONGEST_SIDE <= left_end <= 1_000 * LONGEST_SIDE,
        -LONGEST_SIDE <= right <= LONGEST_SIDE,
        forall|i: int| 0 <= i < widths@.len() ==> 0 <= #[trigger] widths@[i] <= LONGEST_SIDE,
    ensures
        r@.len() <= widths@.len(),
        forall|i: int|
            0 <= i < r@.len() ==> #[trigger] r@[i] == alarm_right(right as int, widths@, i)
                && alarm_fits(left_end as int, right as int, widths@, i),
        r@.len() < widths@.len() ==> !alarm_fits(
            left_end as int,
            right as int,
            widths@,
            r@.len() as int,
        ),
{
    let mut out: Vec<i64> = Vec::new();
    let mut x: i64 = right;
    let mut i: usize = 0;
    while i < widths.len()
        invariant
            i <= widths.len(),
            -LONGEST_SIDE <= left_end <= 1_000 * LONGEST_SIDE,
            -LONGEST_SIDE <= right <= LONGEST_SIDE,
            forall|k: int| 0 <= k < widths@.len() ==> 0 <= #[trigger] widths@[k] <= LONGEST_SIDE,
            out@.len() == i,
            x == alarm_right(right as int, widths@, i as int),
            -2 * LONGEST_SIDE <= x <= LONGEST_SIDE,
            forall|k: int|
                0 <= k < i ==> #[trigger] out@[k] == alarm_right(right as int, widths@, k)
                    && alarm_fits(left_end as int, right as int, widths@, k),
        decreases widths.len() - i,
    {
        let width: i64 = widths[i];
        assert(0 <= widths@[i as int] <= LONGEST_SIDE);
        if x - width < left_end + 14_000 {
            return out;
        }
        out.push(x);
        x = x - (width + 12_000);
        i = i + 1;
    }
    assert(i == widths@.len());
    assert forall|k: int| 0 <= k < out@.len() implies #[trigger] out@[k] == alarm_right(
        right as int,
        widths@,
        k,
    ) && alarm_fits(left_end as int, right as int, widths@, k) by {}
    out
}

/// Where the next field starts, given where this one does and how wide its two parts are.
pub fn next_field(x: i64, label_width: i64, value_width: i64) -> (r: i64)
    requires
        -LONGEST_SIDE <= x <= 1_000 * LONGEST_SIDE,
        0 <= label_width <= LONGEST_SIDE,
        0 <= value_width <= LONGEST_SIDE,
    ensures
        r == x + label_width + 4_000 + value_width + 14_000,
{
    x + label_width + 4_000 + value_width + 14_000
}

// --- the picture ---------------------------------------------------------------------------

/// How text in the bar is written.
pub open spec fn bar_style(colour: Color, size: int, align: Align) -> Style {
    Style { colour, size: size as i64, align, baseline: Baseline::Middle }
}

/// A bar across the panel, and the rule along its inner edge.
pub open spec fn bar_marks(layout: Layout, theme: Theme, top: int, height: int, edge: int) -> Seq<
    Painted,
> {
    seq![
        block(0, top, layout.width as int, height, theme.bar_background),
        stroke((0, edge), (layout.width as int, edge), theme.text_dim, 1_000),
    ]
}

/// A bar across the panel, and the rule along its inner edge.
pub fn draw_bar(layout: &Layout, theme: &Theme, top: i64, height: i64, edge: i64) -> (r: Vec<Mark>)
    ensures
        drawn(r@) == bar_marks(*layout, *theme, top as int, height as int, edge as int),
{
    let mut out: Vec<Mark> = nothing();
    put_fill(&mut out, 0, top, layout.width, height, theme.bar_background);
    put_line(&mut out, (0, edge), (layout.width, edge), theme.text_dim, 1_000);
    assert(drawn(out@) =~= bar_marks(*layout, *theme, top as int, height as int, edge as int));
    out
}

/// Where field `k` starts, given how wide the two parts of each field before it are.
pub open spec fn field_left(margin: int, widths: Seq<(i64, i64)>, k: int) -> int
    decreases k,
{
    if k <= 0 {
        margin
    } else {
        field_left(margin, widths, k - 1) + widths[k - 1].0 + 4_000 + widths[k - 1].1 + 14_000
    }
}

/// The first `n` fields, left to right.
pub open spec fn field_marks(
    list: Seq<Field>,
    widths: Seq<(i64, i64)>,
    n: int,
    layout: Layout,
    theme: Theme,
) -> Seq<Painted>
    decreases n,
{
    if n <= 0 {
        seq![]
    } else {
        let x = field_left(layout.margin as int, widths, n - 1);
        let y = layout.status_bar_height as int / 2;
        field_marks(list, widths, n - 1, layout, theme) + seq![
            text_at(
                x,
                y,
                list[n - 1].label@,
                bar_style(theme.text_dim, theme.font_size_small * 88 / 100, Align::Left),
            ),
            text_at(
                x + widths[n - 1].0 + 4_000,
                y,
                list[n - 1].value@,
                bar_style(list[n - 1].colour, theme.font_size_small as int, Align::Left),
            ),
        ]
    }
}

/// How many alarms, counted from `k`, there is room for.
pub open spec fn alarms_fitting(left_end: int, right: int, widths: Seq<i64>, k: int) -> int
    decreases widths.len() - k,
{
    if k >= widths.len() || !alarm_fits(left_end, right, widths, k) {
        k
    } else {
        alarms_fitting(left_end, right, widths, k + 1)
    }
}

proof fn fitting_alarms_counted(left_end: int, right: int, widths: Seq<i64>, k: int, n: int)
    requires
        0 <= k <= n <= widths.len(),
        forall|i: int| k <= i < n ==> alarm_fits(left_end, right, widths, i),
        n < widths.len() ==> !alarm_fits(left_end, right, widths, n),
    ensures
        alarms_fitting(left_end, right, widths, k) == n,
    decreases n - k,
{
    if k < n {
        fitting_alarms_counted(left_end, right, widths, k + 1, n);
    }
}

/// The first `n` alarms, right to left.
pub open spec fn alarm_marks(
    list: Seq<Alarm>,
    widths: Seq<i64>,
    n: int,
    layout: Layout,
    theme: Theme,
) -> Seq<Painted> {
    Seq::new(
        n as nat,
        |i: int|
            text_at(
                alarm_right(layout.width - layout.margin, widths, i),
                layout.status_bar_height as int / 2,
                list[i].text@,
                bar_style(
                    if list[i].severe {
                        theme.warning
                    } else {
                        theme.caution
                    },
                    theme.font_size_small as int,
                    Align::Right,
                ),
            ),
    )
}

/// The bar: the fields from the left, and whatever is wrong from the right as far as the fields
/// leave room. `widths` is how wide the label and the value of each field are, and `alarm_widths`
/// how wide each alarm is.
pub fn draw(
    list: &[Field],
    widths: &[(i64, i64)],
    alarms: &[Alarm],
    alarm_widths: &[i64],
    layout: &Layout,
    theme: &Theme,
) -> (r: Vec<Mark>)
    requires
        layout.wf(),
        theme.sizes_ok(),
        widths@.len() == list@.len(),
        list@.len() <= 100,
        forall|i: int|
            0 <= i < widths@.len() ==> 0 <= (#[trigger] widths@[i]).0 <= LONGEST_SIDE && 0
                <= widths@[i].1 <= LONGEST_SIDE,
        alarm_widths@.len() == alarms@.len(),
        forall|i: int|
            0 <= i < alarm_widths@.len() ==> 0 <= #[trigger] alarm_widths@[i] <= LONGEST_SIDE,
    ensures
        drawn(r@) == bar_marks(
            *layout,
            *theme,
            0,
            layout.status_bar_height as int,
            layout.status_bar_height as int,
        ) + field_marks(list@, widths@, list@.len() as int, *layout, *theme) + alarm_marks(
            alarms@,
            alarm_widths@,
            alarms_fitting(
                field_left(layout.margin as int, widths@, list@.len() as int),
                layout.width - layout.margin,
                alarm_widths@,
                0,
            ),
            *layout,
            *theme,
        ),
{
    let mut out: Vec<Mark> = draw_bar(
        layout,
        theme,
        0,
        layout.status_bar_height,
        layout.status_bar_height,
    );
    let ghost bar = drawn(out@);
    let y: i64 = layout.status_bar_height / 2;
    let mut x: i64 = layout.margin;
    let mut i: usize = 0;
    assert(drawn(out@) =~= bar + field_marks(list@, widths@, 0, *layout, *theme));
    while i < list.len()
        invariant
            i <= list.len(),
            list@.len() <= 100,
            widths@.len() == list@.len(),
            theme.sizes_ok(),
            y == layout.status_bar_height as int / 2,
            forall|i: int|
                0 <= i < widths@.len() ==> 0 <= (#[trigger] widths@[i]).0 <= LONGEST_SIDE && 0
                    <= widths@[i].1 <= LONGEST_SIDE,
            x == field_left(layout.margin as int, widths@, i as int),
            0 <= x <= layout.margin + i * 2_000_018_000,
            0 <= layout.margin <= 8_000,
            drawn(out@) == bar + field_marks(list@, widths@, i as int, *layout, *theme),
        decreases list.len() - i,
    {
        let (label_width, value_width) = widths[i];
        assert(0 <= widths@[i as int].0 <= LONGEST_SIDE);
        let label: Style = Style::new(
            theme.text_dim,
            theme.font_size_small * 88 / 100,
            Align::Left,
            Baseline::Middle,
        );
        put_text(&mut out, x, y, list[i].label, label);
        let value: Style = Style::new(
            list[i].colour,
            theme.font_size_small,
            Align::Left,
            Baseline::Middle,
        );
        put_text(&mut out, x + label_width + 4_000, y, list[i].value.as_str(), value);
        x = next_field(x, label_width, value_width);
        i = i + 1;
        assert(drawn(out@) =~= bar + field_marks(list@, widths@, i as int, *layout, *theme));
    }
    let ghost shown = drawn(out@);
    let right: i64 = layout.width - layout.margin;
    let places: Vec<i64> = place_alarms(x, right, alarm_widths);
    proof {
        assert forall|k: int| 0 <= k < places@.len() implies alarm_fits(
            x as int,
            right as int,
            alarm_widths@,
            k,
        ) by {
            let _ = places@[k];
        }
        fitting_alarms_counted(x as int, right as int, alarm_widths@, 0, places@.len() as int);
    }
    let mut k: usize = 0;
    assert(drawn(out@) =~= shown + alarm_marks(alarms@, alarm_widths@, 0, *layout, *theme));
    while k < places.len()
        invariant
            k <= places.len(),
            places@.len() <= alarms@.len(),
            y == layout.status_bar_height as int / 2,
            right == layout.width - layout.margin,
            forall|i: int|
                0 <= i < places@.len() ==> #[trigger] places@[i] == alarm_right(
                    right as int,
                    alarm_widths@,
                    i,
                ) && alarm_fits(x as int, right as int, alarm_widths@, i),
            drawn(out@) == shown + alarm_marks(
                alarms@,
                alarm_widths@,
                k as int,
                *layout,
                *theme,
            ),
        decreases places.len() - k,
    {
        let shade: Color = if alarms[k].severe {
            theme.warning
        } else {
            theme.caution
        };
        let style: Style = Style::new(
            shade,
            theme.font_size_small,
            Align::Right,
            Baseline::Middle,
        );
        put_text(&mut out, places[k], y, alarms[k].text.as_str(), style);
        k = k + 1;
        assert(drawn(out@) =~= shown + alarm_marks(
            alarms@,
            alarm_widths@,
            k as int,
            *layout,
            *theme,
        ));
    }
    out
}

// --- laws ----------------------------------------------------------------------------------

/// When all is well there is nothing to read.
pub proof fn no_alarm_when_all_is_well(down: Seq<Seq<char>>, streams: nat, faults: Faults)
    requires
        down.len() == 0,
        streams > 0,
        !faults.position_stale || !faults.ever_had_position,
        faults.has_altitude,
        faults.decode_errors == 0,
    ensures
        alarm_list(down, streams, faults).len() == 0,
{
}

/// The most pressing alarm is the connection: with nothing connected it comes first.
pub proof fn offline_comes_first(down: Seq<Seq<char>>, streams: nat, faults: Faults)
    requires
        down.len() == streams,
    ensures
        alarm_list(down, streams, faults)[0] == ("STRATUX OFFLINE"@, true),
{
}

/// Alarms that are placed keep clear of each other and of the fields.
pub proof fn alarms_do_not_overlap(left_end: int, right: int, widths: Seq<i64>, i: int)
    requires
        0 < i < widths.len(),
        alarm_fits(left_end, right, widths, i),
        widths[i - 1] >= 0,
    ensures
        alarm_right(right, widths, i) < alarm_right(right, widths, i - 1) - widths[i - 1],
        left_end < alarm_right(right, widths, i) - widths[i],
{
}

/// A radio that hears nothing is the failure to see: it is red while what is known of it is recent, green
/// as soon as it hears anything, and neither where nothing recent is known.
pub proof fn a_deaf_radio_is_red(rate: nat, theme: Theme)
    ensures
        radio_colour_of(0, true, theme) == theme.warning,
        rate > 0 ==> radio_colour_of(rate as int, true, theme) == theme.good,
        radio_colour_of(rate as int, false, theme) == theme.text_dim,
        rate_of(rate, true) == decimal(rate) + "/m"@,
        rate_of(rate, false) == "?"@,
{
}

/// Satellites are counted behind a usable fix and left out of one that is not.
pub proof fn satellites_are_counted_behind_a_fix(fix: Seq<char>, health: Health)
    ensures
        health.fix_usable ==> gps_text(fix, health) == fix + "/"@ + decimal(
            health.satellites as nat,
        ),
        !health.fix_usable ==> gps_text(fix, health) == fix,
{
}

/// The count of traffic says how many are drawn, and then of the others only those there are, each with
/// the reason they are not.
pub proof fn what_is_not_drawn_is_counted(stats: FrameStats)
    ensures
        stats.targets_outside_range == 0 && stats.targets_outside_altitude == 0
            && stats.targets_no_position == 0 && stats.targets_unplotted == 0 ==> traffic_of(stats)
            == decimal(stats.targets_drawn as nat),
        stats.targets_outside_range > 0 && stats.targets_outside_altitude == 0
            && stats.targets_no_position == 0 && stats.targets_unplotted == 0 ==> traffic_of(stats)
            == decimal(stats.targets_drawn as nat) + (" +"@ + decimal(
            stats.targets_outside_range as nat,
        ) + " out"@),
        stats.targets_outside_range == 0 && stats.targets_outside_altitude > 0
            && stats.targets_no_position == 0 && stats.targets_unplotted == 0 ==> traffic_of(stats)
            == decimal(stats.targets_drawn as nat) + (" +"@ + decimal(
            stats.targets_outside_altitude as nat,
        ) + " alt"@),
        stats.targets_outside_range == 0 && stats.targets_outside_altitude == 0
            && stats.targets_no_position > 0 && stats.targets_unplotted == 0 ==> traffic_of(stats)
            == decimal(stats.targets_drawn as nat) + (" +"@ + decimal(
            stats.targets_no_position as nat,
        ) + " nopos"@),
        stats.targets_outside_range == 0 && stats.targets_outside_altitude == 0
            && stats.targets_no_position == 0 && stats.targets_unplotted > 0 ==> traffic_of(stats)
            == decimal(stats.targets_drawn as nat) + (" +"@ + decimal(
            stats.targets_unplotted as nat,
        ) + " held"@),
{
    let n = decimal(stats.targets_drawn as nat);
    let none: Seq<char> = seq![];
    assert(n + none + none + none + none =~= n);
    let out = held_back(stats.targets_outside_range as nat, " out"@);
    let alt = held_back(stats.targets_outside_altitude as nat, " alt"@);
    let nopos = held_back(stats.targets_no_position as nat, " nopos"@);
    let held = held_back(stats.targets_unplotted as nat, " held"@);
    assert(n + out + none + none + none =~= n + out);
    assert(n + none + alt + none + none =~= n + alt);
    assert(n + none + none + nopos + none =~= n + nopos);
    assert(n + none + none + none + held =~= n + held);
}

/// Traffic is red with any alert, amber with an advisory and no alert, and plain otherwise.
pub proof fn traffic_is_coloured_by_the_worst(stats: FrameStats, theme: Theme)
    ensures
        stats.alerts > 0 ==> traffic_colour_of(stats, theme) == theme.warning,
        stats.alerts == 0 && stats.advisories > 0 ==> traffic_colour_of(stats, theme)
            == theme.caution,
        stats.alerts == 0 && stats.advisories == 0 ==> traffic_colour_of(stats, theme)
            == theme.text_primary,
{
}

/// The processor is amber from seventy degrees and red from seventy-eight. Radar is amber from five
/// minutes old and red from ten.
pub proof fn limits_turn_amber_then_red(mc: int, seconds: int, theme: Theme)
    ensures
        mc < 70_000 ==> temp_colour_of(mc, theme) == theme.text_secondary,
        70_000 <= mc < 78_000 ==> temp_colour_of(mc, theme) == theme.caution,
        78_000 <= mc ==> temp_colour_of(mc, theme) == theme.warning,
        seconds < 300 ==> radar_colour_of(seconds, theme) == theme.text_secondary,
        300 <= seconds < 600 ==> radar_colour_of(seconds, theme) == theme.caution,
        600 <= seconds ==> radar_colour_of(seconds, theme) == theme.warning,
{
}

/// What is raised, and how loudly: every stream down, and a position that has gone stale, are severe;
/// some streams down, no altitude to compare with and reports that did not decode are not.
pub proof fn what_is_raised(down: Seq<Seq<char>>, streams: nat, faults: Faults)
    requires
        streams > 0,
        down.len() <= streams,
    ensures
        ({
            let list = alarm_list(down, streams, faults);
            let stale = ("POSITION STALE"@, true);
            let deaf = ("NO ALT REF"@, false);
            let garbled = (decimal(faults.decode_errors as nat) + " DECODE ERR"@, false);
            &&& down.len() == streams ==> list.contains(("STRATUX OFFLINE"@, true))
            &&& 0 < down.len() < streams ==> list.contains(("NO "@ + with_commas(down), false))
            &&& faults.position_stale && faults.ever_had_position ==> list.contains(stale)
            &&& !faults.has_altitude ==> list.contains(deaf)
            &&& faults.decode_errors > 0 ==> list.contains(garbled)
            &&& list.len() == (if down.len() > 0 {
                1int
            } else {
                0
            }) + (if faults.position_stale && faults.ever_had_position {
                1int
            } else {
                0
            }) + (if faults.has_altitude {
                0int
            } else {
                1
            }) + (if faults.decode_errors > 0 {
                1int
            } else {
                0
            })
        }),
{
    let list = alarm_list(down, streams, faults);
    let a: int = if down.len() > 0 {
        1
    } else {
        0
    };
    let b: int = if faults.position_stale && faults.ever_had_position {
        a + 1
    } else {
        a
    };
    let c: int = if faults.has_altitude {
        b
    } else {
        b + 1
    };
    assert(a > 0 ==> list[0] == list[0]);
    assert(b > a ==> list[a] == ("POSITION STALE"@, true));
    assert(c > b ==> list[b] == ("NO ALT REF"@, false));
    assert(faults.decode_errors > 0 ==> list[c] == (
        decimal(faults.decode_errors as nat) + " DECODE ERR"@,
        false,
    ));
}

/// Alarms are in the colour of how severe they are, along the right-hand end of the bar, the first at
/// the very end of it.
pub proof fn alarms_are_in_their_colour(
    list: Seq<Alarm>,
    widths: Seq<i64>,
    n: int,
    i: int,
    layout: Layout,
    theme: Theme,
)
    requires
        0 <= i < n <= list.len(),
        widths.len() == list.len(),
    ensures
        ({
            let mark = alarm_marks(list, widths, n, layout, theme)[i];
            &&& mark is Text && mark->text == list[i].text@
            &&& list[i].severe ==> mark->style.colour == theme.warning
            &&& !list[i].severe ==> mark->style.colour == theme.caution
            &&& mark->style.align == Align::Right
            &&& i == 0 ==> mark->Text_x == layout.width - layout.margin
            &&& i > 0 ==> mark->Text_x == alarm_marks(
                list,
                widths,
                n,
                layout,
                theme,
            )[i - 1]->Text_x - widths[i - 1] - 12_000
        }),
{
}

/// The fields stand from the left margin on, each with its value behind its label and clear of the one
/// before it.
pub proof fn fields_stand_from_the_left(
    list: Seq<Field>,
    widths: Seq<(i64, i64)>,
    n: int,
    k: int,
    layout: Layout,
    theme: Theme,
)
    requires
        0 <= k < n <= list.len(),
        widths.len() == list.len(),
    ensures
        ({
            let marks = field_marks(list, widths, n, layout, theme);
            let (label, value) = (marks[2 * k], marks[2 * k + 1]);
            &&& marks.len() == 2 * n
            &&& label is Text && label->text == list[k].label@
            &&& value is Text && value->text == list[k].value@
            &&& value->style.colour == list[k].colour
            &&& label->style.colour == theme.text_dim
            &&& value->Text_x == label->Text_x + widths[k].0 + 4_000
            &&& k == 0 ==> label->Text_x == layout.margin
            &&& k > 0 ==> label->Text_x == marks[2 * k - 1]->Text_x + widths[k - 1].1 + 14_000
            &&& label->Text_y == layout.status_bar_height as int / 2 && value->Text_y
                == label->Text_y
        }),
    decreases n,
{
    field_marks_count(list, widths, n - 1, layout, theme);
    if k < n - 1 {
        fields_stand_from_the_left(list, widths, n - 1, k, layout, theme);
    } else if k > 0 {
        fields_stand_from_the_left(list, widths, n - 1, k - 1, layout, theme);
        let marks = field_marks(list, widths, n, layout, theme);
        let before = field_marks(list, widths, n - 1, layout, theme);
        assert(marks[2 * k - 1] == before[2 * k - 1]);
        field_follows(list, widths, n - 1, layout, theme);
    }
}

proof fn field_marks_count(
    list: Seq<Field>,
    widths: Seq<(i64, i64)>,
    n: int,
    layout: Layout,
    theme: Theme,
)
    requires
        0 <= n,
    ensures
        field_marks(list, widths, n, layout, theme).len() == 2 * n,
    decreases n,
{
    if n > 0 {
        field_marks_count(list, widths, n - 1, layout, theme);
    }
}

proof fn field_follows(
    list: Seq<Field>,
    widths: Seq<(i64, i64)>,
    n: int,
    layout: Layout,
    theme: Theme,
)
    requires
        0 < n,
    ensures
        field_marks(list, widths, n, layout, theme)[2 * n - 1]->Text_x == field_left(
            layout.margin as int,
            widths,
            n - 1,
        ) + widths[n - 1].0 + 4_000,
{
    field_marks_count(list, widths, n - 1, layout, theme);
}

/// Streams that are down are named one after another with a comma between.
pub proof fn streams_are_named_with_commas(names: Seq<Seq<char>>, next: Seq<char>)
    ensures
        with_commas(seq![next]) == next,
        names.len() > 0 ==> with_commas(names.push(next)) == with_commas(names) + ","@ + next,
{
    assert(names.push(next).drop_last() =~= names);
}

/// The bar has four fields always, one more for the processor while its temperature is known, and one
/// more for the radar while there is any.
pub proof fn how_many_fields_there_are(health: Health)
    ensures
        !health.fresh && health.nexrad_age is None ==> field_count(health) == 4,
        health.fresh && health.cpu_temp_mc > 0 && health.nexrad_age is None ==> field_count(health)
            == 5,
        health.fresh && health.cpu_temp_mc > 0 && health.nexrad_age is Some ==> field_count(health)
            == 6,
        health.cpu_temp_mc <= 0 && health.nexrad_age is Some ==> field_count(health) == 5,
{
}

/// A bar is as wide as the panel, over its own ground, with a line along the edge it has to the content.
pub proof fn bars_run_across_the_panel(layout: Layout, theme: Theme, top: int, height: int, edge: int)
    ensures
        ({
            let marks = bar_marks(layout, theme, top, height, edge);
            &&& marks[0] is Fill && marks[0]->Fill_x == 0 && marks[0]->Fill_y == top
            &&& marks[0]->Fill_w == layout.width && marks[0]->Fill_h == height
            &&& marks[0]->Fill_colour == theme.bar_background
            &&& marks[1] is Line && marks[1]->from == (0int, edge) && marks[1]->to == (
                layout.width as int,
                edge,
            )
        }),
{
}

/// As many alarms are shown as fit, the first ones: the next would come too near the fields.
pub proof fn as_many_alarms_as_fit(left_end: int, right: int, widths: Seq<i64>, k: int)
    requires
        0 <= k <= widths.len(),
    ensures
        ({
            let n = alarms_fitting(left_end, right, widths, k);
            &&& k <= n <= widths.len()
            &&& n < widths.len() ==> alarm_right(right, widths, n) - widths[n] < left_end + 14_000
            &&& forall|i: int|
                k <= i < n ==> #[trigger] alarm_right(right, widths, i) - widths[i] >= left_end
                    + 14_000
        }),
    decreases widths.len() - k,
{
    if k < widths.len() && alarm_fits(left_end, right, widths, k) {
        as_many_alarms_as_fit(left_end, right, widths, k + 1);
    }
}

} // verus!
