//! What the run loop decides between frames.
//!
//! Nothing here waits or talks to anything: each function takes what has come in, and says what the
//! view becomes and what there is to do.

use vstd::prelude::*;

use crate::args::Args;
use crate::chart::{airport_start, airport_total, airspace_total, label_text, Chart};
use crate::text::{decimal, push_decimal, same};
use crate::view::{range_above, range_below, CageState, Inspect, Inspected, ViewState};

verus! {

// --- where the data come from --------------------------------------------------------------

/// Where the data come from.
#[derive(Debug)]
pub enum Feed {
    /// A receiver on the network.
    Receiver { host: String, port: u16 },
    /// A recording, replayed at the rate the argument at `speed` gives, or at its own.
    Recording { path: String, speed: Option<usize>, repeat: bool },
}

impl Feed {
    /// Whether there is a receiver behind it to send anything to.
    pub fn is_live(&self) -> (r: bool)
        ensures
            r == (self is Receiver),
    {
        match self {
            Feed::Receiver { .. } => true,
            Feed::Recording { .. } => false,
        }
    }
}

/// The feed a command line asks for: the recording it names, and the receiver if it names none.
pub fn feed_for(args: &Args) -> (r: Feed)
    ensures
        r is Receiver <==> args.replay is None,
        r matches Feed::Receiver { host, port } ==> host@ == args.host@ && port == args.port,
        r matches Feed::Recording { path, speed, repeat } ==> path@ == args.replay->0@ && speed
            == args.speed && repeat == args.repeat,
{
    match &args.replay {
        None => Feed::Receiver { host: args.host.clone(), port: args.port },
        Some(path) => Feed::Recording {
            path: path.clone(),
            speed: args.speed,
            repeat: args.repeat,
        },
    }
}

// --- the attitude reference ----------------------------------------------------------------

/// The view after an answer has come in, if one has.
pub open spec fn answered(view: ViewState, answer: Option<bool>, now: u64) -> ViewState {
    match answer {
        Some(ok) => view.caged(CageState::Done { ok }, now),
        None => view,
    }
}

/// The view after a confirmed request has been dealt with: it is on its way to a live receiver, and
/// has failed where there is none.
pub open spec fn dispatched(view: ViewState, live: bool, now: u64) -> ViewState {
    if view.cage == CageState::Requested {
        if live {
            view.caged(CageState::InFlight, now)
        } else {
            view.caged(CageState::Done { ok: false }, now)
        }
    } else {
        view
    }
}

/// Drive the cage request. Call once per frame; `answer` is the outcome of an earlier request, if
/// one has just come back. Returns whether to issue a request.
///
/// A lapsed arm or a finished result is retired first, so a stale CONFIRM cannot sit on the key.
/// Replaying a recording there is no receiver to cage, and pretending otherwise would show CAGED
/// for something that never happened.
pub fn pump_cage(view: &mut ViewState, answer: Option<bool>, live: bool, now: u64) -> (r: bool)
    ensures
        *final(view) == dispatched(answered(old(view).ticked(now), answer, now), live, now),
        r == (live && answered(old(view).ticked(now), answer, now).cage == CageState::Requested),
{
    view.tick_cage(now);
    match answer {
        Some(ok) => view.set_cage(CageState::Done { ok }, now),
        None => {},
    }
    if view.cage == CageState::Requested {
        if live {
            view.set_cage(CageState::InFlight, now);
            return true;
        }
        view.set_cage(CageState::Done { ok: false }, now);
    }
    false
}

// --- the keyboard of the windowed display --------------------------------------------------

/// What a key on the keyboard makes of the view.
pub open spec fn typed(view: ViewState, key: char) -> ViewState {
    if key == 'r' {
        ViewState { range_mnm: range_above(view.range_mnm), ..view }
    } else if key == 'R' {
        ViewState { range_mnm: range_below(view.range_mnm), ..view }
    } else if key == 'a' {
        ViewState { altitude_filter: view.altitude_filter.successor(), ..view }
    } else if key == 'o' {
        ViewState { orientation: view.orientation.other(), ..view }
    } else if key == 'p' {
        ViewState { page: view.page.successor(), ..view }
    } else if key == 'w' {
        ViewState { show_weather_underlay: !view.show_weather_underlay, ..view }
    } else {
        view
    }
}

/// Keyboard shortcuts for the windowed display. They drive the same selections the touch path does.
pub fn apply_key(view: &mut ViewState, key: char)
    ensures
        *final(view) == typed(*old(view), key),
{
    match key {
        'r' => view.cycle_range(),
        'R' => view.cycle_range_down(),
        'a' => view.cycle_altitude_filter(),
        'o' => view.toggle_orientation(),
        'p' => view.page = view.page.next(),
        'w' => view.show_weather_underlay = !view.show_weather_underlay,
        _ => {},
    }
}

// --- opening a card by name ----------------------------------------------------------------

/// The identifier of the airport at a place of the chart.
pub open spec fn airport_ident(b: Seq<u8>, i: int) -> Seq<char> {
    let o = airport_start(b, i);
    label_text(b.subrange(o + 8, o + 16))
}

/// What became of a request to open a card.
#[derive(Debug, Clone, Copy, PartialEq, Eq, Structural)]
pub enum CardOutcome {
    /// There is no chart.
    NoChart,
    /// The card of the airport at this place is open.
    Open(u32),
    /// No airport of the chart has that identifier.
    NoSuchAirport,
}

/// Open the card of the first airport with this identifier.
///
/// The whole chart is searched rather than what is on screen, so this works regardless of where
/// own-ship happens to be.
pub fn open_inspect_card(chart: Option<&Chart>, view: &mut ViewState, ident: &str, now: u64) -> (r:
    CardOutcome)
    ensures
        match r {
            CardOutcome::NoChart => chart is None && *final(view) == *old(view),
            CardOutcome::Open(place) => {
                &&& chart matches Some(chart)
                &&& place < airport_total(chart@)
                &&& airport_ident(chart@, place as int) == ident@
                &&& forall|k: int| 0 <= k < place ==> #[trigger] airport_ident(chart@, k) != ident@
                &&& *final(view) == (ViewState {
                    inspect: Some(Inspect { subject: Inspected::Airport(place), opened: now }),
                    ..*old(view)
                })
            },
            CardOutcome::NoSuchAirport => {
                &&& chart matches Some(chart)
                &&& forall|k: int|
                    0 <= k < airport_total(chart@) ==> #[trigger] airport_ident(chart@, k) != ident@
                &&& *final(view) == *old(view)
            },
        },
{
    let held: &Chart = match chart {
        Some(held) => held,
        None => return CardOutcome::NoChart,
    };
    let count: usize = held.airport_count();
    let mut i: usize = 0;
    while i < count
        invariant
            i <= count,
            chart == Some(held),
            count == airport_total(held@),
            *view == *old(view),
            forall|k: int| 0 <= k < i ==> #[trigger] airport_ident(held@, k) != ident@,
        decreases count - i,
    {
        match held.airport_at(i) {
            Some(airport) => {
                if same(airport.label(), ident) {
                    view.inspect = Some(
                        Inspect { subject: Inspected::Airport(airport.index), opened: now },
                    );
                    return CardOutcome::Open(airport.index);
                }
            },
            None => {},
        }
        i = i + 1;
    }
    CardOutcome::NoSuchAirport
}

// --- where the chart may be -----------------------------------------------------------------

/// The copy of the chart a development build finds.
pub const CHART_IN_TREE: &'static str = "crates/avionics-ui/data/conus.chart";

/// Where to look for the chart, in order: only where it was asked for, if it was; else beside the
/// program, if that place is known, and then where a development build finds it.
pub fn chart_candidates(asked: Option<String>, beside: Option<String>) -> (r: Vec<String>)
    ensures
        match (asked, beside) {
            (Some(asked), _) => r@ == seq![asked],
            (None, Some(beside)) => {
                &&& r@.len() == 2
                &&& r@[0] == beside
                &&& r@[1]@ == CHART_IN_TREE@
            },
            (None, None) => r@.len() == 1 && r@[0]@ == CHART_IN_TREE@,
        },
{
    let mut out: Vec<String> = Vec::new();
    match asked {
        Some(asked) => {
            out.push(asked);
            return out;
        },
        None => {},
    }
    match beside {
        Some(beside) => out.push(beside),
        None => {},
    }
    let mut in_tree: String = String::new();
    in_tree.append(CHART_IN_TREE);
    assert(in_tree@ =~= CHART_IN_TREE@);
    out.push(in_tree);
    out
}

// --- the check -----------------------------------------------------------------------------

/// A connector, and what hangs on it.
pub open spec fn connector_of(name: Seq<char>, connected: bool, mode: Option<Seq<char>>) -> Seq<char> {
    "  connector   : "@ + name + (if connected {
        " connected "@
    } else {
        " disconnected "@
    }) + match mode {
        Some(mode) => mode,
        None => "(no modes)"@,
    }
}

/// The line on a connector.
pub fn connector_line(name: &str, connected: bool, mode: Option<&str>) -> (r: String)
    ensures
        r@ == connector_of(
            name@,
            connected,
            match mode {
                Some(mode) => Some(mode@),
                None => None,
            },
        ),
{
    let mut out: String = String::new();
    out.append("  connector   : ");
    out.append(name);
    if connected {
        out.append(" connected ");
    } else {
        out.append(" disconnected ");
    }
    match mode {
        Some(mode) => out.append(mode),
        None => out.append("(no modes)"),
    }
    assert(out@ =~= connector_of(
        name@,
        connected,
        match mode {
            Some(mode) => Some(mode@),
            None => None,
        },
    ));
    out
}

/// The line on the map layer: reported but never required.
///
/// A missing chart is silent at runtime by design, and that silence is exactly why it is reported:
/// without a line here an install with no chart looks identical to a correct one until someone
/// notices the airports are gone.
pub open spec fn map_layer_of(counts: Option<(nat, nat)>) -> Seq<char> {
    match counts {
        Some((airports, airspace)) => "  map layer   : OK   "@ + decimal(airports) + " airports, "@
            + decimal(airspace) + " airspace volumes"@,
        None =>
        "  map layer   : WARN no conus.chart found; airports and airspace will not draw"@,
    }
}

/// The line on the map layer.
pub fn map_layer_line(chart: Option<&Chart>) -> (r: String)
    ensures
        r@ == map_layer_of(
            match chart {
                Some(chart) => Some(
                    (airport_total(chart@) as nat, airspace_total(chart@) as nat),
                ),
                None => None,
            },
        ),
{
    let mut out: String = String::new();
    match chart {
        Some(chart) => {
            out.append("  map layer   : OK   ");
            push_decimal(&mut out, chart.airport_count() as u64);
            out.append(" airports, ");
            push_decimal(&mut out, chart.airspace_count() as u64);
            out.append(" airspace volumes");
        },
        None => {
            out.append(
                "  map layer   : WARN no conus.chart found; airports and airspace will not draw",
            );
        },
    }
    assert(out@ =~= map_layer_of(
        match chart {
            Some(chart) => Some(
                (airport_total(chart@) as nat, airspace_total(chart@) as nat),
            ),
            None => None,
        },
    ));
    out
}

/// What stops the display from coming up: a font it can draw with, and an output it can drive. A
/// missing touchscreen, receiver or chart does not.
pub open spec fn required(font: bool, display: bool) -> Seq<Seq<char>> {
    (if font {
        seq![]
    } else {
        seq!["font"@]
    }) + if display {
        seq![]
    } else {
        seq!["display"@]
    }
}

/// Names with a comma and a space between them.
pub open spec fn listed_names(names: Seq<Seq<char>>) -> Seq<char>
    decreases names.len(),
{
    if names.len() == 0 {
        seq![]
    } else if names.len() == 1 {
        names[0]
    } else {
        listed_names(names.drop_last()) + ", "@ + names.last()
    }
}

/// What the check comes to, when something required is missing.
pub open spec fn failure_of(names: Seq<Seq<char>>) -> Seq<char> {
    decimal(names.len()) + " required check(s) failed: "@ + listed_names(names)
}

/// What the check comes to: nothing when everything required is there.
pub fn check_result(font: bool, display: bool) -> (r: Result<(), String>)
    ensures
        match r {
            Ok(_) => font && display,
            Err(text) => !(font && display) && text@ == failure_of(required(font, display)),
        },
{
    if font && display {
        return Ok(());
    }
    let mut out: String = String::new();
    let mut names: String = String::new();
    let mut count: u64 = 0;
    if !font {
        names.append("font");
        count = count + 1;
    }
    if !display {
        if !font {
            names.append(", ");
        }
        names.append("display");
        count = count + 1;
    }
    proof {
        let missing = required(font, display);
        assert(missing.len() == count);
        reveal_with_fuel(listed_names, 3);
        if !font && !display {
            assert(missing =~= seq!["font"@, "display"@]);
            assert(missing.drop_last() =~= seq!["font"@]);
        } else if !font {
            assert(missing =~= seq!["font"@]);
        } else {
            assert(missing =~= seq!["display"@]);
        }
        assert(names@ =~= listed_names(missing));
    }
    push_decimal(&mut out, count);
    out.append(" required check(s) failed: ");
    out.append(names.as_str());
    assert(out@ =~= failure_of(required(font, display)));
    Err(out)
}

// --- laws ----------------------------------------------------------------------------------

/// A confirmed request is issued exactly once: the frame that issues it moves it on, and no frame
/// after that issues another until the pilot confirms again.
pub proof fn a_request_is_issued_once(view: ViewState, answer: Option<bool>, live: bool, now: u64)
    ensures
        dispatched(answered(view.ticked(now), answer, now), live, now).cage != CageState::Requested,
        view.cage != CageState::Requested ==> answered(view.ticked(now), answer, now).cage
            != CageState::Requested,
{
}

/// Nothing is ever shown as caged while replaying: a request there fails.
pub proof fn a_replay_is_never_caged(view: ViewState, now: u64)
    requires
        view.cage == CageState::Requested,
    ensures
        dispatched(answered(view.ticked(now), None, now), false, now).cage == (CageState::Done {
            ok: false,
        }),
{
}

/// The keyboard never touches the cage or the card.
pub proof fn typing_cages_nothing(view: ViewState, key: char)
    ensures
        typed(view, key).cage == view.cage,
        typed(view, key).cage_changed == view.cage_changed,
        typed(view, key).inspect == view.inspect,
{
}

/// What the keyboard does: `r` and `R` step the range up and down, `a` the altitude band, `o` the
/// orientation, `p` the page and `w` the weather, and no other key does anything.
pub proof fn what_the_keyboard_does(view: ViewState, key: char)
    ensures
        typed(view, 'r') == (ViewState { range_mnm: range_above(view.range_mnm), ..view }),
        typed(view, 'R') == (ViewState { range_mnm: range_below(view.range_mnm), ..view }),
        typed(view, 'a') == (ViewState {
            altitude_filter: view.altitude_filter.successor(),
            ..view
        }),
        typed(view, 'o') == (ViewState { orientation: view.orientation.other(), ..view }),
        typed(view, 'p') == (ViewState { page: view.page.successor(), ..view }),
        typed(view, 'w') == (ViewState {
            show_weather_underlay: !view.show_weather_underlay,
            ..view
        }),
        key != 'r' && key != 'R' && key != 'a' && key != 'o' && key != 'p' && key != 'w' ==> typed(
            view,
            key,
        ) == view,
{
}

/// An answer shows whether it was one, from the moment it came; without one nothing changes. A request
/// is under way as soon as it is issued.
pub proof fn an_answer_is_shown(view: ViewState, ok: bool, now: u64)
    ensures
        answered(view, Some(ok), now) == (ViewState {
            cage: CageState::Done { ok },
            cage_changed: Some(now),
            ..view
        }),
        answered(view, None, now) == view,
        view.cage == CageState::Requested ==> dispatched(view, true, now) == (ViewState {
            cage: CageState::InFlight,
            cage_changed: Some(now),
            ..view
        }),
        view.cage != CageState::Requested ==> dispatched(view, ok, now) == view,
{
}

/// What a check requires: a font and a display. A failure says how many are missing and which, in that
/// order.
pub proof fn a_failed_check_says_what_is_missing()
    ensures
        required(true, true).len() == 0,
        required(false, true) == seq!["font"@],
        required(true, false) == seq!["display"@],
        required(false, false) == seq!["font"@, "display"@],
        failure_of(required(false, true)) == decimal(1) + " required check(s) failed: "@ + "font"@,
        failure_of(required(true, false)) == decimal(1) + " required check(s) failed: "@
            + "display"@,
        failure_of(required(false, false)) == decimal(2) + " required check(s) failed: "@ + (
        "font"@ + ", "@ + "display"@),
{
    reveal_with_fuel(listed_names, 3);
    let both = seq!["font"@, "display"@];
    assert(required(false, false) =~= both);
    assert(required(false, true) =~= seq!["font"@]);
    assert(required(true, false) =~= seq!["display"@]);
    assert(both.drop_last() =~= seq!["font"@]);
}

/// A connector says whether anything is on it, and its mode or that it has none. The map layer says how
/// much of it there is, or that there is none.
pub proof fn what_a_check_reports(name: Seq<char>, mode: Seq<char>, airports: nat, airspace: nat)
    ensures
        connector_of(name, true, Some(mode)) == "  connector   : "@ + name + " connected "@ + mode,
        connector_of(name, false, Some(mode)) == "  connector   : "@ + name + " disconnected "@
            + mode,
        connector_of(name, true, None) == "  connector   : "@ + name + " connected "@
            + "(no modes)"@,
        map_layer_of(Some((airports, airspace))) == "  map layer   : OK   "@ + decimal(airports)
            + " airports, "@ + decimal(airspace) + " airspace volumes"@,
        map_layer_of(None)
            == "  map layer   : WARN no conus.chart found; airports and airspace will not draw"@,
{
}

} // verus!
