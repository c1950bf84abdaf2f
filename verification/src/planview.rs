//! The own-ship-centred traffic display: what is drawn on it, in what order, and where its labels
//! go.
//!
//! Angles are in thousandths of a degree clockwise from straight up, lengths in thousandths of a
//! pixel, ranges in thousandths of a nautical mile.

use vstd::prelude::*;

use crate::domain::{LatLon, Target};
use crate::layout::{Layout, LONGEST_SIDE};
use crate::marks::{
    drawn, nothing, put, put_all, put_line, put_text, stroke, text_at, Align, Baseline, Mark,
    Painted, Style,
};
use crate::projection::{
    along, distance_squared, further, point_along, Orientation, Projection, Turn, UNIT,
};
use crate::reckon::{extrapolation, is_coasting, reckon, Reckoned, ReckonConfig};
use crate::symbols::{
    build, category_shape, heading_barb, is_stroke_only, outline, ownship, ownship_outline,
    shape_for_category, SymbolShape,
};
use crate::text::{decimal, push_decimal, push_tenths, to_tenths};
use crate::theme::{faded, faded_by, Color, Theme};
use crate::threat::{
    altitude_in_range, assess, assessed, format_relative_altitude, level_of, relative_altitude,
    relative_altitude_text, AltitudeFilter, Assessment, ThreatConfig, ThreatLevel,
};
use crate::view::{FrameStats, ViewState};

verus! {

// --- where things are ----------------------------------------------------------------------

/// Thousandths of a pixel to the nautical mile, with the outer ring at the selected range.
pub open spec fn scale_of(layout: Layout, view: ViewState) -> int {
    layout.outer_radius * 1000 / view.range_mnm as int
}

/// The projection of a frame around where own-ship is drawn. `cos_lat` is the cosine of that
/// latitude; own-ship's track comes with its sine and cosine.
///
/// The weather underlay, the map and the traffic share it: two of them would drift apart under
/// rotation and put the weather somewhere other than where it is.
pub fn make_projection(
    own_drawn: LatLon,
    cos_lat: i64,
    own_track: Option<(i32, Turn)>,
    view: &ViewState,
    layout: &Layout,
) -> (r: Projection)
    requires
        layout.wf(),
        0 < view.range_mnm <= 24_000_000,
        cos_lat <= UNIT,
        own_track matches Some(track) ==> track.1.wf(),
    ensures
        r.wf(),
        r == Projection::around(
            own_drawn,
            layout.center,
            scale_of(*layout, *view) as i64,
            view.orientation,
            cos_lat as int,
            own_track,
        ),
{
    let scaled: i64 = layout.outer_radius * 1000;
    let range: i64 = view.range_mnm as i64;
    proof {
        let (n, d) = (scaled as int, range as int);
        assert(1 <= n / d <= n) by (nonlinear_arith)
            requires
                0 < d <= n,
        ;
    }
    Projection::new(
        own_drawn,
        layout.center,
        scaled / range,
        view.orientation,
        cos_lat,
        own_track,
    )
}

/// A target the receiver hears, with the sine and cosine of its track and the cosine of its
/// latitude.
#[derive(Debug, Clone, Copy, PartialEq, Eq, Structural)]
pub struct Sighting {
    pub target: Target,
    pub course: Turn,
    pub cos_lat: i64,
}

impl Sighting {
    pub open spec fn wf(self) -> bool {
        self.course.wf() && self.cos_lat <= UNIT
    }
}

/// Whether a contact is this sighting: drawn where it is reckoned to be, at its distance from
/// own-ship, in thousandths of a nautical mile rounded up.
pub open spec fn is_contact(
    contact: Contact,
    sighting: Sighting,
    projection: Projection,
    now: int,
    config: ReckonConfig,
) -> bool {
    let target = sighting.target;
    &&& contact.target == target
    &&& target.position matches Some(position)
    &&& contact.reckoned.position == crate::reckon::drawn_at(
        position,
        target,
        sighting.course,
        sighting.cos_lat as int,
        now,
        config,
    )
    &&& contact.reckoned.extrapolated == extrapolation(target, now, config)
    &&& contact.reckoned.coasting == is_coasting(target, now, config)
    &&& is_range_of(
        contact.range_mnm as int,
        distance_squared(projection.origin, contact.reckoned.position, projection.shrink as int),
    )
    &&& (contact.screen.0 as int, contact.screen.1 as int) == projection.place(
        contact.reckoned.position,
    )
}

/// Whether a range is the fewest thousandths of a nautical mile that a distance is within, of which
/// the square is given in billionths. Rounded up, it is within a limit exactly when the distance is.
pub open spec fn is_range_of(range_mnm: int, square: int) -> bool {
    &&& 0 <= range_mnm
    &&& square <= range_mnm * 1_000_000 * (range_mnm * 1_000_000)
    &&& range_mnm > 0 ==> (range_mnm - 1) * 1_000_000 * ((range_mnm - 1) * 1_000_000) < square
}

/// The places of the first `end` sightings that have a position.
pub open spec fn positioned(sightings: Seq<Sighting>, end: int) -> Seq<int>
    decreases end,
{
    if end <= 0 {
        seq![]
    } else if sightings[end - 1].target.position is Some {
        positioned(sightings, end - 1).push(end - 1)
    } else {
        positioned(sightings, end - 1)
    }
}

/// Whether contacts are the sightings at these places.
pub open spec fn are_contacts(
    contacts: Seq<Contact>,
    places: Seq<int>,
    sightings: Seq<Sighting>,
    projection: Projection,
    now: int,
    config: ReckonConfig,
) -> bool {
    &&& contacts.len() == places.len()
    &&& forall|k: int|
        0 <= k < contacts.len() ==> {
            &&& 0 <= places[k] < sightings.len()
            &&& is_contact(#[trigger] contacts[k], sightings[places[k]], projection, now, config)
        }
}

proof fn one_more_contact(
    contacts: Seq<Contact>,
    contact: Contact,
    sightings: Seq<Sighting>,
    i: int,
    projection: Projection,
    now: int,
    config: ReckonConfig,
)
    requires
        0 <= i < sightings.len(),
        are_contacts(contacts, positioned(sightings, i), sightings, projection, now, config),
        is_contact(contact, sightings[i], projection, now, config),
    ensures
        are_contacts(
            contacts.push(contact),
            positioned(sightings, i + 1),
            sightings,
            projection,
            now,
            config,
        ),
{
    let (before, after) = (positioned(sightings, i), positioned(sightings, i + 1));
    let all = contacts.push(contact);
    assert(after == before.push(i));
    assert forall|k: int| 0 <= k < all.len() implies is_contact(
        #[trigger] all[k],
        sightings[after[k]],
        projection,
        now,
        config,
    ) by {
        if k < contacts.len() {
            assert(all[k] == contacts[k]);
            assert(after[k] == before[k]);
        }
    }
    assert forall|k: int| 0 <= k < all.len() implies 0 <= #[trigger] after[k] < sightings.len() by {
        if k < contacts.len() {
            assert(contacts[k] == all[k]);
        }
    }
}

fn contact_at(sighting: &Sighting, reckoned: Reckoned, projection: &Projection) -> (r: Contact)
    requires
        projection.wf(),
    ensures
        r.target == sighting.target,
        r.reckoned == reckoned,
        is_range_of(
            r.range_mnm as int,
            distance_squared(projection.origin, reckoned.position, projection.shrink as int),
        ),
        (r.screen.0 as int, r.screen.1 as int) == projection.place(reckoned.position),
{
    let range: u64 = projection.range(reckoned.position);
    let whole: u64 = range / 1_000_000;
    let past: bool = projection.is_past(reckoned.position, whole as i64);
    proof {
        let (r, c) = (range as int, whole as int);
        let square = distance_squared(
            projection.origin,
            reckoned.position,
            projection.shrink as int,
        );
        assert(c * 1_000_000 * (c * 1_000_000) <= r * r) by (nonlinear_arith)
            requires
                0 <= c * 1_000_000 <= r,
        ;
        assert((r + 1) * (r + 1) <= (c + 1) * 1_000_000 * ((c + 1) * 1_000_000)) by (nonlinear_arith)
            requires
                0 <= r + 1 <= (c + 1) * 1_000_000,
        ;
        if c > 0 {
            assert((c - 1) * 1_000_000 * ((c - 1) * 1_000_000) < c * 1_000_000 * (c * 1_000_000)) by (nonlinear_arith)
                requires
                    c > 0,
            ;
        }
    }
    Contact {
        target: sighting.target,
        reckoned,
        range_mnm: if past {
            whole as i64 + 1
        } else {
            whole as i64
        },
        screen: projection.project(reckoned.position),
    }
}

/// Resolve every target that has a position to where it is drawn, and count those that have none.
pub fn survey(
    sightings: &[Sighting],
    projection: &Projection,
    now: u64,
    config: &ReckonConfig,
) -> (r: (Vec<Contact>, usize))
    requires
        projection.wf(),
        forall|i: int| 0 <= i < sightings@.len() ==> (#[trigger] sightings@[i]).wf(),
    ensures
        are_contacts(
            r.0@,
            positioned(sightings@, sightings@.len() as int),
            sightings@,
            *projection,
            now as int,
            *config,
        ),
        r.0@.len() + r.1 == sightings@.len(),
{
    let mut contacts: Vec<Contact> = Vec::new();
    let mut without: usize = 0;
    let mut i: usize = 0;
    while i < sightings.len()
        invariant
            i <= sightings.len(),
            projection.wf(),
            forall|k: int| 0 <= k < sightings@.len() ==> (#[trigger] sightings@[k]).wf(),
            are_contacts(
                contacts@,
                positioned(sightings@, i as int),
                sightings@,
                *projection,
                now as int,
                *config,
            ),
            contacts@.len() + without == i,
        decreases sightings.len() - i,
    {
        let sighting: &Sighting = &sightings[i];
        assert(sightings@[i as int].wf());
        match reckon(&sighting.target, sighting.course, sighting.cos_lat, now, config) {
            Some(reckoned) => {
                let contact: Contact = contact_at(sighting, reckoned, projection);
                assert(is_contact(contact, sightings@[i as int], *projection, now as int, *config));
                proof {
                    one_more_contact(
                        contacts@,
                        contact,
                        sightings@,
                        i as int,
                        *projection,
                        now as int,
                        *config,
                    );
                }
                contacts.push(contact);
            },
            None => without = without + 1,
        }
        i = i + 1;
    }
    (contacts, without)
}

// --- which targets are drawn ---------------------------------------------------------------

/// A target with a position, and where that puts it: how far away it is, and where on screen.
#[derive(Debug, Clone, Copy)]
pub struct Contact {
    pub target: Target,
    pub reckoned: Reckoned,
    /// Rounded up, so that comparing it with a limit answers as the distance itself would.
    pub range_mnm: i64,
    pub screen: (i64, i64),
}

/// One target to draw: which contact it is, and how it is classified.
#[derive(Debug, Clone, Copy, PartialEq, Eq, Structural)]
pub struct Plotted {
    pub contact: usize,
    pub assessment: Assessment,
}

/// How a contact is classified.
pub open spec fn level_at(
    contact: Contact,
    own_altitude_mft: Option<i64>,
    config: ThreatConfig,
) -> ThreatLevel {
    level_of(
        relative_altitude(contact.target.altitude_ft, own_altitude_mft),
        contact.range_mnm as int,
        contact.target.on_ground,
        config,
    )
}

/// Whether a contact is inside the selected range.
pub open spec fn in_range(contact: Contact, view: ViewState) -> bool {
    contact.range_mnm <= view.range_mnm
}

/// Whether the selected altitude band lets a contact through.
pub open spec fn admitted(
    contact: Contact,
    view: ViewState,
    own_altitude_mft: Option<i64>,
    config: ThreatConfig,
) -> bool {
    view.altitude_filter.shows(
        level_at(contact, own_altitude_mft, config),
        match relative_altitude(contact.target.altitude_ft, own_altitude_mft) {
            Some(delta) => Some(delta as i64),
            None => None,
        },
    )
}

/// Whether a contact is drawn.
pub open spec fn is_drawn(
    contact: Contact,
    view: ViewState,
    own_altitude_mft: Option<i64>,
    config: ThreatConfig,
) -> bool {
    in_range(contact, view) && admitted(contact, view, own_altitude_mft, config)
}

/// The contacts before `end` that are drawn at a level, in order.
pub open spec fn drawn_at(
    contacts: Seq<Contact>,
    view: ViewState,
    own_altitude_mft: Option<i64>,
    config: ThreatConfig,
    level: ThreatLevel,
    end: int,
) -> Seq<int>
    decreases end,
{
    if end <= 0 {
        seq![]
    } else {
        let so_far = drawn_at(contacts, view, own_altitude_mft, config, level, end - 1);
        let contact = contacts[end - 1];
        if is_drawn(contact, view, own_altitude_mft, config) && level_at(
            contact,
            own_altitude_mft,
            config,
        ) == level {
            so_far.push(end - 1)
        } else {
            so_far
        }
    }
}

/// The contacts drawn, in the order they are drawn: ascending threat, so that alerts are drawn last
/// and therefore on top of everything else.
pub open spec fn drawing_order(
    contacts: Seq<Contact>,
    view: ViewState,
    own_altitude_mft: Option<i64>,
    config: ThreatConfig,
) -> Seq<int> {
    let n = contacts.len() as int;
    drawn_at(contacts, view, own_altitude_mft, config, ThreatLevel::Normal, n) + drawn_at(
        contacts,
        view,
        own_altitude_mft,
        config,
        ThreatLevel::Advisory,
        n,
    ) + drawn_at(contacts, view, own_altitude_mft, config, ThreatLevel::Alert, n)
}

/// How many of the first `end` contacts are beyond the selected range.
pub open spec fn count_beyond(contacts: Seq<Contact>, view: ViewState, end: int) -> nat
    decreases end,
{
    if end <= 0 {
        0
    } else {
        count_beyond(contacts, view, end - 1) + if in_range(contacts[end - 1], view) {
            0nat
        } else {
            1nat
        }
    }
}

/// How many of the first `end` contacts are inside the range and outside the altitude band.
pub open spec fn count_filtered(
    contacts: Seq<Contact>,
    view: ViewState,
    own_altitude_mft: Option<i64>,
    config: ThreatConfig,
    end: int,
) -> nat
    decreases end,
{
    if end <= 0 {
        0
    } else {
        count_filtered(contacts, view, own_altitude_mft, config, end - 1) + if in_range(
            contacts[end - 1],
            view,
        ) && !admitted(contacts[end - 1], view, own_altitude_mft, config) {
            1nat
        } else {
            0nat
        }
    }
}

/// How many of the first `end` contacts are drawn as a guess.
pub open spec fn count_coasting(
    contacts: Seq<Contact>,
    view: ViewState,
    own_altitude_mft: Option<i64>,
    config: ThreatConfig,
    end: int,
) -> nat
    decreases end,
{
    if end <= 0 {
        0
    } else {
        count_coasting(contacts, view, own_altitude_mft, config, end - 1) + if is_drawn(
            contacts[end - 1],
            view,
            own_altitude_mft,
            config,
        ) && contacts[end - 1].reckoned.coasting {
            1nat
        } else {
            0nat
        }
    }
}

/// Whether a list of targets to draw is these contacts, in this order, each with its
/// classification.
pub open spec fn plots(
    plotted: Seq<Plotted>,
    places: Seq<int>,
    contacts: Seq<Contact>,
    own_altitude_mft: Option<i64>,
    config: ThreatConfig,
) -> bool {
    &&& plotted.len() == places.len()
    &&& forall|k: int|
        0 <= k < plotted.len() ==> {
            &&& 0 <= places[k] < contacts.len()
            &&& (#[trigger] plotted[k]).contact == places[k]
            &&& assessed(
                plotted[k].assessment,
                contacts[places[k]].target,
                contacts[places[k]].range_mnm as int,
                own_altitude_mft,
                config,
            )
        }
}

/// What becomes of one contact: how it is classified if it is drawn, else what keeps it off.
enum Fate {
    Beyond,
    Filtered,
    Drawn(Assessment),
}

fn fate_of(
    contact: &Contact,
    view: &ViewState,
    own_altitude_mft: Option<i64>,
    config: &ThreatConfig,
) -> (r: Fate)
    requires
        altitude_in_range(own_altitude_mft),
    ensures
        match r {
            Fate::Beyond => !in_range(*contact, *view),
            Fate::Filtered => in_range(*contact, *view) && !admitted(
                *contact,
                *view,
                own_altitude_mft,
                *config,
            ),
            Fate::Drawn(assessment) => {
                &&& is_drawn(*contact, *view, own_altitude_mft, *config)
                &&& assessed(
                    assessment,
                    contact.target,
                    contact.range_mnm as int,
                    own_altitude_mft,
                    *config,
                )
            },
        },
{
    if contact.range_mnm > view.range_mnm as i64 {
        return Fate::Beyond;
    }
    let assessment: Assessment = assess(
        &contact.target,
        contact.range_mnm,
        own_altitude_mft,
        config,
    );
    if view.altitude_filter.admits(&assessment) {
        Fate::Drawn(assessment)
    } else {
        Fate::Filtered
    }
}

/// The contacts drawn at one level.
fn plot_level(
    contacts: &[Contact],
    view: &ViewState,
    own_altitude_mft: Option<i64>,
    config: &ThreatConfig,
    level: ThreatLevel,
) -> (r: Vec<Plotted>)
    requires
        altitude_in_range(own_altitude_mft),
    ensures
        plots(
            r@,
            drawn_at(
                contacts@,
                *view,
                own_altitude_mft,
                *config,
                level,
                contacts@.len() as int,
            ),
            contacts@,
            own_altitude_mft,
            *config,
        ),
{
    let mut out: Vec<Plotted> = Vec::new();
    let mut i: usize = 0;
    while i < contacts.len()
        invariant
            i <= contacts.len(),
            altitude_in_range(own_altitude_mft),
            plots(
                out@,
                drawn_at(contacts@, *view, own_altitude_mft, *config, level, i as int),
                contacts@,
                own_altitude_mft,
                *config,
            ),
        decreases contacts.len() - i,
    {
        match fate_of(&contacts[i], view, own_altitude_mft, config) {
            Fate::Drawn(assessment) => {
                if assessment.level == level {
                    out.push(Plotted { contact: i, assessment });
                }
            },
            _ => {},
        }
        i = i + 1;
    }
    out
}

/// Decide which contacts are drawn, in which order, and count what happened to the rest.
///
/// `no_position` is how many targets are heard without one. Without own-ship altitude nothing is
/// ever filtered by altitude: you cannot exclude what you cannot measure.
pub fn plan(
    contacts: &[Contact],
    view: &ViewState,
    own_altitude_mft: Option<i64>,
    config: &ThreatConfig,
    no_position: usize,
) -> (r: (Vec<Plotted>, FrameStats))
    requires
        altitude_in_range(own_altitude_mft),
    ensures
        plots(
            r.0@,
            drawing_order(contacts@, *view, own_altitude_mft, *config),
            contacts@,
            own_altitude_mft,
            *config,
        ),
        r.1 == (FrameStats {
            targets_drawn: r.0@.len() as usize,
            targets_outside_range: count_beyond(
                contacts@,
                *view,
                contacts@.len() as int,
            ) as usize,
            targets_outside_altitude: count_filtered(
                contacts@,
                *view,
                own_altitude_mft,
                *config,
                contacts@.len() as int,
            ) as usize,
            targets_no_position: no_position,
            targets_coasting: count_coasting(
                contacts@,
                *view,
                own_altitude_mft,
                *config,
                contacts@.len() as int,
            ) as usize,
            advisories: drawn_at(
                contacts@,
                *view,
                own_altitude_mft,
                *config,
                ThreatLevel::Advisory,
                contacts@.len() as int,
            ).len() as usize,
            alerts: drawn_at(
                contacts@,
                *view,
                own_altitude_mft,
                *config,
                ThreatLevel::Alert,
                contacts@.len() as int,
            ).len() as usize,
            ..FrameStats::blank()
        }),
{
    let mut beyond: usize = 0;
    let mut filtered: usize = 0;
    let mut coasting: usize = 0;
    let mut i: usize = 0;
    while i < contacts.len()
        invariant
            i <= contacts.len(),
            altitude_in_range(own_altitude_mft),
            beyond == count_beyond(contacts@, *view, i as int),
            filtered == count_filtered(contacts@, *view, own_altitude_mft, *config, i as int),
            coasting == count_coasting(contacts@, *view, own_altitude_mft, *config, i as int),
            beyond <= i,
            filtered <= i,
            coasting <= i,
        decreases contacts.len() - i,
    {
        match fate_of(&contacts[i], view, own_altitude_mft, config) {
            Fate::Beyond => {
                beyond = beyond + 1;
            },
            Fate::Filtered => {
                filtered = filtered + 1;
            },
            Fate::Drawn(_) => {
                if contacts[i].reckoned.coasting {
                    coasting = coasting + 1;
                }
            },
        }
        i = i + 1;
    }
    let mut plotted: Vec<Plotted> = plot_level(
        contacts,
        view,
        own_altitude_mft,
        config,
        ThreatLevel::Normal,
    );
    let mut advisory: Vec<Plotted> = plot_level(
        contacts,
        view,
        own_altitude_mft,
        config,
        ThreatLevel::Advisory,
    );
    let mut alert: Vec<Plotted> = plot_level(
        contacts,
        view,
        own_altitude_mft,
        config,
        ThreatLevel::Alert,
    );
    let advisories: usize = advisory.len();
    let alerts: usize = alert.len();
    plotted.append(&mut advisory);
    plotted.append(&mut alert);
    let stats: FrameStats = FrameStats {
        targets_drawn: plotted.len(),
        targets_outside_range: beyond,
        targets_outside_altitude: filtered,
        targets_no_position: no_position,
        targets_unplotted: 0,
        targets_coasting: coasting,
        advisories,
        alerts,
        tags_suppressed: 0,
        airports_drawn: 0,
        airspace_drawn: 0,
    };
    (plotted, stats)
}

/// How many of the first `end` targets have a position.
pub open spec fn count_positional(targets: Seq<Target>, end: int) -> nat
    decreases end,
{
    if end <= 0 {
        0
    } else {
        count_positional(targets, end - 1) + if targets[end - 1].position is Some {
            1nat
        } else {
            0nat
        }
    }
}

/// How many targets are held back for want of an own-ship position: all that have a position of
/// their own, those that would be drawn as a guess included.
///
/// Mode-S-only targets have nothing to plot even with own-ship, so counting them here would
/// promise traffic that a GPS fix would not actually reveal.
pub fn unplotted_count(targets: &[Target]) -> (r: usize)
    ensures
        r == count_positional(targets@, targets@.len() as int),
{
    let mut count: usize = 0;
    let mut i: usize = 0;
    while i < targets.len()
        invariant
            i <= targets.len(),
            count <= i,
            count == count_positional(targets@, i as int),
        decreases targets.len() - i,
    {
        if targets[i].position.is_some() {
            count = count + 1;
        }
        i = i + 1;
    }
    count
}

/// The counts of a frame drawn without own-ship: nothing is plotted, and what is held back is said.
pub fn held_back(targets: &[Target], without_position: usize) -> (r: FrameStats)
    ensures
        r.targets_unplotted == count_positional(targets@, targets@.len() as int),
        r.targets_no_position == without_position,
        r == (FrameStats {
            targets_unplotted: r.targets_unplotted,
            targets_no_position: without_position,
            ..FrameStats::blank()
        }),
{
    FrameStats {
        targets_unplotted: unplotted_count(targets),
        ..FrameStats::off_the_plan(without_position)
    }
}

/// What stands in place of traffic: a headline and a detail.
pub open spec fn notice_of(ever_had_position: bool, connected: bool) -> (Seq<char>, Seq<char>) {
    if ever_had_position {
        ("GPS FIX LOST"@, "traffic hidden until position returns"@)
    } else if connected {
        ("WAITING FOR GPS FIX"@, "connected to Stratux"@)
    } else {
        ("NO STRATUX CONNECTION"@, "retrying"@)
    }
}

/// What stands in place of traffic when there is no own-ship position to plot against: a headline
/// and a detail.
///
/// "Waiting for a fix" and "never seen a position at all" both show nothing; only one is a fault.
pub fn no_position_notice(ever_had_position: bool, connected: bool) -> (r: (
    &'static str,
    &'static str,
))
    ensures
        (r.0@, r.1@) == notice_of(ever_had_position, connected),
{
    if ever_had_position {
        ("GPS FIX LOST", "traffic hidden until position returns")
    } else if connected {
        ("WAITING FOR GPS FIX", "connected to Stratux")
    } else {
        ("NO STRATUX CONNECTION", "retrying")
    }
}

// --- symbols and their labels --------------------------------------------------------------

/// The colour of a symbol, given that of its level.
pub open spec fn symbol_colour_of(base: Color, coasting: bool) -> Color {
    if coasting {
        faded_by(base, 55)
    } else {
        base
    }
}

/// The colour of a label.
pub open spec fn tag_colour_of(theme: Theme, coasting: bool) -> Color {
    if coasting {
        faded_by(theme.tag_text, 60)
    } else {
        theme.tag_text
    }
}

/// The colour of a target's symbol. Coasting targets are dimmed rather than hidden: the pilot
/// should know something is there, and also that it is not certain exactly where.
pub fn symbol_colour(theme: &Theme, level: ThreatLevel, coasting: bool) -> (r: Color)
    ensures
        r == symbol_colour_of(theme.level_colour(level), coasting),
{
    let base: Color = theme.colour_for(level);
    if coasting {
        faded(base, 55)
    } else {
        base
    }
}

/// The colour of a target's label.
pub fn tag_colour(theme: &Theme, coasting: bool) -> (r: Color)
    ensures
        r == tag_colour_of(*theme, coasting),
{
    if coasting {
        faded(theme.tag_text, 60)
    } else {
        theme.tag_text
    }
}

/// The arrow of a climb or a descent.
pub open spec fn trend_of(vertical_speed_fpm: Option<i16>) -> Seq<char> {
    match vertical_speed_fpm {
        Some(v) => if v >= 300 {
            " \u{2191}"@
        } else if v <= -300 {
            " \u{2193}"@
        } else {
            ""@
        },
        None => ""@,
    }
}

/// Climb/descend arrows. Deliberately insensitive: ADS-B vertical speed is noisy, and a marker
/// that flickers between up and down in level flight is worse than none.
pub fn vertical_trend(vertical_speed_fpm: Option<i16>) -> (r: &'static str)
    ensures
        r@ == trend_of(vertical_speed_fpm),
{
    match vertical_speed_fpm {
        Some(v) => if v >= 300 {
            " \u{2191}"
        } else if v <= -300 {
            " \u{2193}"
        } else {
            ""
        },
        None => "",
    }
}

/// The second line of a target's label: relative altitude and trend.
pub fn tag_line(assessment: &Assessment, vertical_speed_fpm: Option<i16>) -> (r: String)
    ensures
        r@ == relative_altitude_text(assessment.relative_altitude_mft) + trend_of(
            vertical_speed_fpm,
        ),
{
    let mut out: String = format_relative_altitude(assessment.relative_altitude_mft);
    out.append(vertical_trend(vertical_speed_fpm));
    out
}

/// An axis-aligned box in screen space, used only for tag collision.
#[derive(Debug, Clone, Copy, PartialEq, Eq, Structural)]
pub struct Rect {
    pub x0: i64,
    pub y0: i64,
    pub x1: i64,
    pub y1: i64,
}

impl Rect {
    /// Whether two boxes have an area in common.
    pub open spec fn meets(self, other: Rect) -> bool {
        self.x0 < other.x1 && other.x0 < self.x1 && self.y0 < other.y1 && other.y0 < self.y1
    }

    pub fn overlaps(&self, other: &Rect) -> (r: bool)
        ensures
            r == self.meets(*other),
    {
        self.x0 < other.x1 && other.x0 < self.x1 && self.y0 < other.y1 && other.y0 < self.y1
    }
}

/// Whether a length leaves room to reckon with.
pub open spec fn modest(v: int) -> bool {
    -4 * LONGEST_SIDE <= v <= 4 * LONGEST_SIDE
}

/// A centred rectangle with a little breathing room.
pub open spec fn padded_around(cx: int, cy: int, width: int, height: int) -> Rect {
    Rect {
        x0: (cx - width / 2 - 3_000) as i64,
        y0: (cy - height / 2 - 3_000) as i64,
        x1: (cx + width / 2 + 3_000) as i64,
        y1: (cy + height / 2 + 3_000) as i64,
    }
}

/// A centred rectangle with a little breathing room, for collision purposes.
pub fn padded_rect(cx: i64, cy: i64, width: i64, height: i64) -> (r: Rect)
    requires
        modest(cx as int),
        modest(cy as int),
        0 <= width <= LONGEST_SIDE,
        0 <= height <= LONGEST_SIDE,
    ensures
        r == padded_around(cx as int, cy as int, width as int, height as int),
{
    Rect {
        x0: cx - width / 2 - 3_000,
        y0: cy - height / 2 - 3_000,
        x1: cx + width / 2 + 3_000,
        y1: cy + height / 2 + 3_000,
    }
}

/// A label to place: where its symbol is, and how wide the wider of its lines is.
#[derive(Debug, Clone, Copy, PartialEq, Eq, Structural)]
pub struct Tag {
    pub x: i64,
    pub y: i64,
    pub width: i64,
}

impl Tag {
    pub open spec fn wf(self) -> bool {
        modest(self.x as int) && modest(self.y as int) && 0 <= self.width <= LONGEST_SIDE
    }
}

/// Where a label goes: its box, which edge of it the text is anchored to, and how far it had to
/// move up or down from its symbol.
#[derive(Debug, Clone, Copy, PartialEq, Eq, Structural)]
pub struct Spot {
    pub rect: Rect,
    pub right_aligned: bool,
    pub shift: i64,
}

/// Height of a line of a label.
pub open spec fn tag_line_height(theme: Theme) -> int {
    theme.font_size_tag * 105 / 100
}

/// How far a candidate position is moved up or down: not at all, then by one line each way, then
/// by a little over two.
pub open spec fn shift_of(theme: Theme, candidate: int) -> int {
    let line = tag_line_height(theme);
    let step = candidate / 2;
    if step <= 0 {
        0
    } else if step == 1 {
        line
    } else if step == 2 {
        -line
    } else if step == 3 {
        line * 22 / 10
    } else {
        -(line * 22 / 10)
    }
}

/// Whether a label would rather stand left of its symbol: the symbol is well to the right.
pub open spec fn prefers_left(layout: Layout, x: int) -> bool {
    (x - layout.content_x0) * 100 > (layout.content_x1 - layout.content_x0) * 62
}

/// Whether a candidate position is left of the symbol.
pub open spec fn is_left(layout: Layout, x: int, candidate: int) -> bool {
    prefers_left(layout, x) == (candidate % 2 == 0)
}

/// A candidate position for a label, of ten, in order of preference.
pub open spec fn candidate_of(layout: Layout, theme: Theme, tag: Tag, candidate: int) -> Spot {
    let left = is_left(layout, tag.x as int, candidate);
    let gap = theme.symbol_size + 5_000;
    let x0 = if left {
        tag.x - gap - tag.width
    } else {
        tag.x + gap
    };
    let shift = shift_of(theme, candidate);
    let line = tag_line_height(theme);
    Spot {
        rect: Rect {
            x0: x0 as i64,
            y0: (tag.y - line + shift) as i64,
            x1: (x0 + tag.width) as i64,
            y1: (tag.y + line + shift) as i64,
        },
        right_aligned: left,
        shift: shift as i64,
    }
}

fn candidate_spot(layout: &Layout, theme: &Theme, tag: &Tag, candidate: usize) -> (r: Spot)
    requires
        layout.wf(),
        theme.sizes_ok(),
        tag.wf(),
        candidate < 10,
    ensures
        r == candidate_of(*layout, *theme, *tag, candidate as int),
{
    let line: i64 = theme.font_size_tag * 105 / 100;
    let gap: i64 = theme.symbol_size + 5_000;
    let prefer_left: bool = (tag.x - layout.content_x0) * 100 > layout.content_width() * 62;
    let left: bool = prefer_left == (candidate % 2 == 0);
    let step: usize = candidate / 2;
    let far: i64 = line * 22 / 10;
    let shift: i64 = if step == 0 {
        0
    } else if step == 1 {
        line
    } else if step == 2 {
        -line
    } else if step == 3 {
        far
    } else {
        -far
    };
    let x0: i64 = if left {
        tag.x - gap - tag.width
    } else {
        tag.x + gap
    };
    Spot {
        rect: Rect { x0, y0: tag.y - line + shift, x1: x0 + tag.width, y1: tag.y + line + shift },
        right_aligned: left,
        shift,
    }
}

/// Whether a box keeps clear of all of a list.
pub open spec fn clear_of(rect: Rect, taken: Seq<Rect>) -> bool {
    forall|i: int| 0 <= i < taken.len() ==> !(#[trigger] taken[i]).meets(rect)
}

/// Whether a label may go somewhere: inside the content area, and clear of what is taken. Off the
/// edge is as bad as a collision.
pub open spec fn allowed(layout: Layout, rect: Rect, taken: Seq<Rect>) -> bool {
    &&& rect.x0 >= layout.content_x0 + layout.margin
    &&& rect.x1 <= layout.content_x1 - layout.margin
    &&& clear_of(rect, taken)
}

fn is_allowed(layout: &Layout, rect: &Rect, taken: &Vec<Rect>) -> (r: bool)
    requires
        layout.wf(),
    ensures
        r == allowed(*layout, *rect, taken@),
{
    if rect.x0 < layout.content_left() || rect.x1 > layout.content_right() {
        return false;
    }
    let mut i: usize = 0;
    while i < taken.len()
        invariant
            i <= taken.len(),
            forall|k: int| 0 <= k < i ==> !(#[trigger] taken@[k]).meets(*rect),
        decreases taken.len() - i,
    {
        if taken[i].overlaps(rect) {
            assert(taken@[i as int].meets(*rect));
            return false;
        }
        i = i + 1;
    }
    true
}

/// The first candidate position, from one on, a label may go to.
pub open spec fn first_allowed(
    layout: Layout,
    theme: Theme,
    tag: Tag,
    taken: Seq<Rect>,
    candidate: int,
) -> Option<Spot>
    decreases 10 - candidate,
{
    if candidate >= 10 {
        None
    } else {
        let spot = candidate_of(layout, theme, tag, candidate);
        if allowed(layout, spot.rect, taken) {
            Some(spot)
        } else {
            first_allowed(layout, theme, tag, taken, candidate + 1)
        }
    }
}

fn find_spot(layout: &Layout, theme: &Theme, tag: &Tag, taken: &Vec<Rect>) -> (r: Option<Spot>)
    requires
        layout.wf(),
        theme.sizes_ok(),
        tag.wf(),
    ensures
        r == first_allowed(*layout, *theme, *tag, taken@, 0),
{
    let mut candidate: usize = 0;
    while candidate < 10
        invariant
            candidate <= 10,
            layout.wf(),
            theme.sizes_ok(),
            tag.wf(),
            first_allowed(*layout, *theme, *tag, taken@, 0) == first_allowed(
                *layout,
                *theme,
                *tag,
                taken@,
                candidate as int,
            ),
        decreases 10 - candidate,
    {
        let spot: Spot = candidate_spot(layout, theme, tag, candidate);
        if is_allowed(layout, &spot.rect, taken) {
            return Some(spot);
        }
        candidate = candidate + 1;
    }
    None
}

/// What is taken before any label is placed: both bars and both strips. They are drawn after the
/// plan view, so a tag placed under one is not clipped, it is silently covered: the symbol stays
/// visible while its label vanishes, which is the most confusing possible outcome.
pub open spec fn chrome_of(layout: Layout) -> Seq<Rect> {
    seq![
        Rect {
            x0: 0,
            y0: 0,
            x1: layout.width,
            y1: (layout.status_bar_height + 2_000) as i64,
        },
        Rect {
            x0: 0,
            y0: (layout.height - layout.footer_height) as i64,
            x1: layout.width,
            y1: layout.height,
        },
        Rect { x0: 0, y0: 0, x1: layout.content_x0, y1: layout.height },
        Rect { x0: layout.content_x1, y0: 0, x1: layout.width, y1: layout.height },
    ]
}

/// What is taken once the first `k` labels are placed.
pub open spec fn taken_after(
    layout: Layout,
    theme: Theme,
    tags: Seq<Tag>,
    reserved: Seq<Rect>,
    k: int,
) -> Seq<Rect>
    decreases k, 0int,
{
    if k <= 0 {
        chrome_of(layout) + reserved
    } else {
        let before = taken_after(layout, theme, tags, reserved, k - 1);
        match first_allowed(layout, theme, tags[k - 1], before, 0) {
            Some(spot) => before.push(spot.rect),
            None => before,
        }
    }
}

/// Where a label goes, given those before it; `None` where there is no room for it.
pub open spec fn spot_of(
    layout: Layout,
    theme: Theme,
    tags: Seq<Tag>,
    reserved: Seq<Rect>,
    k: int,
) -> Option<Spot> {
    first_allowed(layout, theme, tags[k], taken_after(layout, theme, tags, reserved, k), 0)
}

/// How many of the first `k` labels there is no room for.
pub open spec fn suppressed_of(
    layout: Layout,
    theme: Theme,
    tags: Seq<Tag>,
    reserved: Seq<Rect>,
    k: int,
) -> nat
    decreases k,
{
    if k <= 0 {
        0
    } else {
        suppressed_of(layout, theme, tags, reserved, k - 1) + if spot_of(
            layout,
            theme,
            tags,
            reserved,
            k - 1,
        ) is None {
            1nat
        } else {
            0nat
        }
    }
}

/// Greedy tag placement: where each label goes, and how many had to be dropped.
///
/// Each tag gets a small set of candidate positions, tried in order of preference: beside the
/// symbol, then on its other side, then nudged vertically. The first that collides with nothing
/// wins. A target that cannot fit anywhere keeps its symbol and loses its label: the symbol
/// carries the position and threat colour, which is the safety-critical part. Hand the tags over
/// most urgent first, so that when labels compete for space the most important target keeps its
/// preferred position.
///
/// `reserved` is what the range labels and the compass rose take.
pub fn place_tags(layout: &Layout, theme: &Theme, tags: &[Tag], reserved: &[Rect]) -> (r: (
    Vec<Option<Spot>>,
    usize,
))
    requires
        layout.wf(),
        theme.sizes_ok(),
        forall|k: int| 0 <= k < tags@.len() ==> (#[trigger] tags@[k]).wf(),
    ensures
        r.0@.len() == tags@.len(),
        forall|k: int|
            0 <= k < tags@.len() ==> #[trigger] r.0@[k] == spot_of(
                *layout,
                *theme,
                tags@,
                reserved@,
                k,
            ),
        r.1 == suppressed_of(*layout, *theme, tags@, reserved@, tags@.len() as int),
{
    let mut taken: Vec<Rect> = Vec::new();
    taken.push(
        Rect { x0: 0, y0: 0, x1: layout.width, y1: layout.status_bar_height + 2_000 },
    );
    taken.push(
        Rect { x0: 0, y0: layout.footer_y0(), x1: layout.width, y1: layout.height },
    );
    taken.push(Rect { x0: 0, y0: 0, x1: layout.content_x0, y1: layout.height });
    taken.push(Rect { x0: layout.content_x1, y0: 0, x1: layout.width, y1: layout.height });
    assert(taken@ =~= chrome_of(*layout));
    let mut i: usize = 0;
    while i < reserved.len()
        invariant
            i <= reserved.len(),
            taken@ == chrome_of(*layout) + reserved@.take(i as int),
        decreases reserved.len() - i,
    {
        taken.push(reserved[i]);
        i = i + 1;
        assert(taken@ =~= chrome_of(*layout) + reserved@.take(i as int));
    }
    assert(reserved@.take(i as int) =~= reserved@);
    let mut spots: Vec<Option<Spot>> = Vec::new();
    let mut suppressed: usize = 0;
    let mut k: usize = 0;
    while k < tags.len()
        invariant
            k <= tags.len(),
            layout.wf(),
            theme.sizes_ok(),
            forall|m: int| 0 <= m < tags@.len() ==> (#[trigger] tags@[m]).wf(),
            spots@.len() == k,
            taken@ == taken_after(*layout, *theme, tags@, reserved@, k as int),
            forall|m: int|
                0 <= m < k ==> #[trigger] spots@[m] == spot_of(
                    *layout,
                    *theme,
                    tags@,
                    reserved@,
                    m,
                ),
            suppressed == suppressed_of(*layout, *theme, tags@, reserved@, k as int),
            suppressed <= k,
        decreases tags.len() - k,
    {
        let spot: Option<Spot> = find_spot(layout, theme, &tags[k], &taken);
        assert(tags@[k as int].wf());
        match spot {
            Some(placed) => {
                taken.push(placed.rect);
            },
            None => {
                suppressed = suppressed + 1;
            },
        }
        spots.push(spot);
        k = k + 1;
    }
    (spots, suppressed)
}

// --- rings and rose ------------------------------------------------------------------------

/// Smallest separation between two angles. Always from 0 to 180 degrees.
pub open spec fn separation(a: int, b: int) -> int {
    let delta = (a - b) % 360_000;
    if delta > 180_000 {
        360_000 - delta
    } else {
        delta
    }
}

/// Smallest separation between two angles, in thousandths of a degree.
pub fn angular_distance(a: i32, b: i32) -> (r: i32)
    ensures
        r == separation(a as int, b as int),
        0 <= r <= 180_000,
{
    let delta: i64 = (a as i64 - b as i64) % 360_000;
    let delta: i64 = if delta < 0 {
        delta + 360_000
    } else {
        delta
    };
    assert(delta == (a as int - b as int) % 360_000);
    if delta > 180_000 {
        (360_000 - delta) as i32
    } else {
        delta as i32
    }
}

/// The diagonals a range label may stand on: upper left, upper right, lower right, lower left.
pub const LABEL_ANGLES: [i32; 4] = [-45_000, 45_000, 135_000, -135_000];

/// Of the first `k + 1` diagonals, the one furthest from north, the later of two equally far.
pub open spec fn diagonal_of(north_mdeg: int, k: int) -> int
    decreases k,
{
    if k <= 0 {
        0
    } else {
        let best = diagonal_of(north_mdeg, k - 1);
        if separation(LABEL_ANGLES[k] as int, north_mdeg) >= separation(
            LABEL_ANGLES[best] as int,
            north_mdeg,
        ) {
            k
        } else {
            best
        }
    }
}

/// Which diagonal the range labels stand on.
///
/// They live on a fixed screen diagonal: a distance is not a direction, so they must not rotate
/// with the world in track-up. Which one is chosen dynamically: the north pointer sweeps the full
/// circle as own-ship turns, so any fixed corner eventually collides with it. It is whichever is
/// furthest from north, the later of two equally far; the first while there is no north to avoid.
pub open spec fn label_diagonal(north_mdeg: Option<i32>) -> int {
    match north_mdeg {
        Some(north) => diagonal_of(north as int, 3),
        None => 0,
    }
}

fn choose_diagonal(north_mdeg: Option<i32>) -> (r: usize)
    ensures
        r == label_diagonal(north_mdeg),
        r < 4,
{
    let north: i32 = match north_mdeg {
        Some(north) => north,
        None => return 0,
    };
    let mut best: usize = 0;
    let mut k: usize = 1;
    while k < 4
        invariant
            best < k <= 4,
            best == diagonal_of(north as int, k - 1),
        decreases 4 - k,
    {
        if angular_distance(LABEL_ANGLES[k], north) >= angular_distance(
            LABEL_ANGLES[best],
            north,
        ) {
            best = k;
        }
        k = k + 1;
    }
    best
}

/// A range without a decimal where it is within a twentieth of a whole number.
pub open spec fn range_text(range_mnm: nat) -> Seq<char> {
    let whole = (range_mnm + 500) / 1000;
    let off = if range_mnm >= whole * 1000 {
        range_mnm - whole * 1000
    } else {
        whole * 1000 - range_mnm
    };
    if off < 50 {
        decimal(whole)
    } else {
        to_tenths(range_mnm, 1000)
    }
}

/// A range as the rings label it. The selectable set is all whole numbers, and half of one may not
/// be.
pub fn format_range(range_mnm: u32) -> (r: String)
    ensures
        r@ == range_text(range_mnm as nat),
{
    let range: u64 = range_mnm as u64;
    let whole: u64 = (range + 500) / 1000;
    let off: u64 = if range >= whole * 1000 {
        range - whole * 1000
    } else {
        whole * 1000 - range
    };
    let mut out: String = String::new();
    if off < 50 {
        push_decimal(&mut out, whole);
    } else {
        push_tenths(&mut out, range, 1000);
    }
    assert(out@ =~= range_text(range_mnm as nat));
    out
}

/// Compass rose label for a bearing: letters on the cardinals, tens of degrees on the other
/// multiples of thirty, nothing elsewhere.
pub open spec fn rose_label(degrees: int) -> Seq<char> {
    let d = degrees % 360;
    if d == 0 {
        "N"@
    } else if d == 30 {
        "3"@
    } else if d == 60 {
        "6"@
    } else if d == 90 {
        "E"@
    } else if d == 120 {
        "12"@
    } else if d == 150 {
        "15"@
    } else if d == 180 {
        "S"@
    } else if d == 210 {
        "21"@
    } else if d == 240 {
        "24"@
    } else if d == 270 {
        "W"@
    } else if d == 300 {
        "30"@
    } else if d == 330 {
        "33"@
    } else {
        ""@
    }
}

/// Compass rose label for a bearing, in the convention every heading indicator uses: letters on
/// the cardinals, tens of degrees elsewhere.
pub fn compass_label(degrees: u16) -> (r: &'static str)
    ensures
        r@ == rose_label(degrees as int),
{
    match degrees % 360 {
        0 => "N",
        30 => "3",
        60 => "6",
        90 => "E",
        120 => "12",
        150 => "15",
        180 => "S",
        210 => "21",
        240 => "24",
        270 => "W",
        300 => "30",
        330 => "33",
        _ => "",
    }
}

/// How one mark of the compass rose is drawn.
#[derive(Debug, Clone, Copy, PartialEq, Eq, Structural)]
pub struct RoseMark {
    /// Where the tick starts; it ends on the outer ring.
    pub inner_radius: i64,
    pub tick_width: i64,
    /// Where the middle of the label is.
    pub label_radius: i64,
    pub label_size: i64,
    pub label_colour: Color,
}

/// How one mark of the compass rose is drawn.
pub open spec fn rose_of(degrees: int, layout: Layout, theme: Theme) -> RoseMark {
    let cardinal = degrees % 90 == 0;
    let size = if cardinal {
        theme.font_size_small
    } else {
        theme.font_size_tag
    };
    RoseMark {
        inner_radius: (if cardinal {
            layout.outer_radius * 90 / 100
        } else {
            layout.outer_radius * 95 / 100
        }) as i64,
        tick_width: if cardinal {
            theme.line_width
        } else {
            1_000
        },
        label_radius: (layout.outer_radius + size * 85 / 100) as i64,
        label_size: size,
        label_colour: if degrees == 0 {
            theme.ring_label
        } else if cardinal {
            theme.text_secondary
        } else {
            theme.compass_tick
        },
    }
}

/// How one mark of the compass rose is drawn: ticks longer on the cardinals, and north, the
/// reference the pilot orients from, brighter than the rest. The others are a scale, and a scale
/// that shouts competes with the traffic.
pub fn rose_mark(degrees: u16, layout: &Layout, theme: &Theme) -> (r: RoseMark)
    requires
        layout.wf(),
        theme.sizes_ok(),
    ensures
        r == rose_of(degrees as int, *layout, *theme),
{
    let cardinal: bool = degrees % 90 == 0;
    let label_size: i64 = if cardinal {
        theme.font_size_small
    } else {
        theme.font_size_tag
    };
    RoseMark {
        inner_radius: if cardinal {
            layout.outer_radius * 90 / 100
        } else {
            layout.outer_radius * 95 / 100
        },
        tick_width: if cardinal {
            theme.line_width
        } else {
            1_000
        },
        label_radius: layout.outer_radius + label_size * 85 / 100,
        label_size,
        label_colour: if degrees == 0 {
            theme.ring_label
        } else if cardinal {
            theme.text_secondary
        } else {
            theme.compass_tick
        },
    }
}

// --- the picture ---------------------------------------------------------------------------

/// The direction of a diagonal.
pub open spec fn diagonal_turn(k: int) -> Turn {
    let half: i64 = 707_106_781;
    if k == 0 {
        Turn { sin: -707_106_781i64, cos: half }
    } else if k == 1 {
        Turn { sin: half, cos: half }
    } else if k == 2 {
        Turn { sin: half, cos: -707_106_781i64 }
    } else {
        Turn { sin: -707_106_781i64, cos: -707_106_781i64 }
    }
}

fn turn_of_diagonal(k: usize) -> (r: Turn)
    ensures
        r == diagonal_turn(k as int),
        r.wf(),
{
    let half: i64 = 707_106_781;
    match k {
        0 => Turn { sin: -half, cos: half },
        1 => Turn { sin: half, cos: half },
        2 => Turn { sin: half, cos: -half },
        _ => Turn { sin: -half, cos: -half },
    }
}

/// How the range labels are written.
pub open spec fn ring_label_style(theme: Theme) -> Style {
    Style {
        colour: theme.ring_label,
        size: theme.font_size_small,
        align: Align::Center,
        baseline: Baseline::Middle,
    }
}

/// Where a ring of this radius is labelled.
pub open spec fn ring_label_at(radius: int, diagonal: int, layout: Layout, theme: Theme) -> (
    int,
    int,
) {
    point_along(layout.center, diagonal_turn(diagonal), radius - theme.font_size_small * 9 / 10)
}

/// A ring and its label.
pub open spec fn ring_marks(
    range_mnm: int,
    radius: int,
    diagonal: int,
    layout: Layout,
    theme: Theme,
) -> Seq<Painted> {
    let (x, y) = ring_label_at(radius, diagonal, layout, theme);
    seq![
        Painted::Ring {
            at: (layout.center.0 as int, layout.center.1 as int),
            radius,
            colour: theme.ring,
            width: theme.line_width * 9 / 10,
        },
        text_at(x, y, range_text(range_mnm as nat), ring_label_style(theme)),
    ]
}

/// The box a ring's label takes.
pub open spec fn ring_rect(
    radius: int,
    diagonal: int,
    width: int,
    layout: Layout,
    theme: Theme,
) -> Rect {
    let (x, y) = ring_label_at(radius, diagonal, layout, theme);
    padded_around(x, y, width, theme.font_size_small as int)
}

fn put_ring(
    out: &mut Vec<Mark>,
    range_mnm: u32,
    radius: i64,
    diagonal: usize,
    width: i64,
    layout: &Layout,
    theme: &Theme,
) -> (r: Rect)
    requires
        layout.wf(),
        theme.sizes_ok(),
        0 <= radius <= LONGEST_SIDE,
        0 <= width <= LONGEST_SIDE,
    ensures
        drawn(final(out)@) == drawn(old(out)@) + ring_marks(
            range_mnm as int,
            radius as int,
            diagonal as int,
            *layout,
            *theme,
        ),
        r == ring_rect(radius as int, diagonal as int, width as int, *layout, *theme),
{
    let ghost was = drawn(out@);
    let width_of_line: i64 = theme.line_width * 9 / 10;
    put(
        out,
        Mark::Ring { at: layout.center, radius, colour: theme.ring, width: width_of_line },
    );
    let turn: Turn = turn_of_diagonal(diagonal);
    let (x, y) = along(layout.center, turn, radius - theme.font_size_small * 9 / 10);
    let text: String = format_range(range_mnm);
    let style: Style = Style::new(
        theme.ring_label,
        theme.font_size_small,
        Align::Center,
        Baseline::Middle,
    );
    put_text(out, x, y, text.as_str(), style);
    assert(drawn(out@) =~= was + ring_marks(
        range_mnm as int,
        radius as int,
        diagonal as int,
        *layout,
        *theme,
    ));
    padded_rect(x, y, width, theme.font_size_small)
}

/// A mark of the rose in a direction: its tick, and its label outside the ring.
pub open spec fn rose_marks_at(degrees: int, turn: Turn, layout: Layout, theme: Theme) -> Seq<
    Painted,
> {
    let mark = rose_of(degrees, layout, theme);
    let (x, y) = point_along(layout.center, turn, mark.label_radius as int);
    seq![
        stroke(
            point_along(layout.center, turn, mark.inner_radius as int),
            point_along(layout.center, turn, layout.outer_radius as int),
            theme.compass_tick,
            mark.tick_width as int,
        ),
        text_at(
            x,
            y,
            rose_label(degrees),
            Style {
                colour: mark.label_colour,
                size: mark.label_size,
                align: Align::Center,
                baseline: Baseline::Middle,
            },
        ),
    ]
}

/// The box a mark's label takes.
pub open spec fn rose_rect(degrees: int, turn: Turn, layout: Layout, theme: Theme) -> Rect {
    let mark = rose_of(degrees, layout, theme);
    let (x, y) = point_along(layout.center, turn, mark.label_radius as int);
    padded_around(
        x,
        y,
        mark.label_size * rose_label(degrees).len() * 62 / 100,
        mark.label_size as int,
    )
}

/// The first `n` marks of the rose, one every thirty degrees.
pub open spec fn rose_marks(rose: Seq<Turn>, n: int, layout: Layout, theme: Theme) -> Seq<Painted>
    decreases n,
{
    if n <= 0 {
        seq![]
    } else {
        rose_marks(rose, n - 1, layout, theme) + rose_marks_at(
            30 * (n - 1),
            rose[n - 1],
            layout,
            theme,
        )
    }
}

/// The boxes the labels of the first `n` marks take.
pub open spec fn rose_rects(rose: Seq<Turn>, n: int, layout: Layout, theme: Theme) -> Seq<Rect> {
    Seq::new(n as nat, |k: int| rose_rect(30 * k, rose[k], layout, theme))
}

proof fn rose_labels_are_short(degrees: int)
    ensures
        rose_label(degrees).len() <= 2,
{
    reveal_strlit("N");
    reveal_strlit("3");
    reveal_strlit("6");
    reveal_strlit("E");
    reveal_strlit("12");
    reveal_strlit("15");
    reveal_strlit("S");
    reveal_strlit("21");
    reveal_strlit("24");
    reveal_strlit("W");
    reveal_strlit("30");
    reveal_strlit("33");
    reveal_strlit("");
}

fn put_rose_mark(
    out: &mut Vec<Mark>,
    degrees: u16,
    turn: Turn,
    layout: &Layout,
    theme: &Theme,
) -> (r: Rect)
    requires
        layout.wf(),
        theme.sizes_ok(),
        turn.wf(),
    ensures
        drawn(final(out)@) == drawn(old(out)@) + rose_marks_at(
            degrees as int,
            turn,
            *layout,
            *theme,
        ),
        r == rose_rect(degrees as int, turn, *layout, *theme),
{
    let ghost was = drawn(out@);
    let mark: RoseMark = rose_mark(degrees, layout, theme);
    put_line(
        out,
        along(layout.center, turn, mark.inner_radius),
        along(layout.center, turn, layout.outer_radius),
        theme.compass_tick,
        mark.tick_width,
    );
    let (x, y) = along(layout.center, turn, mark.label_radius);
    let text: &str = compass_label(degrees);
    let style: Style = Style::new(
        mark.label_colour,
        mark.label_size,
        Align::Center,
        Baseline::Middle,
    );
    put_text(out, x, y, text, style);
    assert(drawn(out@) =~= was + rose_marks_at(degrees as int, turn, *layout, *theme));
    proof {
        rose_labels_are_short(degrees as int);
    }
    let letters: i64 = text.unicode_len() as i64;
    let size: i64 = mark.label_size;
    assert(0 <= size * letters <= 20_000_000) by (nonlinear_arith)
        requires
            0 <= size <= 10_000_000,
            0 <= letters <= 2,
    ;
    padded_rect(x, y, size * letters * 62 / 100, size)
}

/// The rings, their labels and the rose.
pub open spec fn rings_marks(
    range_mnm: int,
    north_mdeg: Option<i32>,
    rose: Seq<Turn>,
    layout: Layout,
    theme: Theme,
) -> Seq<Painted> {
    let diagonal = label_diagonal(north_mdeg);
    let radius = layout.outer_radius as int;
    seq![
        Painted::Disc {
            at: (layout.center.0 as int, layout.center.1 as int),
            radius,
            colour: theme.ring_fill,
        },
    ] + ring_marks(range_mnm, radius, diagonal, layout, theme) + ring_marks(
        range_mnm / 2,
        radius / 2,
        diagonal,
        layout,
        theme,
    ) + rose_marks(rose, 12, layout, theme)
}

/// The boxes they take.
pub open spec fn rings_rects(
    north_mdeg: Option<i32>,
    rose: Seq<Turn>,
    widths: (int, int),
    layout: Layout,
    theme: Theme,
) -> Seq<Rect> {
    let diagonal = label_diagonal(north_mdeg);
    let radius = layout.outer_radius as int;
    seq![
        ring_rect(radius, diagonal, widths.0, layout, theme),
        ring_rect(radius / 2, diagonal, widths.1, layout, theme),
    ] + rose_rects(rose, 12, layout, theme)
}

/// Range rings, compass rose and range labels, and the boxes they take.
///
/// Two rings: the selected range and half of it. Only the outer one is filled; filling both would
/// double the alpha in the middle, making the inner ring look like a separate region. The boxes are
/// handed to [`place_tags`], so that traffic tags route around the labels rather than being drawn
/// straight through them.
///
/// `north_mdeg` is where north is on screen, if it is known, `rose` the directions of the twelve
/// marks, and `widths` how wide the labels of the selected range and of half of it are.
pub fn draw_rings(
    view: &ViewState,
    north_mdeg: Option<i32>,
    rose: &[Turn],
    widths: (i64, i64),
    layout: &Layout,
    theme: &Theme,
) -> (r: (Vec<Mark>, Vec<Rect>))
    requires
        layout.wf(),
        theme.sizes_ok(),
        rose@.len() == 12,
        forall|k: int| 0 <= k < 12 ==> (#[trigger] rose@[k]).wf(),
        0 <= widths.0 <= LONGEST_SIDE,
        0 <= widths.1 <= LONGEST_SIDE,
    ensures
        drawn(r.0@) == rings_marks(
            view.range_mnm as int,
            north_mdeg,
            rose@,
            *layout,
            *theme,
        ),
        r.1@ == rings_rects(
            north_mdeg,
            rose@,
            (widths.0 as int, widths.1 as int),
            *layout,
            *theme,
        ),
{
    let diagonal: usize = choose_diagonal(north_mdeg);
    let radius: i64 = layout.outer_radius;
    let mut out: Vec<Mark> = nothing();
    let mut taken: Vec<Rect> = Vec::new();
    put(&mut out, Mark::Disc { at: layout.center, radius, colour: theme.ring_fill });
    let range: u32 = view.range_mnm;
    taken.push(put_ring(&mut out, range, radius, diagonal, widths.0, layout, theme));
    taken.push(put_ring(&mut out, range / 2, radius / 2, diagonal, widths.1, layout, theme));
    let ghost ringed = drawn(out@);
    let ghost labels = taken@;
    let mut k: usize = 0;
    assert(drawn(out@) =~= ringed + rose_marks(rose@, 0, *layout, *theme));
    assert(taken@ =~= labels + rose_rects(rose@, 0, *layout, *theme));
    while k < 12
        invariant
            k <= 12,
            layout.wf(),
            theme.sizes_ok(),
            rose@.len() == 12,
            forall|k: int| 0 <= k < 12 ==> (#[trigger] rose@[k]).wf(),
            drawn(out@) == ringed + rose_marks(rose@, k as int, *layout, *theme),
            taken@ == labels + rose_rects(rose@, k as int, *layout, *theme),
        decreases 12 - k,
    {
        let turn: Turn = rose[k];
        assert(rose@[k as int].wf());
        let rect: Rect = put_rose_mark(&mut out, 30 * k as u16, turn, layout, theme);
        taken.push(rect);
        k = k + 1;
        assert(drawn(out@) =~= ringed + rose_marks(rose@, k as int, *layout, *theme));
        assert(taken@ =~= labels + rose_rects(rose@, k as int, *layout, *theme));
    }
    assert(drawn(out@) =~= rings_marks(range as int, north_mdeg, rose@, *layout, *theme));
    assert(taken@ =~= rings_rects(
        north_mdeg,
        rose@,
        (widths.0 as int, widths.1 as int),
        *layout,
        *theme,
    ));
    (out, taken)
}

/// A target's symbol, turned along its track if it has one. A dark outline under it keeps it legible
/// over the ring fill and the weather; the barb that points where it is going is there only when
/// there is a velocity solution to point it with.
pub open spec fn symbol_marks(
    contact: Contact,
    level: ThreatLevel,
    projection: Projection,
    theme: Theme,
) -> Seq<Painted> {
    let shape = category_shape(contact.target.emitter_category as int);
    let colour = symbol_colour_of(theme.level_colour(level), contact.reckoned.coasting);
    let size = theme.symbol_size as int;
    seq![
        Painted::Turn {
            at: (contact.screen.0 as int, contact.screen.1 as int),
            mdeg: match contact.target.track_mdeg {
                Some(track) => track - projection.rotation_mdeg,
                None => 0,
            },
            down: 0,
        },
        Painted::Symbol {
            outline: outline(shape),
            size,
            colour: theme.target_outline,
            width: Some((theme.line_width * 22 / 10) as i64),
        },
        Painted::Symbol {
            outline: outline(shape),
            size,
            colour,
            width: if shape == SymbolShape::Rotorcraft {
                Some(theme.line_width)
            } else {
                None
            },
        },
    ] + if contact.target.track_mdeg is Some {
        seq![
            stroke((0, -size), (0, -size - size * 9 / 10), colour, theme.line_width as int),
        ]
    } else {
        seq![]
    } + seq![Painted::Unturn]
}

fn put_symbol(
    out: &mut Vec<Mark>,
    contact: &Contact,
    level: ThreatLevel,
    projection: &Projection,
    theme: &Theme,
)
    requires
        theme.sizes_ok(),
    ensures
        drawn(final(out)@) == drawn(old(out)@) + symbol_marks(
            *contact,
            level,
            *projection,
            *theme,
        ),
{
    let ghost was = drawn(out@);
    let shape: SymbolShape = shape_for_category(contact.target.emitter_category);
    let colour: Color = symbol_colour(theme, level, contact.reckoned.coasting);
    let size: i64 = theme.symbol_size;
    let mdeg: i64 = match contact.target.track_mdeg {
        Some(track) => projection.screen_angle_mdeg(track),
        None => 0,
    };
    put(out, Mark::Turn { at: contact.screen, mdeg, down: 0 });
    put(
        out,
        Mark::Symbol {
            outline: build(shape),
            size,
            colour: theme.target_outline,
            width: Some(theme.line_width * 22 / 10),
        },
    );
    let width: Option<i64> = if is_stroke_only(shape) {
        Some(theme.line_width)
    } else {
        None
    };
    put(out, Mark::Symbol { outline: build(shape), size, colour, width });
    if contact.target.track_mdeg.is_some() {
        let (from, to) = heading_barb(size, size * 9 / 10);
        put_line(out, from, to, colour, theme.line_width);
    }
    put(out, Mark::Unturn);
    assert(drawn(out@) =~= was + symbol_marks(*contact, level, *projection, *theme));
}

/// The symbols of the first `n` targets.
pub open spec fn symbols_marks(
    contacts: Seq<Contact>,
    plotted: Seq<Plotted>,
    n: int,
    projection: Projection,
    theme: Theme,
) -> Seq<Painted>
    decreases n,
{
    if n <= 0 {
        seq![]
    } else {
        symbols_marks(contacts, plotted, n - 1, projection, theme) + symbol_marks(
            contacts[plotted[n - 1].contact as int],
            plotted[n - 1].assessment.level,
            projection,
            theme,
        )
    }
}

/// Own-ship, outlined so that it stays visible against a filled ring or weather.
pub open spec fn ownship_marks(
    view: ViewState,
    own_track_mdeg: Option<i32>,
    layout: Layout,
    theme: Theme,
) -> Seq<Painted> {
    seq![
        Painted::Turn {
            at: (layout.center.0 as int, layout.center.1 as int),
            mdeg: view.orientation.symbol_turned_by(own_track_mdeg) as int,
            down: 0,
        },
        Painted::Symbol {
            outline: ownship_outline(),
            size: theme.symbol_size as int,
            colour: theme.target_outline,
            width: Some((theme.line_width * 2) as i64),
        },
        Painted::Symbol {
            outline: ownship_outline(),
            size: theme.symbol_size as int,
            colour: theme.ownship,
            width: None,
        },
        Painted::Unturn,
    ]
}

fn put_ownship(
    out: &mut Vec<Mark>,
    view: &ViewState,
    own_track_mdeg: Option<i32>,
    layout: &Layout,
    theme: &Theme,
)
    requires
        theme.sizes_ok(),
    ensures
        drawn(final(out)@) == drawn(old(out)@) + ownship_marks(
            *view,
            own_track_mdeg,
            *layout,
            *theme,
        ),
{
    let ghost was = drawn(out@);
    let mdeg: i64 = view.orientation.ownship_rotation_mdeg(own_track_mdeg) as i64;
    let size: i64 = theme.symbol_size;
    put(out, Mark::Turn { at: layout.center, mdeg, down: 0 });
    put(
        out,
        Mark::Symbol {
            outline: ownship(),
            size,
            colour: theme.target_outline,
            width: Some(theme.line_width * 2),
        },
    );
    put(out, Mark::Symbol { outline: ownship(), size, colour: theme.ownship, width: None });
    put(out, Mark::Unturn);
    assert(drawn(out@) =~= was + ownship_marks(*view, own_track_mdeg, *layout, *theme));
}

/// What a target is called, and how wide the wider of its label's two lines is.
pub struct Label {
    pub identity: String,
    pub width: i64,
}

/// Where the labels want to be, most urgent first.
pub open spec fn tags_of(
    contacts: Seq<Contact>,
    plotted: Seq<Plotted>,
    labels: Seq<Label>,
) -> Seq<Tag> {
    Seq::new(
        plotted.len(),
        |k: int|
            Tag {
                x: contacts[plotted[plotted.len() - 1 - k].contact as int].screen.0,
                y: contacts[plotted[plotted.len() - 1 - k].contact as int].screen.1,
                width: labels[k].width,
            },
    )
}

/// A label's two lines where there was room for them, and a leader where it had to move away from
/// its symbol; nothing where there was none.
pub open spec fn tag_marks(
    contact: Contact,
    assessment: Assessment,
    identity: Seq<char>,
    spot: Option<Spot>,
    theme: Theme,
) -> Seq<Painted> {
    match spot {
        None => seq![],
        Some(spot) => {
            let style = Style {
                colour: tag_colour_of(theme, contact.reckoned.coasting),
                size: theme.font_size_tag,
                align: if spot.right_aligned {
                    Align::Right
                } else {
                    Align::Left
                },
                baseline: Baseline::Middle,
            };
            let anchor = if spot.right_aligned {
                spot.rect.x1 as int
            } else {
                spot.rect.x0 as int
            };
            let y = contact.screen.1 + spot.shift;
            let half = tag_line_height(theme) / 2;
            seq![
                text_at(anchor, y - half, identity, style),
                text_at(
                    anchor,
                    y + half,
                    relative_altitude_text(assessment.relative_altitude_mft) + trend_of(
                        contact.target.vertical_speed_fpm,
                    ),
                    style,
                ),
            ] + if spot.shift != 0 {
                seq![
                    stroke(
                        (contact.screen.0 as int, contact.screen.1 as int),
                        (anchor, y),
                        faded_by(theme.tag_text, 45),
                        1_000,
                    ),
                ]
            } else {
                seq![]
            }
        },
    }
}

fn put_tag(
    out: &mut Vec<Mark>,
    contact: &Contact,
    assessment: &Assessment,
    identity: &str,
    spot: Option<Spot>,
    theme: &Theme,
)
    requires
        theme.sizes_ok(),
        modest(contact.screen.1 as int),
        spot matches Some(spot) ==> modest(spot.shift as int),
    ensures
        drawn(final(out)@) == drawn(old(out)@) + tag_marks(
            *contact,
            *assessment,
            identity@,
            spot,
            *theme,
        ),
{
    let ghost was = drawn(out@);
    if let Some(spot) = spot {
        let align: Align = if spot.right_aligned {
            Align::Right
        } else {
            Align::Left
        };
        let style: Style = Style::new(
            tag_colour(theme, contact.reckoned.coasting),
            theme.font_size_tag,
            align,
            Baseline::Middle,
        );
        let anchor: i64 = if spot.right_aligned {
            spot.rect.x1
        } else {
            spot.rect.x0
        };
        let y: i64 = contact.screen.1 + spot.shift;
        let line: i64 = theme.font_size_tag * 105 / 100;
        put_text(out, anchor, y - line / 2, identity, style);
        let text: String = tag_line(assessment, contact.target.vertical_speed_fpm);
        put_text(out, anchor, y + line / 2, text.as_str(), style);
        if spot.shift != 0 {
            put_line(out, contact.screen, (anchor, y), faded(theme.tag_text, 45), 1_000);
        }
    }
    assert(drawn(out@) =~= was + tag_marks(*contact, *assessment, identity@, spot, *theme));
}

/// The first `n` labels, most urgent first.
pub open spec fn tags_marks(
    contacts: Seq<Contact>,
    plotted: Seq<Plotted>,
    labels: Seq<Label>,
    reserved: Seq<Rect>,
    n: int,
    layout: Layout,
    theme: Theme,
) -> Seq<Painted>
    decreases n,
{
    if n <= 0 {
        seq![]
    } else {
        let item = plotted[plotted.len() - n];
        tags_marks(contacts, plotted, labels, reserved, n - 1, layout, theme) + tag_marks(
            contacts[item.contact as int],
            item.assessment,
            labels[n - 1].identity@,
            spot_of(layout, theme, tags_of(contacts, plotted, labels), reserved, n - 1),
            theme,
        )
    }
}

/// Whether targets and their labels belong together, and are where a label can be placed.
pub open spec fn labelled(
    contacts: Seq<Contact>,
    plotted: Seq<Plotted>,
    labels: Seq<Label>,
) -> bool {
    &&& labels.len() == plotted.len()
    &&& forall|k: int|
        0 <= k < plotted.len() ==> {
            &&& (#[trigger] plotted[k]).contact < contacts.len()
            &&& modest(contacts[plotted[k].contact as int].screen.0 as int)
            &&& modest(contacts[plotted[k].contact as int].screen.1 as int)
        }
    &&& forall|k: int|
        0 <= k < labels.len() ==> 0 <= (#[trigger] labels[k]).width <= LONGEST_SIDE
}

proof fn spots_shift_modestly(layout: Layout, theme: Theme, tag: Tag, taken: Seq<Rect>, k: int)
    requires
        theme.sizes_ok(),
        0 <= k,
    ensures
        first_allowed(layout, theme, tag, taken, k) matches Some(spot) ==> modest(
            spot.shift as int,
        ),
    decreases 10 - k,
{
    if k < 10 {
        spots_shift_modestly(layout, theme, tag, taken, k + 1);
    }
}

fn draw_tags(
    contacts: &[Contact],
    plotted: &[Plotted],
    labels: &[Label],
    reserved: &[Rect],
    layout: &Layout,
    theme: &Theme,
) -> (r: (Vec<Mark>, usize))
    requires
        layout.wf(),
        theme.sizes_ok(),
        labelled(contacts@, plotted@, labels@),
    ensures
        drawn(r.0@) == tags_marks(
            contacts@,
            plotted@,
            labels@,
            reserved@,
            plotted@.len() as int,
            *layout,
            *theme,
        ),
        r.1 == suppressed_of(
            *layout,
            *theme,
            tags_of(contacts@, plotted@, labels@),
            reserved@,
            plotted@.len() as int,
        ),
{
    let mut tags: Vec<Tag> = Vec::new();
    let total: usize = plotted.len();
    let ghost wanted = tags_of(contacts@, plotted@, labels@);
    let mut k: usize = 0;
    while k < total
        invariant
            k <= total,
            total == plotted@.len(),
            wanted == tags_of(contacts@, plotted@, labels@),
            labelled(contacts@, plotted@, labels@),
            tags@ =~= wanted.take(k as int),
        decreases total - k,
    {
        let item: Plotted = plotted[total - 1 - k];
        assert(plotted@[total - 1 - k].contact < contacts@.len());
        let (x, y) = contacts[item.contact].screen;
        tags.push(Tag { x, y, width: labels[k].width });
        k = k + 1;
    }
    assert(tags@ =~= wanted);
    assert forall|k: int| 0 <= k < tags@.len() implies (#[trigger] tags@[k]).wf() by {
        assert(plotted@[total - 1 - k].contact < contacts@.len());
        assert(0 <= labels@[k].width <= LONGEST_SIDE);
    }
    let (spots, suppressed) = place_tags(layout, theme, tags.as_slice(), reserved);
    let mut out: Vec<Mark> = nothing();
    let mut k: usize = 0;
    assert(drawn(out@) =~= tags_marks(
        contacts@,
        plotted@,
        labels@,
        reserved@,
        0,
        *layout,
        *theme,
    ));
    while k < total
        invariant
            k <= total,
            total == plotted@.len(),
            theme.sizes_ok(),
            wanted == tags_of(contacts@, plotted@, labels@),
            labelled(contacts@, plotted@, labels@),
            spots@.len() == total,
            forall|m: int|
                0 <= m < total ==> #[trigger] spots@[m] == spot_of(
                    *layout,
                    *theme,
                    wanted,
                    reserved@,
                    m,
                ),
            drawn(out@) == tags_marks(
                contacts@,
                plotted@,
                labels@,
                reserved@,
                k as int,
                *layout,
                *theme,
            ),
        decreases total - k,
    {
        let item: Plotted = plotted[total - 1 - k];
        assert(plotted@[total - 1 - k].contact < contacts@.len());
        proof {
            spots_shift_modestly(
                *layout,
                *theme,
                wanted[k as int],
                taken_after(*layout, *theme, wanted, reserved@, k as int),
                0,
            );
        }
        let spot: Option<Spot> = spots[k];
        assert(spots@[k as int] == spot_of(*layout, *theme, wanted, reserved@, k as int));
        put_tag(
            &mut out,
            &contacts[item.contact],
            &item.assessment,
            labels[k].identity.as_str(),
            spot,
            theme,
        );
        k = k + 1;
    }
    (out, suppressed)
}

/// What stands in place of traffic when there is no position to plot it against.
pub open spec fn notice_marks(
    ever_had_position: bool,
    connected: bool,
    layout: Layout,
    theme: Theme,
) -> Seq<Painted> {
    let (cx, cy) = (layout.center.0 as int, layout.center.1 as int);
    seq![
        text_at(
            cx,
            cy,
            notice_of(ever_had_position, connected).0,
            Style {
                colour: theme.warning,
                size: theme.font_size_large,
                align: Align::Center,
                baseline: Baseline::Bottom,
            },
        ),
        text_at(
            cx,
            cy + 4_000,
            notice_of(ever_had_position, connected).1,
            Style {
                colour: theme.text_secondary,
                size: theme.font_size_small,
                align: Align::Center,
                baseline: Baseline::Top,
            },
        ),
    ]
}

/// Shown in place of traffic when there is no own-ship position to plot against.
pub fn draw_no_position_notice(
    ever_had_position: bool,
    connected: bool,
    layout: &Layout,
    theme: &Theme,
) -> (r: Vec<Mark>)
    requires
        layout.wf(),
    ensures
        drawn(r@) == notice_marks(ever_had_position, connected, *layout, *theme),
{
    let (cx, cy) = layout.center;
    let (headline, detail) = no_position_notice(ever_had_position, connected);
    let mut out: Vec<Mark> = nothing();
    let style: Style = Style::new(
        theme.warning,
        theme.font_size_large,
        Align::Center,
        Baseline::Bottom,
    );
    put_text(&mut out, cx, cy, headline, style);
    let style: Style = Style::new(
        theme.text_secondary,
        theme.font_size_small,
        Align::Center,
        Baseline::Top,
    );
    put_text(&mut out, cx, cy + 4_000, detail, style);
    assert(drawn(out@) =~= notice_marks(ever_had_position, connected, *layout, *theme));
    out
}

/// The traffic over the rings: every symbol, own-ship over them, and the labels over everything.
pub open spec fn traffic_marks(
    contacts: Seq<Contact>,
    plotted: Seq<Plotted>,
    labels: Seq<Label>,
    reserved: Seq<Rect>,
    view: ViewState,
    own_track_mdeg: Option<i32>,
    projection: Projection,
    layout: Layout,
    theme: Theme,
) -> Seq<Painted> {
    symbols_marks(contacts, plotted, plotted.len() as int, projection, theme) + ownship_marks(
        view,
        own_track_mdeg,
        layout,
        theme,
    ) + tags_marks(
        contacts,
        plotted,
        labels,
        reserved,
        plotted.len() as int,
        layout,
        theme,
    )
}

/// The traffic, and how many labels had to be dropped. `plotted` is in the order [`plan`] gives it,
/// least urgent first; `labels` the other way round, so that when they compete for space the most
/// important target keeps its preferred position. `reserved` is what [`draw_rings`] took.
pub fn draw(
    contacts: &[Contact],
    plotted: &[Plotted],
    labels: &[Label],
    reserved: &[Rect],
    view: &ViewState,
    own_track_mdeg: Option<i32>,
    projection: &Projection,
    layout: &Layout,
    theme: &Theme,
) -> (r: (Vec<Mark>, usize))
    requires
        layout.wf(),
        theme.sizes_ok(),
        labelled(contacts@, plotted@, labels@),
    ensures
        drawn(r.0@) == traffic_marks(
            contacts@,
            plotted@,
            labels@,
            reserved@,
            *view,
            own_track_mdeg,
            *projection,
            *layout,
            *theme,
        ),
        r.1 == suppressed_of(
            *layout,
            *theme,
            tags_of(contacts@, plotted@, labels@),
            reserved@,
            plotted@.len() as int,
        ),
{
    let mut out: Vec<Mark> = nothing();
    let mut k: usize = 0;
    assert(drawn(out@) =~= symbols_marks(contacts@, plotted@, 0, *projection, *theme));
    while k < plotted.len()
        invariant
            k <= plotted.len(),
            theme.sizes_ok(),
            labelled(contacts@, plotted@, labels@),
            drawn(out@) == symbols_marks(contacts@, plotted@, k as int, *projection, *theme),
        decreases plotted.len() - k,
    {
        let item: Plotted = plotted[k];
        assert(plotted@[k as int].contact < contacts@.len());
        put_symbol(&mut out, &contacts[item.contact], item.assessment.level, projection, theme);
        k = k + 1;
    }
    put_ownship(&mut out, view, own_track_mdeg, layout, theme);
    let (tags, suppressed) = draw_tags(contacts, plotted, labels, reserved, layout, theme);
    put_all(&mut out, tags);
    (out, suppressed)
}

// --- laws ----------------------------------------------------------------------------------

/// Nothing is lost by the rounding of ranges: a contact's range is within a limit, whichever limit
/// that is, exactly when where it is drawn is no further from own-ship than that.
pub proof fn ranges_compare_as_distances(
    contact: Contact,
    sighting: Sighting,
    projection: Projection,
    now: int,
    config: ReckonConfig,
    limit_mnm: int,
)
    requires
        is_contact(contact, sighting, projection, now, config),
    ensures
        contact.range_mnm <= limit_mnm <==> !further(
            projection.origin,
            contact.reckoned.position,
            projection.shrink as int,
            limit_mnm,
        ),
{
    let r = contact.range_mnm as int;
    let l = limit_mnm;
    if 0 <= r <= l {
        assert(r * 1_000_000 * (r * 1_000_000) <= l * 1_000_000 * (l * 1_000_000)) by (nonlinear_arith)
            requires
                0 <= r <= l,
        ;
    } else if 0 <= l {
        assert(l * 1_000_000 * (l * 1_000_000) <= (r - 1) * 1_000_000 * ((r - 1) * 1_000_000)) by (nonlinear_arith)
            requires
                0 <= l <= r - 1,
        ;
    }
}

/// A target whose label found no room keeps its symbol: what is drawn of symbols depends on neither
/// the labels nor the room there is for them.
pub proof fn a_dropped_label_keeps_its_symbol(
    contacts: Seq<Contact>,
    plotted: Seq<Plotted>,
    labels: Seq<Label>,
    reserved: Seq<Rect>,
    view: ViewState,
    own_track_mdeg: Option<i32>,
    projection: Projection,
    layout: Layout,
    theme: Theme,
)
    ensures
        ({
            let symbols = symbols_marks(
                contacts,
                plotted,
                plotted.len() as int,
                projection,
                theme,
            );
            traffic_marks(
                contacts,
                plotted,
                labels,
                reserved,
                view,
                own_track_mdeg,
                projection,
                layout,
                theme,
            ).take(symbols.len() as int) == symbols
        }),
{
    let symbols = symbols_marks(contacts, plotted, plotted.len() as int, projection, theme);
    assert(traffic_marks(
        contacts,
        plotted,
        labels,
        reserved,
        view,
        own_track_mdeg,
        projection,
        layout,
        theme,
    ).take(symbols.len() as int) =~= symbols);
}

/// The range labels never stand on a diagonal when another is further from north, so that the north
/// pointer cannot sweep through them.
pub proof fn range_labels_stand_furthest_from_north(north: i32, other: int)
    requires
        0 <= other < 4,
    ensures
        0 <= label_diagonal(Some(north)) < 4,
        separation(LABEL_ANGLES[other] as int, north as int) <= separation(
            LABEL_ANGLES[label_diagonal(Some(north))] as int,
            north as int,
        ),
{
    reveal_with_fuel(diagonal_of, 4);
}

/// Every contact is accounted for exactly once: drawn, out of range, or outside the band.
pub proof fn every_contact_is_accounted_for(
    contacts: Seq<Contact>,
    view: ViewState,
    own_altitude_mft: Option<i64>,
    config: ThreatConfig,
    end: int,
)
    requires
        0 <= end <= contacts.len(),
    ensures
        drawn_at(contacts, view, own_altitude_mft, config, ThreatLevel::Normal, end).len()
            + drawn_at(contacts, view, own_altitude_mft, config, ThreatLevel::Advisory, end).len()
            + drawn_at(contacts, view, own_altitude_mft, config, ThreatLevel::Alert, end).len()
            + count_beyond(contacts, view, end) + count_filtered(
            contacts,
            view,
            own_altitude_mft,
            config,
            end,
        ) == end,
    decreases end,
{
    if end > 0 {
        every_contact_is_accounted_for(contacts, view, own_altitude_mft, config, end - 1);
    }
}

/// No threat inside the selected range is ever hidden.
pub proof fn no_threat_in_range_is_hidden(
    contact: Contact,
    view: ViewState,
    own_altitude_mft: Option<i64>,
    config: ThreatConfig,
)
    requires
        in_range(contact, view),
        level_at(contact, own_altitude_mft, config) != ThreatLevel::Normal,
    ensures
        is_drawn(contact, view, own_altitude_mft, config),
{
}

/// Whatever a level's list holds is drawn at that level, each contact once and in order, and
/// nothing drawn at the level is missing.
pub proof fn drawn_at_is_exact(
    contacts: Seq<Contact>,
    view: ViewState,
    own_altitude_mft: Option<i64>,
    config: ThreatConfig,
    level: ThreatLevel,
    end: int,
)
    requires
        0 <= end <= contacts.len(),
    ensures
        ({
            let list = drawn_at(contacts, view, own_altitude_mft, config, level, end);
            &&& forall|k: int|
                0 <= k < list.len() ==> 0 <= #[trigger] list[k] < end && is_drawn(
                    contacts[list[k]],
                    view,
                    own_altitude_mft,
                    config,
                ) && level_at(contacts[list[k]], own_altitude_mft, config) == level
            &&& forall|j: int, k: int| 0 <= j < k < list.len() ==> list[j] < list[k]
            &&& forall|i: int|
                0 <= i < end && is_drawn(contacts[i], view, own_altitude_mft, config) && level_at(
                    contacts[i],
                    own_altitude_mft,
                    config,
                ) == level ==> #[trigger] list.contains(i)
        }),
    decreases end,
{
    if end > 0 {
        drawn_at_is_exact(contacts, view, own_altitude_mft, config, level, end - 1);
        let before = drawn_at(contacts, view, own_altitude_mft, config, level, end - 1);
        let list = drawn_at(contacts, view, own_altitude_mft, config, level, end);
        assert forall|i: int|
            0 <= i < end && is_drawn(contacts[i], view, own_altitude_mft, config) && level_at(
                contacts[i],
                own_altitude_mft,
                config,
            ) == level implies #[trigger] list.contains(i) by {
            if i == end - 1 {
                assert(list[list.len() - 1] == i);
            } else {
                assert(before.contains(i));
                let k = choose|k: int| 0 <= k < before.len() && before[k] == i;
                assert(list[k] == i);
            }
        }
    }
}

proof fn first_allowed_is_allowed(
    layout: Layout,
    theme: Theme,
    tag: Tag,
    taken: Seq<Rect>,
    candidate: int,
)
    ensures
        first_allowed(layout, theme, tag, taken, candidate) matches Some(spot) ==> allowed(
            layout,
            spot.rect,
            taken,
        ),
    decreases 10 - candidate,
{
    if candidate < 10 && !allowed(
        layout,
        candidate_of(layout, theme, tag, candidate).rect,
        taken,
    ) {
        first_allowed_is_allowed(layout, theme, tag, taken, candidate + 1);
    }
}

proof fn taken_only_grows(
    layout: Layout,
    theme: Theme,
    tags: Seq<Tag>,
    reserved: Seq<Rect>,
    j: int,
    k: int,
)
    requires
        0 <= j <= k,
    ensures
        taken_after(layout, theme, tags, reserved, j).len() <= taken_after(
            layout,
            theme,
            tags,
            reserved,
            k,
        ).len(),
        forall|i: int|
            0 <= i < taken_after(layout, theme, tags, reserved, j).len() ==> taken_after(
                layout,
                theme,
                tags,
                reserved,
                k,
            )[i] == #[trigger] taken_after(layout, theme, tags, reserved, j)[i],
    decreases k - j,
{
    if j < k {
        taken_only_grows(layout, theme, tags, reserved, j, k - 1);
    }
}

/// Labels never overlap each other: a label that is placed keeps clear of every one placed before
/// it, of both bars, of both strips and of everything reserved, and stays inside the content area.
pub proof fn placed_tags_do_not_overlap(
    layout: Layout,
    theme: Theme,
    tags: Seq<Tag>,
    reserved: Seq<Rect>,
    k: int,
)
    requires
        0 <= k < tags.len(),
        spot_of(layout, theme, tags, reserved, k) is Some,
    ensures
        ({
            let rect = spot_of(layout, theme, tags, reserved, k)->0.rect;
            &&& layout.content_x0 + layout.margin <= rect.x0
            &&& rect.x1 <= layout.content_x1 - layout.margin
            &&& clear_of(rect, chrome_of(layout))
            &&& clear_of(rect, reserved)
            &&& forall|j: int|
                0 <= j < k ==> (#[trigger] spot_of(layout, theme, tags, reserved, j) matches Some(
                    other,
                ) ==> !other.rect.meets(rect))
        }),
{
    let taken = taken_after(layout, theme, tags, reserved, k);
    first_allowed_is_allowed(layout, theme, tags[k], taken, 0);
    let rect = spot_of(layout, theme, tags, reserved, k)->0.rect;
    let base = taken_after(layout, theme, tags, reserved, 0);
    taken_only_grows(layout, theme, tags, reserved, 0, k);
    assert forall|i: int| 0 <= i < chrome_of(layout).len() implies !(#[trigger] chrome_of(
        layout,
    )[i]).meets(rect) by {
        assert(base[i] == chrome_of(layout)[i]);
        assert(taken[i] == base[i]);
    }
    assert forall|i: int| 0 <= i < reserved.len() implies !(#[trigger] reserved[i]).meets(rect) by {
        let at = chrome_of(layout).len() + i;
        assert(base[at] == reserved[i]);
        assert(taken[at] == base[at]);
    }
    assert forall|j: int| 0 <= j < k implies (#[trigger] spot_of(
        layout,
        theme,
        tags,
        reserved,
        j,
    ) matches Some(other) ==> !other.rect.meets(rect)) by {
        if spot_of(layout, theme, tags, reserved, j) is Some {
            let before = taken_after(layout, theme, tags, reserved, j);
            let after = taken_after(layout, theme, tags, reserved, j + 1);
            let other = spot_of(layout, theme, tags, reserved, j)->0.rect;
            assert(after == before.push(other));
            assert(after[before.len() as int] == other);
            taken_only_grows(layout, theme, tags, reserved, j + 1, k);
            assert(taken[before.len() as int] == other);
        }
    }
}

/// Separation is symmetric, takes the short way round, and is nothing for the same angle.
pub proof fn separation_is_a_distance(a: int, b: int)
    ensures
        separation(a, b) == separation(b, a),
        0 <= separation(a, b) <= 180_000,
        separation(a, a) == 0,
        separation(a, a + 360_000) == 0,
{
}

/// Every mark the rose draws has a label, and labels repeat all the way round.
pub proof fn the_rose_has_no_blanks(degrees: int)
    requires
        degrees % 30 == 0,
    ensures
        rose_label(degrees).len() > 0,
        rose_label(degrees + 360) == rose_label(degrees),
{
    reveal_strlit("N");
    reveal_strlit("3");
    reveal_strlit("6");
    reveal_strlit("E");
    reveal_strlit("12");
    reveal_strlit("15");
    reveal_strlit("S");
    reveal_strlit("21");
    reveal_strlit("24");
    reveal_strlit("W");
    reveal_strlit("30");
    reveal_strlit("33");
}

/// A symbol points the way its target goes as the world is drawn: it stands where the target is, turned
/// by the target's track less what the world is turned by. In north-up that is the track itself; in
/// track-up a target on own-ship's own track points straight up, and one that crosses from it by an
/// angle is turned by that angle. One without a track is not turned and shows no heading.
pub proof fn symbols_point_where_their_targets_go(
    contact: Contact,
    level: ThreatLevel,
    projection: Projection,
    theme: Theme,
    own_track: (i32, Turn),
)
    ensures
        ({
            let marks = symbol_marks(contact, level, projection, theme);
            let turn = marks[0];
            &&& turn is Turn
            &&& turn->Turn_at == (contact.screen.0 as int, contact.screen.1 as int)
            &&& turn->down == 0
            &&& contact.target.track_mdeg matches Some(track) ==> turn->mdeg
                + projection.rotation_mdeg == track
            &&& contact.target.track_mdeg matches Some(track) ==> projection == Projection::around(
                projection.origin,
                projection.center,
                projection.mpx_per_nm,
                Orientation::NorthUp,
                projection.shrink as int,
                Some(own_track),
            ) ==> turn->mdeg == track
            &&& contact.target.track_mdeg matches Some(track) ==> projection == Projection::around(
                projection.origin,
                projection.center,
                projection.mpx_per_nm,
                Orientation::TrackUp,
                projection.shrink as int,
                Some(own_track),
            ) ==> turn->mdeg == track - own_track.0
            &&& contact.target.track_mdeg is None ==> turn->mdeg == 0
            &&& marks.last() == Painted::Unturn
            &&& contact.target.track_mdeg is Some <==> exists|k: int|
                0 <= k < marks.len() && (#[trigger] marks[k]) is Line
        }),
{
    let marks = symbol_marks(contact, level, projection, theme);
    if contact.target.track_mdeg is Some {
        assert(marks[3] is Line);
    } else {
        assert(marks.len() == 4);
    }
}

/// A symbol is drawn over its own dark outline, in the colour of its level: red for an alert, amber for
/// an advisory, white for the rest, as the palette has them. Coasting takes almost half of its opacity
/// and leaves its hue. What shows its heading runs straight ahead from the nose in the same colour.
pub proof fn symbols_show_their_level(
    contact: Contact,
    level: ThreatLevel,
    projection: Projection,
    theme: Theme,
)
    requires
        theme.symbol_size >= 10,
    ensures
        ({
            let marks = symbol_marks(contact, level, projection, theme);
            let of = match level {
                ThreatLevel::Alert => theme.target_alert,
                ThreatLevel::Advisory => theme.target_advisory,
                ThreatLevel::Normal => theme.target_normal,
            };
            let fill = marks[2]->Symbol_colour;
            &&& marks[1] is Symbol && marks[2] is Symbol
            &&& marks[1]->Symbol_colour == theme.target_outline
            &&& marks[1]->outline == marks[2]->outline
            &&& marks[1]->size == theme.symbol_size && marks[2]->size == theme.symbol_size
            &&& marks[1]->Symbol_width is Some
            &&& fill.r == of.r && fill.g == of.g && fill.b == of.b
            &&& !contact.reckoned.coasting ==> fill.a == of.a
            &&& contact.reckoned.coasting ==> 100 * fill.a <= 55 * of.a < 100 * fill.a + 100
            &&& contact.target.track_mdeg is Some ==> {
                &&& marks[3]->from == (0int, -(theme.symbol_size as int))
                &&& marks[3]->to.0 == 0
                &&& marks[3]->to.1 < marks[3]->from.1
                &&& marks[3]->Line_colour == fill
            }
        }),
{
    let base = theme.level_colour(level);
    assert(0 <= base.a * 55 / 100 <= base.a);
}

/// What a symbol looks like follows what the target says it is.
pub proof fn symbols_show_their_category(
    contact: Contact,
    level: ThreatLevel,
    projection: Projection,
    theme: Theme,
)
    ensures
        ({
            let marks = symbol_marks(contact, level, projection, theme);
            let shown = marks[2]->outline;
            let says = contact.target.emitter_category as int;
            &&& 1 <= says <= 6 ==> shown == outline(SymbolShape::Aircraft)
            &&& says == 7 ==> shown == outline(SymbolShape::Rotorcraft)
            &&& says == 9 ==> shown == outline(SymbolShape::Glider)
            &&& says == 10 ==> shown == outline(SymbolShape::LighterThanAir)
            &&& says == 11 || says == 12 ==> shown == outline(SymbolShape::Light)
            &&& says == 14 || says == 15 ==> shown == outline(SymbolShape::Uav)
            &&& says == 17 || says == 18 ==> shown == outline(SymbolShape::GroundVehicle)
            &&& 19 <= says <= 21 ==> shown == outline(SymbolShape::Obstacle)
            &&& says == 0 || says == 8 || says == 13 || says == 16 || says > 21 ==> shown == outline(
                SymbolShape::Unknown,
            )
            &&& marks[2]->Symbol_width is Some <==> says == 7
        }),
{
}

/// Every plotted contact has its symbol in the picture, and under every label.
pub proof fn every_plotted_contact_has_its_symbol(
    contacts: Seq<Contact>,
    plotted: Seq<Plotted>,
    n: int,
    k: int,
    projection: Projection,
    theme: Theme,
)
    requires
        0 <= k < n <= plotted.len(),
    ensures
        exists|from: int|
            0 <= from && from + symbol_marks(
                contacts[plotted[k].contact as int],
                plotted[k].assessment.level,
                projection,
                theme,
            ).len() <= symbols_marks(contacts, plotted, n, projection, theme).len()
                && #[trigger] symbols_marks(contacts, plotted, n, projection, theme).subrange(
                from,
                from + symbol_marks(
                    contacts[plotted[k].contact as int],
                    plotted[k].assessment.level,
                    projection,
                    theme,
                ).len(),
            ) == symbol_marks(
                contacts[plotted[k].contact as int],
                plotted[k].assessment.level,
                projection,
                theme,
            ),
    decreases n,
{
    let one = symbol_marks(
        contacts[plotted[k].contact as int],
        plotted[k].assessment.level,
        projection,
        theme,
    );
    let before = symbols_marks(contacts, plotted, n - 1, projection, theme);
    let all = symbols_marks(contacts, plotted, n, projection, theme);
    if k == n - 1 {
        assert(all.subrange(before.len() as int, before.len() as int + one.len()) =~= one);
    } else {
        every_plotted_contact_has_its_symbol(contacts, plotted, n - 1, k, projection, theme);
        let from = choose|from: int|
            0 <= from && from + one.len() <= before.len() && #[trigger] before.subrange(
                from,
                from + one.len(),
            ) == one;
        assert(all.subrange(from, from + one.len()) =~= before.subrange(from, from + one.len()));
    }
}

/// What matters most is drawn last: a contact is drawn after every one of a lesser level, and among
/// those of one level in the order they are listed.
pub proof fn what_matters_most_is_drawn_last(
    contacts: Seq<Contact>,
    view: ViewState,
    own_altitude_mft: Option<i64>,
    config: ThreatConfig,
    i: int,
    j: int,
)
    requires
        0 <= i < j < drawing_order(contacts, view, own_altitude_mft, config).len(),
    ensures
        ({
            let order = drawing_order(contacts, view, own_altitude_mft, config);
            let (a, b) = (
                level_at(contacts[order[i]], own_altitude_mft, config),
                level_at(contacts[order[j]], own_altitude_mft, config),
            );
            &&& a == ThreatLevel::Alert ==> b == ThreatLevel::Alert
            &&& a == ThreatLevel::Advisory ==> b != ThreatLevel::Normal
            &&& a == b ==> order[i] < order[j]
            &&& 0 <= order[i] < contacts.len()
            &&& contacts[order[i]].range_mnm <= view.range_mnm
        }),
{
    let n = contacts.len() as int;
    drawn_at_is_exact(contacts, view, own_altitude_mft, config, ThreatLevel::Normal, n);
    drawn_at_is_exact(contacts, view, own_altitude_mft, config, ThreatLevel::Advisory, n);
    drawn_at_is_exact(contacts, view, own_altitude_mft, config, ThreatLevel::Alert, n);
    let normal = drawn_at(contacts, view, own_altitude_mft, config, ThreatLevel::Normal, n);
    let advisory = drawn_at(contacts, view, own_altitude_mft, config, ThreatLevel::Advisory, n);
    let alert = drawn_at(contacts, view, own_altitude_mft, config, ThreatLevel::Alert, n);
    let order = drawing_order(contacts, view, own_altitude_mft, config);
    let (p, q) = (normal.len() as int, (normal.len() + advisory.len()) as int);
    assert(i < p ==> order[i] == normal[i]);
    assert(p <= i < q ==> order[i] == advisory[i - p]);
    assert(q <= i ==> order[i] == alert[i - q]);
    assert(j < p ==> order[j] == normal[j]);
    assert(p <= j < q ==> order[j] == advisory[j - p]);
    assert(q <= j ==> order[j] == alert[j - q]);
}

/// The outer ring is at the selected range: what is due north of own-ship at that range, with north up,
/// is drawn on it, to within what a thousandth of a pixel to the mile can be off.
pub proof fn the_outer_ring_is_at_the_selected_range(
    layout: Layout,
    view: ViewState,
    projection: Projection,
)
    requires
        projection.wf(),
        projection.turn == Turn::straight(),
        projection.mpx_per_nm == scale_of(layout, view),
        layout.outer_radius > 0,
        view.range_mnm > 0,
    ensures
        ({
            let off = projection.center.1 - projection.down_of(0, view.range_mnm * 1_000_000);
            layout.outer_radius - view.range_mnm / 1000 - 2 <= off <= layout.outer_radius
        }),
{
    let (r, s, o) = (
        view.range_mnm as int,
        projection.mpx_per_nm as int,
        layout.outer_radius as int,
    );
    vstd::arithmetic::div_mod::lemma_fundamental_div_mod(o * 1000, r);
    vstd::arithmetic::div_mod::lemma_mod_bound(o * 1000, r);
    let north = r * 1_000_000;
    assert(0 * projection.turn.sin == 0);
    assert((north * UNIT + 0 * 0) * s == r * s * 1_000_000_000_000_000) by (nonlinear_arith)
        requires
            north == r * 1_000_000,
            UNIT == 1_000_000_000,
    ;
    assert(r * s == s * r) by (nonlinear_arith);
    assert(0 <= r * s) by (nonlinear_arith)
        requires
            r > 0,
            s > 0,
    ;
    assert(r * s * 1_000_000_000_000_000 / 1_000_000_000_000_000_000 == r * s / 1000);
}

/// Each ring is marked with its own range: the outer one with the selected range, the inner one, half as
/// far out, with half of it. The disc they stand on is under both.
pub proof fn rings_say_their_own_range(
    range_mnm: int,
    north_mdeg: Option<i32>,
    rose: Seq<Turn>,
    layout: Layout,
    theme: Theme,
)
    requires
        rose.len() == 12,
        range_mnm >= 0,
    ensures
        ({
            let marks = rings_marks(range_mnm, north_mdeg, rose, layout, theme);
            let at = (layout.center.0 as int, layout.center.1 as int);
            let outer = layout.outer_radius as int;
            &&& marks.len() == 29
            &&& marks[0] is Disc && marks[0]->Disc_at == at && marks[0]->Disc_radius == outer
            &&& marks[0]->Disc_colour == theme.ring_fill
            &&& marks[1] is Ring && marks[1]->Ring_at == at && marks[1]->Ring_radius == outer
            &&& marks[3] is Ring && marks[3]->Ring_at == at && marks[3]->Ring_radius == outer / 2
            &&& marks[1]->Ring_colour == theme.ring && marks[3]->Ring_colour == theme.ring
            &&& marks[2] is Text && marks[2]->text == range_text(range_mnm as nat)
            &&& marks[4] is Text && marks[4]->text == range_text((range_mnm / 2) as nat)
        }),
{
    rose_marks_count(rose, 12, layout, theme);
}

proof fn rose_marks_count(rose: Seq<Turn>, n: int, layout: Layout, theme: Theme)
    requires
        n >= 0,
    ensures
        rose_marks(rose, n, layout, theme).len() == 2 * n,
    decreases n,
{
    if n > 0 {
        rose_marks_count(rose, n - 1, layout, theme);
    }
}

proof fn rose_marks_stand_in_order(rose: Seq<Turn>, n: int, k: int, layout: Layout, theme: Theme)
    requires
        0 <= k < n,
    ensures
        rose_marks(rose, n, layout, theme)[2 * k] == rose_marks_at(30 * k, rose[k], layout, theme)[0],
        rose_marks(rose, n, layout, theme)[2 * k + 1] == rose_marks_at(
            30 * k,
            rose[k],
            layout,
            theme,
        )[1],
    decreases n,
{
    rose_marks_count(rose, n - 1, layout, theme);
    if k < n - 1 {
        rose_marks_stand_in_order(rose, n - 1, k, layout, theme);
    }
}

/// The rose has a mark each thirty degrees, at that angle: a tick that ends on the outer ring, and a
/// label outside the ring that says where it is, a letter at the quarters and tens of degrees between.
/// The quarters have the longer ticks.
pub proof fn the_rose_says_where_it_points(
    range_mnm: int,
    north_mdeg: Option<i32>,
    rose: Seq<Turn>,
    k: int,
    layout: Layout,
    theme: Theme,
)
    requires
        rose.len() == 12,
        0 <= k < 12,
        range_mnm >= 0,
        layout.wf(),
        1 < theme.font_size_small <= LONGEST_SIDE,
        1 < theme.font_size_tag <= LONGEST_SIDE,
    ensures
        ({
            let marks = rings_marks(range_mnm, north_mdeg, rose, layout, theme);
            let tick = marks[5 + 2 * k];
            let label = marks[6 + 2 * k];
            let outer = layout.outer_radius as int;
            let mark = rose_of(30 * k, layout, theme);
            &&& tick is Line
            &&& tick->to == point_along(layout.center, rose[k], outer)
            &&& tick->from == point_along(layout.center, rose[k], mark.inner_radius as int)
            &&& k % 3 == 0 ==> mark.inner_radius == outer * 90 / 100
            &&& k % 3 != 0 ==> mark.inner_radius == outer * 95 / 100
            &&& label is Text
            &&& (label->Text_x, label->Text_y) == point_along(
                layout.center,
                rose[k],
                mark.label_radius as int,
            )
            &&& mark.label_radius > outer
            &&& k == 0 ==> label->text == "N"@
            &&& k == 3 ==> label->text == "E"@
            &&& k == 6 ==> label->text == "S"@
            &&& k == 9 ==> label->text == "W"@
            &&& k % 3 != 0 ==> label->text == decimal((3 * k) as nat)
        }),
{
    rose_marks_count(rose, 12, layout, theme);
    rose_marks_stand_in_order(rose, 12, k, layout, theme);
    let marks = rings_marks(range_mnm, north_mdeg, rose, layout, theme);
    let round = rose_marks(rose, 12, layout, theme);
    assert(marks[5 + 2 * k] == round[2 * k]);
    assert(marks[6 + 2 * k] == round[2 * k + 1]);
    reveal_strlit("3");
    reveal_strlit("6");
    reveal_strlit("12");
    reveal_strlit("15");
    reveal_strlit("21");
    reveal_strlit("24");
    reveal_strlit("30");
    reveal_strlit("33");
    reveal_with_fuel(decimal, 3);
    assert(k == 1 ==> decimal(3) =~= "3"@);
    assert(k == 2 ==> decimal(6) =~= "6"@);
    assert(k == 4 ==> decimal(12) =~= "12"@);
    assert(k == 5 ==> decimal(15) =~= "15"@);
    assert(k == 7 ==> decimal(21) =~= "21"@);
    assert(k == 8 ==> decimal(24) =~= "24"@);
    assert(k == 10 ==> decimal(30) =~= "30"@);
    assert(k == 11 ==> decimal(33) =~= "33"@);
}

/// A range reads as it is: a whole number of miles as that number, and halves and quarters to a tenth.
pub proof fn ranges_read_as_they_are(miles: nat)
    ensures
        range_text(1000 * miles) == decimal(miles),
        range_text(1000 * miles + 500) == to_tenths(1000 * miles + 500, 1000),
{
    assert((1000 * miles + 500) / 1000 == miles);
    assert((1000 * miles + 500 + 500) / 1000 == miles + 1);
}

/// The range labels stand on the diagonals, each at its own angle: up and to the left, up and to the
/// right, down and to the right, down and to the left.
pub proof fn diagonals_are_where_they_say(k: int)
    requires
        0 <= k < 4,
    ensures
        LABEL_ANGLES[k] % 90_000 == 45_000,
        diagonal_turn(k).cos > 0 <==> -90_000 < LABEL_ANGLES[k] < 90_000,
        diagonal_turn(k).sin > 0 <==> 0 < LABEL_ANGLES[k] < 180_000,
        diagonal_turn(k).cos != 0 && diagonal_turn(k).sin != 0,
        diagonal_turn(k).cos == diagonal_turn(k).sin || diagonal_turn(k).cos
            == -diagonal_turn(k).sin,
        label_diagonal(None) == 0,
{
    assert(LABEL_ANGLES[0] == -45_000 && LABEL_ANGLES[1] == 45_000 && LABEL_ANGLES[2] == 135_000
        && LABEL_ANGLES[3] == -135_000);
}

/// Own-ship stands in the middle, in its own colour over a dark outline, and points along its track as
/// the world is drawn: turned by its track where north is up, straight up where its track is.
pub proof fn own_ship_is_drawn_in_the_middle(
    view: ViewState,
    own_track_mdeg: Option<i32>,
    layout: Layout,
    theme: Theme,
)
    ensures
        ({
            let marks = ownship_marks(view, own_track_mdeg, layout, theme);
            &&& marks.len() == 4
            &&& marks[0] is Turn && marks[0]->down == 0
            &&& marks[0]->Turn_at == (layout.center.0 as int, layout.center.1 as int)
            &&& view.orientation == Orientation::TrackUp ==> marks[0]->mdeg == 0
            &&& view.orientation == Orientation::NorthUp ==> (own_track_mdeg matches Some(track)
                ==> marks[0]->mdeg == track)
            &&& own_track_mdeg is None ==> marks[0]->mdeg == 0
            &&& marks[1]->Symbol_colour == theme.target_outline && marks[1]->Symbol_width is Some
            &&& marks[2]->Symbol_colour == theme.ownship && marks[2]->Symbol_width is None
            &&& marks[1]->outline == ownship_outline() && marks[2]->outline == ownship_outline()
            &&& marks[3] == Painted::Unturn
        }),
{
}

/// A label stands beside its symbol and clear of it: to the right of a target in the left part of the
/// screen, to the left of one in the right part, and where that is free level with it. What is moved
/// stays as far to the side.
pub proof fn labels_stand_beside_their_symbols(
    layout: Layout,
    theme: Theme,
    tag: Tag,
    taken: Seq<Rect>,
    candidate: int,
)
    requires
        layout.wf(),
        tag.wf(),
        0 <= candidate < 10,
        0 <= theme.symbol_size <= LONGEST_SIDE,
        0 < theme.font_size_tag <= LONGEST_SIDE,
    ensures
        ({
            let spot = candidate_of(layout, theme, tag, candidate);
            &&& spot.right_aligned ==> spot.rect.x1 + theme.symbol_size + 5_000 == tag.x
            &&& !spot.right_aligned ==> tag.x + theme.symbol_size + 5_000 == spot.rect.x0
            &&& spot.rect.x1 - spot.rect.x0 == tag.width
            &&& spot.rect.y0 + spot.rect.y1 == 2 * (tag.y + spot.shift)
            &&& candidate < 2 ==> spot.shift == 0
            &&& candidate == 2 || candidate == 3 ==> spot.shift > 0
            &&& candidate == 4 || candidate == 5 ==> spot.shift == -candidate_of(
                layout,
                theme,
                tag,
                2,
            ).shift
            &&& candidate == 6 || candidate == 7 ==> spot.shift > candidate_of(
                layout,
                theme,
                tag,
                2,
            ).shift
            &&& candidate == 8 || candidate == 9 ==> spot.shift == -candidate_of(
                layout,
                theme,
                tag,
                6,
            ).shift
            &&& candidate == 0 && tag.x == layout.content_x1 && layout.content_x0
                < layout.content_x1 ==> spot.right_aligned
            &&& candidate == 0 && tag.x == layout.content_x0 && layout.content_x0
                < layout.content_x1 ==> !spot.right_aligned
            &&& candidate % 2 == 0 ==> candidate_of(layout, theme, tag, candidate
                + 1).right_aligned != spot.right_aligned
            &&& allowed(layout, candidate_of(layout, theme, tag, 0).rect, taken) ==> first_allowed(
                layout,
                theme,
                tag,
                taken,
                0,
            ) == Some(candidate_of(layout, theme, tag, 0))
        }),
{
}

/// A label says who it is over how far above or below, and which way that is going: an arrow up from
/// three hundred feet a minute of climb, an arrow down from as much of descent. Both lines stand at the
/// edge of the label's place that is next to the symbol, and one that was moved is tied to its symbol.
pub proof fn labels_say_who_and_how_high(
    contact: Contact,
    assessment: Assessment,
    identity: Seq<char>,
    spot: Spot,
    theme: Theme,
)
    requires
        theme.font_size_tag > 1,
    ensures
        ({
            let marks = tag_marks(contact, assessment, identity, Some(spot), theme);
            let anchor = if spot.right_aligned {
                spot.rect.x1 as int
            } else {
                spot.rect.x0 as int
            };
            let going = marks[1]->text.skip(
                relative_altitude_text(assessment.relative_altitude_mft).len() as int,
            );
            &&& marks[0]->text == identity
            &&& marks[1]->text.take(
                relative_altitude_text(assessment.relative_altitude_mft).len() as int,
            ) == relative_altitude_text(assessment.relative_altitude_mft)
            &&& marks[0]->Text_x == anchor && marks[1]->Text_x == anchor
            &&& marks[0]->Text_y < marks[1]->Text_y
            &&& marks[0]->Text_y + marks[1]->Text_y == 2 * (contact.screen.1 + spot.shift)
            &&& spot.right_aligned <==> marks[0]->style.align == Align::Right
            &&& !spot.right_aligned <==> marks[0]->style.align == Align::Left
            &&& contact.target.vertical_speed_fpm matches Some(v) ==> {
                &&& v >= 300 ==> going == " \u{2191}"@
                &&& v <= -300 ==> going == " \u{2193}"@
                &&& -300 < v < 300 ==> going == ""@
            }
            &&& contact.target.vertical_speed_fpm is None ==> going == ""@
            &&& spot.shift == 0 ==> marks.len() == 2
            &&& spot.shift != 0 ==> marks.len() == 3 && marks[2]->from == (
                contact.screen.0 as int,
                contact.screen.1 as int,
            ) && marks[2]->to == (anchor, contact.screen.1 + spot.shift)
            &&& !contact.reckoned.coasting ==> marks[0]->style.colour == theme.tag_text
            &&& marks[0]->style == marks[1]->style
        }),
{
    let head = relative_altitude_text(assessment.relative_altitude_mft);
    let tail = trend_of(contact.target.vertical_speed_fpm);
    assert((head + tail).skip(head.len() as int) =~= tail);
    assert((head + tail).take(head.len() as int) =~= head);
    assert(tag_line_height(theme) / 2 > 0);
}

/// Without a position the page says why, and says it differently for each reason: nothing is connected,
/// the receiver has no fix yet, or the fix was lost.
pub proof fn a_page_without_a_position_says_why(layout: Layout, theme: Theme)
    ensures
        ({
            let lost = notice_marks(true, true, layout, theme);
            let gone = notice_marks(true, false, layout, theme);
            let waiting = notice_marks(false, true, layout, theme);
            let apart = notice_marks(false, false, layout, theme);
            &&& lost == gone
            &&& lost[0]->text == "GPS FIX LOST"@
            &&& lost[1]->text == "traffic hidden until position returns"@
            &&& waiting[0]->text == "WAITING FOR GPS FIX"@
            &&& waiting[1]->text == "connected to Stratux"@
            &&& apart[0]->text == "NO STRATUX CONNECTION"@
            &&& apart[1]->text == "retrying"@
            &&& lost[0]->style.colour == theme.warning
            &&& lost[0]->Text_x == layout.center.0 && lost[0]->Text_y == layout.center.1
            &&& lost[0]->Text_y < lost[1]->Text_y
        }),
{
}

/// What is counted as coasting is drawn: all of it where everything drawn coasts, none where nothing
/// does.
pub proof fn only_what_is_drawn_coasts(
    contacts: Seq<Contact>,
    view: ViewState,
    own_altitude_mft: Option<i64>,
    config: ThreatConfig,
    end: int,
)
    requires
        0 <= end <= contacts.len(),
    ensures
        count_coasting(contacts, view, own_altitude_mft, config, end) + count_beyond(
            contacts,
            view,
            end,
        ) + count_filtered(contacts, view, own_altitude_mft, config, end) <= end,
        (forall|k: int| 0 <= k < end ==> (#[trigger] contacts[k]).reckoned.coasting)
            ==> count_coasting(contacts, view, own_altitude_mft, config, end) + count_beyond(
            contacts,
            view,
            end,
        ) + count_filtered(contacts, view, own_altitude_mft, config, end) == end,
        (forall|k: int| 0 <= k < end ==> !(#[trigger] contacts[k]).reckoned.coasting)
            ==> count_coasting(contacts, view, own_altitude_mft, config, end) == 0,
        (forall|k: int| 0 <= k < end ==> (#[trigger] contacts[k]).range_mnm > view.range_mnm)
            ==> count_beyond(contacts, view, end) == end,
        (forall|k: int| 0 <= k < end ==> (#[trigger] contacts[k]).range_mnm <= view.range_mnm)
            ==> count_beyond(contacts, view, end) == 0,
    decreases end,
{
    if end > 0 {
        only_what_is_drawn_coasts(contacts, view, own_altitude_mft, config, end - 1);
        assert(contacts[end - 1] == contacts[end - 1]);
    }
}

/// Labels are placed the most important first: the last symbol drawn is the first to be given room.
pub proof fn the_last_drawn_is_labelled_first(
    contacts: Seq<Contact>,
    plotted: Seq<Plotted>,
    labels: Seq<Label>,
    k: int,
)
    requires
        labels.len() == plotted.len(),
        0 <= k < plotted.len(),
    ensures
        ({
            let tags = tags_of(contacts, plotted, labels);
            let last = contacts[plotted[plotted.len() - 1 - k].contact as int];
            &&& tags.len() == plotted.len()
            &&& (tags[k].x, tags[k].y) == last.screen
            &&& tags[k].width == labels[k].width
        }),
{
}

/// A label keeps off both bars and both strips.
pub proof fn labels_keep_off_the_chrome(layout: Layout, rect: Rect)
    requires
        layout.wf(),
        layout.content_x0 < layout.content_x1 <= layout.width,
        layout.status_bar_height + 2_000 < layout.height - layout.footer_height,
        0 <= rect.x0 < rect.x1 <= layout.width,
        0 <= rect.y0 < rect.y1 <= layout.height,
        clear_of(rect, chrome_of(layout)),
    ensures
        layout.status_bar_height + 2_000 <= rect.y0,
        rect.y1 <= layout.height - layout.footer_height,
        layout.content_x0 <= rect.x0,
        rect.x1 <= layout.content_x1,
{
    let taken = chrome_of(layout);
    assert(!taken[0].meets(rect) && !taken[1].meets(rect) && !taken[2].meets(rect)
        && !taken[3].meets(rect));
}

/// A target in the right-hand part of the content, from sixty-two hundredths of the way across, has its
/// label on its left where there is room, and any other on its right.
pub proof fn labels_lean_towards_the_middle(layout: Layout, theme: Theme, tag: Tag)
    ensures
        100 * (tag.x - layout.content_x0) > 62 * (layout.content_x1 - layout.content_x0)
            <==> candidate_of(layout, theme, tag, 0).right_aligned,
        100 * (tag.x - layout.content_x0) <= 62 * (layout.content_x1 - layout.content_x0)
            <==> candidate_of(layout, theme, tag, 1).right_aligned,
{
}

/// A coasting target's label fades with it: sixty hundredths of its opacity, and its hue kept. What ties
/// a label to its symbol is fainter still.
pub proof fn coasting_labels_fade(theme: Theme)
    ensures
        ({
            let (plain, dim) = (tag_colour_of(theme, false), tag_colour_of(theme, true));
            &&& plain == theme.tag_text
            &&& dim.r == plain.r && dim.g == plain.g && dim.b == plain.b
            &&& 100 * dim.a <= 60 * plain.a < 100 * dim.a + 100
        }),
{
    let a = theme.tag_text.a;
    assert(0 <= a * 60 / 100 <= a);
}

/// The range of a ring stands on its diagonal, just inside the ring.
pub proof fn ring_labels_stand_inside_their_ring(
    range_mnm: int,
    radius: int,
    diagonal: int,
    layout: Layout,
    theme: Theme,
)
    requires
        theme.font_size_small > 1,
    ensures
        ({
            let label = ring_marks(range_mnm, radius, diagonal, layout, theme)[1];
            let inside = radius - theme.font_size_small * 9 / 10;
            &&& (label->Text_x, label->Text_y) == point_along(
                layout.center,
                diagonal_turn(diagonal),
                inside,
            )
            &&& inside < radius
            &&& label->style.align == Align::Center && label->style.colour == theme.ring_label
        }),
{
}

/// What is kept free about a text holds the whole of it, and three pixels all round.
pub proof fn what_is_kept_free_holds_the_text(cx: int, cy: int, width: int, height: int)
    requires
        -1_000_000_000_000 <= cx <= 1_000_000_000_000,
        -1_000_000_000_000 <= cy <= 1_000_000_000_000,
        0 <= width <= 1_000_000_000_000,
        0 <= height <= 1_000_000_000_000,
    ensures
        ({
            let free = padded_around(cx, cy, width, height);
            &&& free.x0 + 3_000 == cx - width / 2
            &&& free.x1 - 3_000 == cx + width / 2
            &&& free.y0 + 3_000 == cy - height / 2
            &&& free.y1 - 3_000 == cy + height / 2
        }),
{
}

/// Every label of the rings and the rose has its place kept free: the two ranges, and the twelve marks
/// each where its label is.
pub proof fn rings_and_rose_are_kept_free(
    north_mdeg: Option<i32>,
    rose: Seq<Turn>,
    widths: (int, int),
    layout: Layout,
    theme: Theme,
    k: int,
)
    requires
        rose.len() == 12,
        0 <= k < 12,
    ensures
        ({
            let rects = rings_rects(north_mdeg, rose, widths, layout, theme);
            let outer = layout.outer_radius as int;
            let diagonal = label_diagonal(north_mdeg);
            let mark = rose_of(30 * k, layout, theme);
            let at = point_along(layout.center, rose[k], mark.label_radius as int);
            let full = ring_label_at(outer, diagonal, layout, theme);
            let half = ring_label_at(outer / 2, diagonal, layout, theme);
            &&& rects.len() == 14
            &&& rects[0] == padded_around(full.0, full.1, widths.0, theme.font_size_small as int)
            &&& rects[1] == padded_around(half.0, half.1, widths.1, theme.font_size_small as int)
            &&& rects[2 + k] == padded_around(
                at.0,
                at.1,
                mark.label_size * rose_label(30 * k).len() * 62 / 100,
                mark.label_size as int,
            )
        }),
{
}

/// Positions are counted one for each target that has one.
pub proof fn positions_are_counted(targets: Seq<Target>, end: int)
    requires
        0 <= end <= targets.len(),
    ensures
        0 <= count_positional(targets, end) <= end,
        (forall|k: int| 0 <= k < end ==> (#[trigger] targets[k]).position is Some)
            ==> count_positional(targets, end) == end,
        (forall|k: int| 0 <= k < end ==> (#[trigger] targets[k]).position is None)
            ==> count_positional(targets, end) == 0,
    decreases end,
{
    if end > 0 {
        positions_are_counted(targets, end - 1);
        assert(targets[end - 1] == targets[end - 1]);
    }
}

/// A contact is drawn where it is, at the range it is at, from its own report: the screen shows its
/// reckoned position, and a contact due north at so many miles is at that range.
pub proof fn contacts_are_at_their_range(
    contact: Contact,
    sighting: Sighting,
    projection: Projection,
    now: int,
    config: ReckonConfig,
    miles: int,
)
    requires
        is_contact(contact, sighting, projection, now, config),
        projection.wf(),
        0 <= miles <= 60_000,
        contact.reckoned.position.lon_e9 == projection.origin.lon_e9,
        60 * (contact.reckoned.position.lat_e9 - projection.origin.lat_e9) == 1_000_000_000 * miles,
    ensures
        contact.range_mnm == 1000 * miles,
        contact.target == sighting.target,
{
    let (from, to) = (projection.origin, contact.reckoned.position);
    crate::projection::distances_are_the_same_both_ways(from, to, projection.shrink as int);
    let d = 1_000_000_000 * miles;
    let square = distance_squared(from, to, projection.shrink as int);
    assert(60 * (to.lat_e9 - from.lat_e9) == d);
    let r = contact.range_mnm as int;
    assert(square == d * d);
    assert(r >= 1000 * miles) by (nonlinear_arith)
        requires
            d * d <= r * 1_000_000 * (r * 1_000_000),
            d == 1_000_000_000 * miles,
            r >= 0,
            miles >= 0,
    ;
    assert(r <= 1000 * miles) by (nonlinear_arith)
        requires
            r > 0 ==> (r - 1) * 1_000_000 * ((r - 1) * 1_000_000) < d * d,
            d == 1_000_000_000 * miles,
            r >= 0,
            miles >= 0,
    ;
}

/// What is counted as suppressed is what found no room, one for each.
pub proof fn what_found_no_room_is_counted(
    layout: Layout,
    theme: Theme,
    tags: Seq<Tag>,
    reserved: Seq<Rect>,
    k: int,
)
    requires
        0 < k <= tags.len(),
    ensures
        spot_of(layout, theme, tags, reserved, k - 1) is None ==> suppressed_of(
            layout,
            theme,
            tags,
            reserved,
            k,
        ) == suppressed_of(layout, theme, tags, reserved, k - 1) + 1,
        spot_of(layout, theme, tags, reserved, k - 1) is Some ==> suppressed_of(
            layout,
            theme,
            tags,
            reserved,
            k,
        ) == suppressed_of(layout, theme, tags, reserved, k - 1),
        suppressed_of(layout, theme, tags, reserved, 0) == 0,
{
}

/// A contact is classified by its own altitude, range and whether it is on the ground, by the tiers: with
/// both altitudes known an alert within the range and the height of the alert tier, over own-ship or under
/// it, and nothing for what is on the ground where that is ignored.
pub proof fn contacts_are_classified_by_the_tiers(
    contact: Contact,
    altitude_ft: i32,
    own_mft: i64,
    config: ThreatConfig,
)
    requires
        contact.target.altitude_ft == Some(altitude_ft),
    ensures
        ({
            let above = 1000 * altitude_ft - own_mft;
            let level = level_at(contact, Some(own_mft), config);
            let near = contact.range_mnm <= config.alert.range_mnm && -config.alert.altitude_mft
                <= above <= config.alert.altitude_mft;
            let close = contact.range_mnm <= config.advisory.range_mnm
                && -config.advisory.altitude_mft <= above <= config.advisory.altitude_mft;
            let ignored = contact.target.on_ground && config.ignore_on_ground;
            &&& level == ThreatLevel::Alert <==> near && !ignored
            &&& level == ThreatLevel::Advisory <==> close && !near && !ignored
        }),
        ({
            let level = level_at(contact, None, config);
            let ignored = contact.target.on_ground && config.ignore_on_ground;
            level == ThreatLevel::Advisory <==> contact.range_mnm <= config.alert.range_mnm
                && !ignored
        }),
{
}

/// What is drawn is within the selected range, and either a threat, or of unknown altitude, or inside the
/// selected band: 2700 feet either way as usual.
pub proof fn what_is_drawn(
    contact: Contact,
    view: ViewState,
    altitude_ft: i32,
    own_mft: i64,
    config: ThreatConfig,
)
    requires
        contact.target.altitude_ft == Some(altitude_ft),
        -4_000_000_000_000 <= own_mft <= 4_000_000_000_000,
        view.altitude_filter == AltitudeFilter::Normal,
    ensures
        is_drawn(contact, view, Some(own_mft), config) <==> contact.range_mnm <= view.range_mnm && (
        level_at(contact, Some(own_mft), config) != ThreatLevel::Normal || -2_700_000 <= 1000
            * altitude_ft - own_mft <= 2_700_000),
        is_drawn(contact, view, None, config) <==> contact.range_mnm <= view.range_mnm,
{
}

/// The targets that say where they are, all of them and no others, in the order they are heard.
pub proof fn what_has_a_position_is_kept(sightings: Seq<Sighting>, end: int)
    requires
        0 <= end <= sightings.len(),
    ensures
        ({
            let kept = positioned(sightings, end);
            &&& forall|k: int|
                0 <= k < kept.len() ==> 0 <= #[trigger] kept[k] < end
                    && sightings[kept[k]].target.position is Some
            &&& forall|j: int, k: int| 0 <= j < k < kept.len() ==> kept[j] < kept[k]
            &&& forall|i: int|
                0 <= i < end && (#[trigger] sightings[i]).target.position is Some ==> kept.contains(i)
        }),
    decreases end,
{
    if end > 0 {
        what_has_a_position_is_kept(sightings, end - 1);
        let before = positioned(sightings, end - 1);
        let kept = positioned(sightings, end);
        assert forall|i: int|
            0 <= i < end && (#[trigger] sightings[i]).target.position is Some implies kept.contains(
            i,
        ) by {
            if i == end - 1 {
                assert(kept[kept.len() - 1] == i);
            } else {
                assert(before.contains(i));
                let k = choose|k: int| 0 <= k < before.len() && before[k] == i;
                assert(kept[k] == i);
            }
        }
    }
}

/// The picture is symbols first, then own-ship over them, then the labels over all.
pub proof fn labels_are_over_symbols(
    contacts: Seq<Contact>,
    plotted: Seq<Plotted>,
    labels: Seq<Label>,
    reserved: Seq<Rect>,
    view: ViewState,
    own_track_mdeg: Option<i32>,
    projection: Projection,
    layout: Layout,
    theme: Theme,
)
    ensures
        ({
            let n = plotted.len() as int;
            let symbols = symbols_marks(contacts, plotted, n, projection, theme);
            let own = ownship_marks(view, own_track_mdeg, layout, theme);
            let tags = tags_marks(contacts, plotted, labels, reserved, n, layout, theme);
            let all = traffic_marks(
                contacts,
                plotted,
                labels,
                reserved,
                view,
                own_track_mdeg,
                projection,
                layout,
                theme,
            );
            &&& all.len() == symbols.len() + 4 + tags.len()
            &&& all.take(symbols.len() as int) == symbols
            &&& all.subrange(symbols.len() as int, symbols.len() as int + 4) == own
            &&& all.skip(symbols.len() as int + 4) == tags
        }),
{
    let n = plotted.len() as int;
    let symbols = symbols_marks(contacts, plotted, n, projection, theme);
    let own = ownship_marks(view, own_track_mdeg, layout, theme);
    let tags = tags_marks(contacts, plotted, labels, reserved, n, layout, theme);
    let all = traffic_marks(
        contacts,
        plotted,
        labels,
        reserved,
        view,
        own_track_mdeg,
        projection,
        layout,
        theme,
    );
    assert(all.take(symbols.len() as int) =~= symbols);
    assert(all.subrange(symbols.len() as int, symbols.len() as int + 4) =~= own);
    assert(all.skip(symbols.len() as int + 4) =~= tags);
}

/// Two places meet where they share some area, and not where they only touch; it is the same from either
/// side.
pub proof fn touching_is_not_meeting(a: Rect, b: Rect)
    ensures
        a.meets(b) == b.meets(a),
        a.x1 == b.x0 || a.y1 == b.y0 ==> !a.meets(b),
        a.x0 < a.x1 && a.y0 < a.y1 ==> a.meets(a),
{
}

/// A label may reach the margin of the content on either side, and not past it.
pub proof fn labels_may_reach_the_margin(layout: Layout, rect: Rect)
    requires
        rect.x0 == layout.content_x0 + layout.margin,
        rect.x1 == layout.content_x1 - layout.margin,
    ensures
        allowed(layout, rect, seq![]),
        forall|taken: Seq<Rect>, x0: i64|
            x0 < rect.x0 ==> !(#[trigger] allowed(layout, Rect { x0, ..rect }, taken)),
        forall|taken: Seq<Rect>, x1: i64|
            x1 > rect.x1 ==> !(#[trigger] allowed(layout, Rect { x1, ..rect }, taken)),
{
}

/// Lines are in proportion to the palette's own: a ring's a little lighter, the dark outline of a target
/// more than twice as heavy and of own-ship twice.
pub proof fn lines_are_in_proportion(
    contact: Contact,
    level: ThreatLevel,
    projection: Projection,
    view: ViewState,
    own_track_mdeg: Option<i32>,
    layout: Layout,
    theme: Theme,
)
    requires
        0 <= theme.line_width <= LONGEST_SIDE,
    ensures
        ({
            let ring = ring_marks(0, 0, 0, layout, theme)[0]->Ring_width;
            let target = symbol_marks(contact, level, projection, theme)[1]->Symbol_width;
            let own = ownship_marks(view, own_track_mdeg, layout, theme)[1]->Symbol_width;
            &&& 10 * ring <= 9 * theme.line_width < 10 * ring + 10
            &&& 10 * target->0 <= 22 * theme.line_width < 10 * target->0 + 10
            &&& own->0 == 2 * theme.line_width
        }),
{
}

/// The n-th label placed is that of the n-th contact from the last one drawn, with its own identity.
pub proof fn labels_are_of_their_own_contacts(
    contacts: Seq<Contact>,
    plotted: Seq<Plotted>,
    labels: Seq<Label>,
    reserved: Seq<Rect>,
    n: int,
    layout: Layout,
    theme: Theme,
)
    requires
        0 < n <= plotted.len(),
        labels.len() == plotted.len(),
    ensures
        ({
            let before = tags_marks(contacts, plotted, labels, reserved, n - 1, layout, theme);
            let all = tags_marks(contacts, plotted, labels, reserved, n, layout, theme);
            let item = plotted[plotted.len() - n];
            let spot = spot_of(layout, theme, tags_of(contacts, plotted, labels), reserved, n - 1);
            &&& spot is None ==> all == before
            &&& spot is Some ==> all.len() >= before.len() + 2 && all[before.len() as int]->text
                == labels[n - 1].identity@ && all[before.len() as int + 1]->text.take(
                relative_altitude_text(item.assessment.relative_altitude_mft).len() as int,
            ) == relative_altitude_text(item.assessment.relative_altitude_mft)
        }),
{
    let before = tags_marks(contacts, plotted, labels, reserved, n - 1, layout, theme);
    let all = tags_marks(contacts, plotted, labels, reserved, n, layout, theme);
    let item = plotted[plotted.len() - n];
    let spot = spot_of(layout, theme, tags_of(contacts, plotted, labels), reserved, n - 1);
    if spot is None {
        assert(all =~= before);
    } else {
        let head = relative_altitude_text(item.assessment.relative_altitude_mft);
        let tail = trend_of(contacts[item.contact as int].target.vertical_speed_fpm);
        assert((head + tail).take(head.len() as int) =~= head);
    }
}

} // verus!
