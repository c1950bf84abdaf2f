//! The reckoning behind a small-panel cockpit display: what is on the screen, where, in which
//! colour and in which words, and what a touch or a command line does to it.
//!
//! Nothing here reads a device or talks to a receiver. A page's picture is a list of marks; a program
//! around this crate measures text, takes sines and cosines, and puts the marks on the glass.
//!
//! # Units
//!
//! Every quantity is a whole number, so that what a function answers can be stated exactly:
//!
//! * lengths on the screen are thousandths of a pixel, `y` growing downward;
//! * ranges are thousandths of a nautical mile (`mnm`), altitudes thousandths of a foot (`mft`),
//!   speeds thousandths of a knot (`mkt`) or of a foot per minute (`mfpm`);
//! * angles are thousandths of a degree (`mdeg`), clockwise from north;
//! * positions are billionths of a degree ([`domain::LatLon`]), the edges of boxes millionths;
//! * sines and cosines are billionths ([`projection::Turn`]);
//! * times and ages are nanoseconds on one clock that never runs backwards;
//! * a colour's channels run to [`theme::CHANNEL_FULL`].
//!
//! # Layout
//!
//! * the frame: [`marks`], [`layout`], [`theme`], [`view`], [`interact`], [`softkeys`],
//!   [`pagestrip`], [`statusbar`], [`footerbar`];
//! * the plan view: [`projection`], [`reckon`], [`threat`], [`symbols`], [`planview`], and under it
//!   the radar ([`nexrad`]) and the map ([`chart`], [`airspace`], [`maplayer`]);
//! * the weather page: [`weatherpage`], [`metar`] and the numbers in it ([`single`]), [`glossary`];
//! * the attitude page: [`ahrspage`], [`tapes`];
//! * the program around them: [`args`], [`session`], [`pacing`], [`touch`], [`gfx`], [`font`],
//!   [`spike`].

pub mod ahrspage;
pub mod airspace;
pub mod args;
pub mod bytes;
pub mod chart;
pub mod domain;
pub mod font;
pub mod footerbar;
pub mod gfx;
pub mod glossary;
pub mod interact;
pub mod layout;
pub mod maplayer;
pub mod marks;
pub mod metar;
pub mod nexrad;
pub mod pacing;
pub mod pagestrip;
pub mod planview;
pub mod projection;
pub mod reckon;
pub mod session;
pub mod single;
pub mod softkeys;
pub mod spike;
pub mod statusbar;
pub mod symbols;
pub mod tapes;
pub mod text;
pub mod theme;
pub mod threat;
pub mod touch;
pub mod view;
pub mod weatherpage;

pub use chart::Chart;
pub use nexrad::Mosaic;
pub use projection::{Orientation, Projection};
pub use reckon::ReckonConfig;
pub use theme::Theme;
pub use threat::{AltitudeFilter, ThreatConfig, ThreatLevel};
