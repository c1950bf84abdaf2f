//! Which font to draw with.
//!
//! Loaded from disk by path, trying a few well-known locations. Whether a file is there is for the
//! caller to say.

use vstd::prelude::*;

verus! {

/// Where a font may be, best first.
pub const CANDIDATES: [&'static str; 5] = [
    "/usr/share/fonts/truetype/dejavu/DejaVuSans.ttf",
    "/usr/share/fonts/truetype/dejavu/DejaVuSansMono.ttf",
    "/usr/share/fonts/truetype/liberation/LiberationSans-Regular.ttf",
    "/usr/share/fonts/truetype/noto/NotoSans-Regular.ttf",
    "/usr/share/fonts/TTF/DejaVuSans.ttf",
];

/// Environment variable to override the font path, for testing an alternative.
pub const FONT_ENV: &'static str = "AVIONICS_FONT";

/// The font to use.
#[derive(Debug, Clone, Copy, PartialEq, Eq, Structural)]
pub enum FontChoice {
    /// The one that was asked for.
    Override,
    /// The one that was asked for is not there.
    MissingOverride,
    /// The candidate at this place.
    Candidate(usize),
    /// There is none.
    NoFont,
}

/// Choose a font. `overridden` says whether the font asked for by [`FONT_ENV`] is there, if one was;
/// `present` says which of the [`CANDIDATES`] are.
///
/// A font asked for by name is never silently replaced by another.
pub fn find(overridden: Option<bool>, present: &[bool]) -> (r: FontChoice)
    ensures
        match overridden {
            Some(there) => r == if there {
                FontChoice::Override
            } else {
                FontChoice::MissingOverride
            },
            None => match r {
                FontChoice::Candidate(i) => {
                    &&& i < present@.len()
                    &&& present@[i as int]
                    &&& forall|k: int| 0 <= k < i ==> !#[trigger] present@[k]
                },
                FontChoice::NoFont => forall|k: int| 0 <= k < present@.len() ==> !#[trigger] present@[k],
                _ => false,
            },
        },
{
    match overridden {
        Some(true) => return FontChoice::Override,
        Some(false) => return FontChoice::MissingOverride,
        None => {},
    }
    let mut i: usize = 0;
    while i < present.len()
        invariant
            i <= present.len(),
            overridden is None,
            forall|k: int| 0 <= k < i ==> !#[trigger] present@[k],
        decreases present.len() - i,
    {
        if present[i] {
            return FontChoice::Candidate(i);
        }
        i = i + 1;
    }
    FontChoice::NoFont
}

} // verus!
