//! The launcher's placement marker: which herdr layout summoned the viewer.

use vstd::prelude::*;
use crate::text::{all_white, chars_of, spells, trim, trim_range, trim_ignores_surrounding_white_space};

verus! {

/// Which herdr layout the viewer was summoned into, per the
/// `HERDR_FILE_VIEWER_PLACEMENT` marker that the launchers set.
#[derive(Debug, Clone, Copy, PartialEq, Eq, Structural)]
pub enum Placement {
    /// A split pane beside the current work.
    Split,
    /// The viewer in its own tab.
    Tab,
    /// A temporary cover over the active pane.
    Overlay,
    /// A floating, session-modal popup (not a pane).
    Popup,
    /// No marker, or one this build does not recognize.
    Unknown,
}

impl Default for Placement {
    /// The marker is absent until a launcher sets it.
    fn default() -> (p: Placement)
        ensures
            p == Placement::Unknown,
    {
        Placement::Unknown
    }
}

/// The placement that a marker names, compared after trimming.
pub open spec fn placement_of(raw: Option<Seq<char>>) -> Placement {
    match raw {
        Some(s) => {
            let t = trim(s);
            if t == "split"@ {
                Placement::Split
            } else if t == "tab"@ {
                Placement::Tab
            } else if t == "overlay"@ {
                Placement::Overlay
            } else if t == "popup"@ {
                Placement::Popup
            } else {
                Placement::Unknown
            }
        },
        None => Placement::Unknown,
    }
}

/// The view of an optional marker: its characters, where there is one.
pub open spec fn marker_view(raw: Option<&str>) -> Option<Seq<char>> {
    match raw {
        Some(s) => Some(s@),
        None => None,
    }
}

/// Parses the placement marker. Surrounding white space is tolerated; any
/// other value, an empty one or an absent one gives `Unknown`.
pub fn parse_placement(raw: Option<&str>) -> (p: Placement)
    ensures
        p == placement_of(marker_view(raw)),
{
    match raw {
        None => Placement::Unknown,
        Some(s) => {
            let v = chars_of(s);
            let (lo, hi) = trim_range(&v, 0, v.len());
            assert(v@.subrange(0, v@.len() as int) =~= v@);
            if spells(&v, lo, hi, "split") {
                Placement::Split
            } else if spells(&v, lo, hi, "tab") {
                Placement::Tab
            } else if spells(&v, lo, hi, "overlay") {
                Placement::Overlay
            } else if spells(&v, lo, hi, "popup") {
                Placement::Popup
            } else {
                Placement::Unknown
            }
        },
    }
}

/// Surrounding white space is tolerated: a marker padded with white space on
/// either side names the same placement as the bare marker.
pub proof fn surrounding_white_space_is_tolerated(before: Seq<char>, s: Seq<char>, after: Seq<char>)
    requires
        all_white(before),
        all_white(after),
    ensures
        placement_of(Some(before + s + after)) == placement_of(Some(s)),
{
    trim_ignores_surrounding_white_space(before, s, after);
}

} // verus!
