//! Classification of the LED device directories of the EV3 brick.
//!
//! The brick's status LEDs appear as four directories below the `leds`
//! class, one per colour channel per side.  Their names vary between
//! kernel generations (`led0:`/`led1:` against `left:`/`right:`), so the
//! constructor scans the directory listing and classifies each entry by
//! the tokens its name contains; for each channel the last matching entry
//! wins.  The scan itself belongs to the caller, which passes the listing.

use vstd::prelude::*;

use crate::text;
use crate::text::contains_seq;

verus! {

/// The four LED directory names, one per side and colour channel; empty
/// where the listing held no matching entry.
#[derive(Debug)]
pub struct LedNames {
    /// Red channel of the left LED.
    pub left_red: String,
    /// Green channel of the left LED.
    pub left_green: String,
    /// Red channel of the right LED.
    pub right_red: String,
    /// Green channel of the right LED.
    pub right_green: String,
}

/// Ghost image of a [`LedNames`].
pub ghost struct LedNamesView {
    /// Red channel of the left LED.
    pub left_red: Seq<char>,
    /// Green channel of the left LED.
    pub left_green: Seq<char>,
    /// Red channel of the right LED.
    pub right_red: Seq<char>,
    /// Green channel of the right LED.
    pub right_green: Seq<char>,
}

impl View for LedNames {
    type V = LedNamesView;

    open spec fn view(&self) -> LedNamesView {
        LedNamesView {
            left_red: self.left_red@,
            left_green: self.left_green@,
            right_red: self.right_red@,
            right_green: self.right_green@,
        }
    }
}

/// How one directory entry updates the classification so far.
pub open spec fn led_classify(acc: LedNamesView, name: Seq<char>) -> LedNamesView {
    if contains_seq(name, ":brick-status"@) || contains_seq(name, ":ev3dev"@) {
        if contains_seq(name, "led0:"@) || contains_seq(name, "left:"@) {
            if contains_seq(name, "red:"@) {
                LedNamesView { left_red: name, ..acc }
            } else if contains_seq(name, "green:"@) {
                LedNamesView { left_green: name, ..acc }
            } else {
                acc
            }
        } else if contains_seq(name, "led1:"@) || contains_seq(name, "right:"@) {
            if contains_seq(name, "red:"@) {
                LedNamesView { right_red: name, ..acc }
            } else if contains_seq(name, "green:"@) {
                LedNamesView { right_green: name, ..acc }
            } else {
                acc
            }
        } else {
            acc
        }
    } else {
        acc
    }
}

/// The classification of a whole directory listing, in order: later
/// entries override earlier ones channel by channel.
pub open spec fn led_selection(names: Seq<Seq<char>>) -> LedNamesView
    decreases names.len(),
{
    if names.len() == 0 {
        LedNamesView {
            left_red: Seq::empty(),
            left_green: Seq::empty(),
            right_red: Seq::empty(),
            right_green: Seq::empty(),
        }
    } else {
        led_classify(led_selection(names.drop_last()), names.last())
    }
}

/// Classifies the entries of a `leds` class directory into the four
/// status-LED names.
pub fn select_led_names(names: &Vec<String>) -> (r: LedNames)
    ensures
        r@ == led_selection(names@.map_values(|s: String| s@)),
{
    let ghost nv = names@.map_values(|s: String| s@);
    let mut acc = LedNames {
        left_red: String::new(),
        left_green: String::new(),
        right_red: String::new(),
        right_green: String::new(),
    };
    proof {
        assert(nv.take(0) =~= Seq::<Seq<char>>::empty());
        assert(acc@ == led_selection(nv.take(0)));
    }
    let mut i: usize = 0;
    while i < names.len()
        invariant
            nv == names@.map_values(|s: String| s@),
            nv.len() == names@.len(),
            forall|k: int| 0 <= k < nv.len() ==> nv[k] == names@[k]@,
            0 <= i <= names@.len(),
            acc@ == led_selection(nv.take(i as int)),
        decreases names@.len() - i,
    {
        let name = &names[i];
        proof {
            assert(nv.take(i + 1).drop_last() =~= nv.take(i as int));
            assert(nv.take(i + 1).last() == nv[i as int]);
        }
        if text::str_contains(name.as_str(), ":brick-status") || text::str_contains(
            name.as_str(),
            ":ev3dev",
        ) {
            if text::str_contains(name.as_str(), "led0:") || text::str_contains(
                name.as_str(),
                "left:",
            ) {
                if text::str_contains(name.as_str(), "red:") {
                    acc.left_red = name.clone();
                } else if text::str_contains(name.as_str(), "green:") {
                    acc.left_green = name.clone();
                }
            } else if text::str_contains(name.as_str(), "led1:") || text::str_contains(
                name.as_str(),
                "right:",
            ) {
                if text::str_contains(name.as_str(), "red:") {
                    acc.right_red = name.clone();
                } else if text::str_contains(name.as_str(), "green:") {
                    acc.right_green = name.clone();
                }
            }
        }
        i = i + 1;
    }
    proof {
        assert(nv.take(nv.len() as int) =~= nv);
    }
    acc
}

/// The colour both LEDs show, when they agree: the decision step of
/// reading the brick's combined LED colour.
pub fn combined_color(left: (u8, u8), right: (u8, u8)) -> (r: Option<(u8, u8)>)
    ensures
        left.0 == right.0 && left.1 == right.1 ==> r == Some(left),
        !(left.0 == right.0 && left.1 == right.1) ==> r is None,
{
    if left.0 == right.0 && left.1 == right.1 {
        Some(left)
    } else {
        None
    }
}

} // verus!
