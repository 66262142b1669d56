//! Device access layer for ev3dev-style robot controllers.
//!
//! The kernel exposes motors, sensors, LEDs and buttons as small virtual
//! text files below a class directory tree.  This crate holds the verified
//! core of a binding to that interface: permission-aware attribute handling,
//! typed parsing and formatting of attribute text, the device-resolution
//! rules that map a port and a set of driver names to a concrete device
//! directory, the timeout budgeting of the blocking wait primitive, and the
//! edge-triggered decoding of raw key-state bitmaps.
//!
//! All operating-system calls (stat, open, read, write, epoll, ioctl) live
//! outside this crate; its functions compute over plain values that such
//! callers pass in and get back.

use vstd::prelude::*;

mod utils;
pub mod attribute;
pub mod brickpi;
pub mod brickpi3;
pub mod buttons;
pub mod driver;
pub mod findable;
pub mod led;
pub mod motors;
pub mod numbers;
pub mod sensors;
pub mod sound;
pub mod text;
pub mod wait;

pub use attribute::Attribute;
pub use driver::DeviceInfo;
pub use driver::Driver;

pub use utils::Ev3Error;
pub use utils::Ev3Result;
pub use utils::OrErr;
pub use utils::Port;

verus! {

/// Default root of the class-device tree.
pub fn get_driver_path() -> (r: String)
    ensures
        r@ == "/sys/class/"@,
{
    String::from_str("/sys/class/")
}

} // verus!
