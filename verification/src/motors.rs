//! Motor ports of the EV3 brick.

use vstd::prelude::*;

use crate::text;
use crate::utils::Port;

verus! {

/// EV3 ports `outA` to `outD`.
#[derive(Debug, Copy, Clone)]
pub enum MotorPort {
    /// EV3 `outA` port.
    OutA,
    /// EV3 `outB` port.
    OutB,
    /// EV3 `outC` port.
    OutC,
    /// EV3 `outD` port.
    OutD,
}

impl MotorPort {
    /// The port whose device directory is `name`, rendered as its address;
    /// any other name passes through unchanged.
    pub open spec fn spec_format_name(name: Seq<char>) -> Seq<char> {
        if name == "motor0"@ {
            "outA"@
        } else if name == "motor1"@ {
            "outB"@
        } else if name == "motor2"@ {
            "outC"@
        } else if name == "motor3"@ {
            "outD"@
        } else {
            name
        }
    }

    /// Maps a device-directory name such as `motor0` to the address of
    /// the port it sits on.
    pub fn format_name(name: &str) -> (r: String)
        ensures
            r@ == MotorPort::spec_format_name(name@),
    {
        if text::str_eq(name, "motor0") {
            MotorPort::OutA.address()
        } else if text::str_eq(name, "motor1") {
            MotorPort::OutB.address()
        } else if text::str_eq(name, "motor2") {
            MotorPort::OutC.address()
        } else if text::str_eq(name, "motor3") {
            MotorPort::OutD.address()
        } else {
            name.to_owned()
        }
    }
}

impl Port for MotorPort {
    open spec fn spec_address(&self) -> Seq<char> {
        match self {
            MotorPort::OutA => "outA"@,
            MotorPort::OutB => "outB"@,
            MotorPort::OutC => "outC"@,
            MotorPort::OutD => "outD"@,
        }
    }

    fn address(&self) -> (r: String) {
        match self {
            MotorPort::OutA => String::from_str("outA"),
            MotorPort::OutB => String::from_str("outB"),
            MotorPort::OutC => String::from_str("outC"),
            MotorPort::OutD => String::from_str("outD"),
        }
    }
}

} // verus!
