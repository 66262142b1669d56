//! Ports of the BrickPi3 controller, which publishes its connectors under
//! `spi0.1:`-prefixed addresses.

use vstd::prelude::*;

use crate::text;
use crate::utils::Port;

verus! {

/// BrickPi3 output ports `MA` to `MD`.
#[derive(Debug, Copy, Clone)]
pub enum MotorPort {
    /// BrickPi3 `MA` port.
    OutA,
    /// BrickPi3 `MB` port.
    OutB,
    /// BrickPi3 `MC` port.
    OutC,
    /// BrickPi3 `MD` port.
    OutD,
}

impl MotorPort {
    /// The port whose device directory is `name`, rendered as its address;
    /// any other name passes through unchanged.
    pub open spec fn spec_format_name(name: Seq<char>) -> Seq<char> {
        if name == "motor0"@ {
            "spi0.1:MA"@
        } else if name == "motor1"@ {
            "spi0.1:MB"@
        } else if name == "motor2"@ {
            "spi0.1:MC"@
        } else if name == "motor3"@ {
            "spi0.1:MD"@
        } else {
            name
        }
    }

    /// Maps a device-directory name such as `motor0` to the address of
    /// the port it sits on.
    pub fn format_name(name: &str) -> (r: String)
        ensures
            r@ == MotorPort::spec_format_name(name@),
    {
        if text::str_eq(name, "motor0") {
            MotorPort::OutA.address()
        } else if text::str_eq(name, "motor1") {
            MotorPort::OutB.address()
        } else if text::str_eq(name, "motor2") {
            MotorPort::OutC.address()
        } else if text::str_eq(name, "motor3") {
            MotorPort::OutD.address()
        } else {
            name.to_owned()
        }
    }
}

impl Port for MotorPort {
    open spec fn spec_address(&self) -> Seq<char> {
        match self {
            MotorPort::OutA => "spi0.1:MA"@,
            MotorPort::OutB => "spi0.1:MB"@,
            MotorPort::OutC => "spi0.1:MC"@,
            MotorPort::OutD => "spi0.1:MD"@,
        }
    }

    fn address(&self) -> (r: String) {
        match self {
            MotorPort::OutA => String::from_str("spi0.1:MA"),
            MotorPort::OutB => String::from_str("spi0.1:MB"),
            MotorPort::OutC => String::from_str("spi0.1:MC"),
            MotorPort::OutD => String::from_str("spi0.1:MD"),
        }
    }
}

/// BrickPi3 input ports `S1` to `S4`.
#[derive(Debug, Copy, Clone)]
pub enum SensorPort {
    /// BrickPi3 `S1` port.
    In1,
    /// BrickPi3 `S2` port.
    In2,
    /// BrickPi3 `S3` port.
    In3,
    /// BrickPi3 `S4` port.
    In4,
}

impl SensorPort {
    /// The port whose device directory is `name`, rendered as its address;
    /// any other name passes through unchanged.
    pub open spec fn spec_format_name(name: Seq<char>) -> Seq<char> {
        if name == "sensor0"@ {
            "spi0.1:S1"@
        } else if name == "sensor1"@ {
            "spi0.1:S2"@
        } else if name == "sensor2"@ {
            "spi0.1:S3"@
        } else if name == "sensor3"@ {
            "spi0.1:S4"@
        } else {
            name
        }
    }

    /// Maps a device-directory name such as `sensor0` to the address of
    /// the port it sits on.
    pub fn format_name(name: &str) -> (r: String)
        ensures
            r@ == SensorPort::spec_format_name(name@),
    {
        if text::str_eq(name, "sensor0") {
            SensorPort::In1.address()
        } else if text::str_eq(name, "sensor1") {
            SensorPort::In2.address()
        } else if text::str_eq(name, "sensor2") {
            SensorPort::In3.address()
        } else if text::str_eq(name, "sensor3") {
            SensorPort::In4.address()
        } else {
            name.to_owned()
        }
    }
}

impl Port for SensorPort {
    open spec fn spec_address(&self) -> Seq<char> {
        match self {
            SensorPort::In1 => "spi0.1:S1"@,
            SensorPort::In2 => "spi0.1:S2"@,
            SensorPort::In3 => "spi0.1:S3"@,
            SensorPort::In4 => "spi0.1:S4"@,
        }
    }

    fn address(&self) -> (r: String) {
        match self {
            SensorPort::In1 => String::from_str("spi0.1:S1"),
            SensorPort::In2 => String::from_str("spi0.1:S2"),
            SensorPort::In3 => String::from_str("spi0.1:S3"),
            SensorPort::In4 => String::from_str("spi0.1:S4"),
        }
    }
}

} // verus!
