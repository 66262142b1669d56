//! Ports of the BrickPi controller, which publishes its connectors under
//! `serial0-0:`-prefixed addresses.

use vstd::prelude::*;

use crate::text;
use crate::utils::Port;

verus! {

/// BrickPi output ports `MA` to `MD`.
#[derive(Debug, Copy, Clone)]
pub enum MotorPort {
    /// BrickPi `MA` port.
    OutA,
    /// BrickPi `MB` port.
    OutB,
    /// BrickPi `MC` port.
    OutC,
    /// BrickPi `MD` port.
    OutD,
}

impl MotorPort {
    /// The port whose device directory is `name`, rendered as its address;
    /// any other name passes through unchanged.
    pub open spec fn spec_format_name(name: Seq<char>) -> Seq<char> {
        if name == "motor0"@ {
            "serial0-0:MA"@
        } else if name == "motor1"@ {
            "serial0-0:MB"@
        } else if name == "motor2"@ {
            "serial0-0:MC"@
        } else if name == "motor3"@ {
            "serial0-0:MD"@
        } else {
            name
        }
    }

    /// Maps a device-directory name such as `motor0` to the address of
    /// the port it sits on.
    pub fn format_name(name: &str) -> (r: String)
        ensures
            r@ == MotorPort::spec_format_name(name@),
    {
        if text::str_eq(name, "motor0") {
            MotorPort::OutA.address()
        } else if text::str_eq(name, "motor1") {
            MotorPort::OutB.address()
        } else if text::str_eq(name, "motor2") {
            MotorPort::OutC.address()
        } else if text::str_eq(name, "motor3") {
            MotorPort::OutD.address()
        } else {
            name.to_owned()
        }
    }
}

impl Port for MotorPort {
    open spec fn spec_address(&self) -> Seq<char> {
        match self {
            MotorPort::OutA => "serial0-0:MA"@,
            MotorPort::OutB => "serial0-0:MB"@,
            MotorPort::OutC => "serial0-0:MC"@,
            MotorPort::OutD => "serial0-0:MD"@,
        }
    }

    fn address(&self) -> (r: String) {
        match self {
            MotorPort::OutA => String::from_str("serial0-0:MA"),
            MotorPort::OutB => String::from_str("serial0-0:MB"),
            MotorPort::OutC => String::from_str("serial0-0:MC"),
            MotorPort::OutD => String::from_str("serial0-0:MD"),
        }
    }
}

/// BrickPi input ports `S1` to `S4`.
#[derive(Debug, Copy, Clone)]
pub enum SensorPort {
    /// BrickPi `S1` port.
    In1,
    /// BrickPi `S2` port.
    In2,
    /// BrickPi `S3` port.
    In3,
    /// BrickPi `S4` port.
    In4,
}

impl SensorPort {
    /// The port whose device directory is `name`, rendered as its address;
    /// any other name passes through unchanged.
    pub open spec fn spec_format_name(name: Seq<char>) -> Seq<char> {
        if name == "sensor0"@ {
            "serial0-0:S1"@
        } else if name == "sensor1"@ {
            "serial0-0:S2"@
        } else if name == "sensor2"@ {
            "serial0-0:S3"@
        } else if name == "sensor3"@ {
            "serial0-0:S4"@
        } else {
            name
        }
    }

    /// Maps a device-directory name such as `sensor0` to the address of
    /// the port it sits on.
    pub fn format_name(name: &str) -> (r: String)
        ensures
            r@ == SensorPort::spec_format_name(name@),
    {
        if text::str_eq(name, "sensor0") {
            SensorPort::In1.address()
        } else if text::str_eq(name, "sensor1") {
            SensorPort::In2.address()
        } else if text::str_eq(name, "sensor2") {
            SensorPort::In3.address()
        } else if text::str_eq(name, "sensor3") {
            SensorPort::In4.address()
        } else {
            name.to_owned()
        }
    }
}

impl Port for SensorPort {
    open spec fn spec_address(&self) -> Seq<char> {
        match self {
            SensorPort::In1 => "serial0-0:S1"@,
            SensorPort::In2 => "serial0-0:S2"@,
            SensorPort::In3 => "serial0-0:S3"@,
            SensorPort::In4 => "serial0-0:S4"@,
        }
    }

    fn address(&self) -> (r: String) {
        match self {
            SensorPort::In1 => String::from_str("serial0-0:S1"),
            SensorPort::In2 => String::from_str("serial0-0:S2"),
            SensorPort::In3 => String::from_str("serial0-0:S3"),
            SensorPort::In4 => String::from_str("serial0-0:S4"),
        }
    }
}

} // verus!
