//! Sensor ports of the EV3 brick, the `value<N>` attribute naming, and
//! the decoding of the infrared remote control's button states.

use vstd::prelude::*;

use crate::numbers;
use crate::text;
use crate::utils::Ev3Error;
use crate::utils::Ev3Result;
use crate::utils::Port;

verus! {

/// EV3 ports `in1` to `in4`.
#[derive(Debug, Copy, Clone)]
pub enum SensorPort {
    /// EV3 `in1` port.
    In1,
    /// EV3 `in2` port.
    In2,
    /// EV3 `in3` port.
    In3,
    /// EV3 `in4` port.
    In4,
}

impl SensorPort {
    /// The port whose device directory is `name`, rendered as its address;
    /// any other name passes through unchanged.
    pub open spec fn spec_format_name(name: Seq<char>) -> Seq<char> {
        if name == "sensor0"@ {
            "in1"@
        } else if name == "sensor1"@ {
            "in2"@
        } else if name == "sensor2"@ {
            "in3"@
        } else if name == "sensor3"@ {
            "in4"@
        } else {
            name
        }
    }

    /// Maps a device-directory name such as `sensor0` to the address of
    /// the port it sits on.
    pub fn format_name(name: &str) -> (r: String)
        ensures
            r@ == SensorPort::spec_format_name(name@),
    {
        if text::str_eq(name, "sensor0") {
            SensorPort::In1.address()
        } else if text::str_eq(name, "sensor1") {
            SensorPort::In2.address()
        } else if text::str_eq(name, "sensor2") {
            SensorPort::In3.address()
        } else if text::str_eq(name, "sensor3") {
            SensorPort::In4.address()
        } else {
            name.to_owned()
        }
    }
}

impl Port for SensorPort {
    open spec fn spec_address(&self) -> Seq<char> {
        match self {
            SensorPort::In1 => "in1"@,
            SensorPort::In2 => "in2"@,
            SensorPort::In3 => "in3"@,
            SensorPort::In4 => "in4"@,
        }
    }

    fn address(&self) -> (r: String) {
        match self {
            SensorPort::In1 => String::from_str("in1"),
            SensorPort::In2 => String::from_str("in2"),
            SensorPort::In3 => String::from_str("in3"),
            SensorPort::In4 => String::from_str("in4"),
        }
    }
}

/// The name of the sensor attribute `value<index>`.
pub open spec fn value_name_text(index: int) -> Seq<char> {
    "value"@ + numbers::dec_digits(index)
}

/// Returns the attribute name `value<index>` for reading one sensor
/// value.  Indices above 7 are out of the `value0` to `value7` range the
/// kernel publishes and yield an error.
pub fn value_attribute_name(index: u8) -> (r: Ev3Result<String>)
    ensures
        index <= 7 <==> r is Ok,
        r matches Ok(v) ==> v@ == value_name_text(index as int),
        r matches Err(e) ==> (e matches Ev3Error::InternalError { msg } && msg@
            == "Sensor value index "@ + numbers::dec_digits(index as int)
            + " is out of bounds [0, 7]"@),
    {
    if index <= 7 {
        let mut out = String::from_str("value");
        out.append(numbers::format_u32_dec(index as u32).as_str());
        Ok(out)
    } else {
        let mut msg = String::from_str("Sensor value index ");
        msg.append(numbers::format_u32_dec(index as u32).as_str());
        msg.append(" is out of bounds [0, 7]");
        Err(Ev3Error::InternalError { msg })
    }
}

/// Zero-based remote-control channel for a caller-supplied channel
/// number, clamped to the four channels of the hardware.
pub open spec fn spec_clamp_channel(channel: int) -> int {
    (if channel < 1 {
        1int
    } else if channel > 4 {
        4int
    } else {
        channel
    }) - 1
}

/// Clamps a remote-control channel number to `1..=4` and converts it to
/// its zero-based form.
pub fn clamp_channel(channel: u8) -> (r: u8)
    ensures
        r == spec_clamp_channel(channel as int),
{
    let c = if channel < 1 {
        1
    } else if channel > 4 {
        4
    } else {
        channel
    };
    c - 1
}

/// The button names pressed on the remote for a raw `value<channel>`
/// reading, per the eleven combinations the sensor reports.
pub open spec fn remote_pressed_names(buttons: int) -> Seq<Seq<char>> {
    if buttons == 1 {
        seq!["red_up"@]
    } else if buttons == 2 {
        seq!["red_down"@]
    } else if buttons == 3 {
        seq!["blue_up"@]
    } else if buttons == 4 {
        seq!["blue_down"@]
    } else if buttons == 5 {
        seq!["red_up"@, "blue_up"@]
    } else if buttons == 6 {
        seq!["red_up"@, "blue_down"@]
    } else if buttons == 7 {
        seq!["red_down"@, "blue_up"@]
    } else if buttons == 8 {
        seq!["red_down"@, "blue_down"@]
    } else if buttons == 9 {
        seq!["beacon"@]
    } else if buttons == 10 {
        seq!["red_up"@, "red_down"@]
    } else if buttons == 11 {
        seq!["blue_up"@, "blue_down"@]
    } else {
        Seq::empty()
    }
}

fn name_vec1(a: &str) -> (r: Vec<String>)
    ensures
        r@.map_values(|s: String| s@) == seq![a@],
{
    let mut v: Vec<String> = Vec::new();
    v.push(a.to_owned());
    proof {
        assert(v@.map_values(|s: String| s@) =~= seq![a@]);
    }
    v
}

fn name_vec2(a: &str, b: &str) -> (r: Vec<String>)
    ensures
        r@.map_values(|s: String| s@) == seq![a@, b@],
{
    let mut v: Vec<String> = Vec::new();
    v.push(a.to_owned());
    v.push(b.to_owned());
    proof {
        assert(v@.map_values(|s: String| s@) =~= seq![a@, b@]);
    }
    v
}

/// Builds the pressed-name list for a raw remote reading.
fn remote_button_names(buttons: i32) -> (r: Vec<String>)
    ensures
        r@.map_values(|s: String| s@) == remote_pressed_names(buttons as int),
{
    if buttons == 1 {
        name_vec1("red_up")
    } else if buttons == 2 {
        name_vec1("red_down")
    } else if buttons == 3 {
        name_vec1("blue_up")
    } else if buttons == 4 {
        name_vec1("blue_down")
    } else if buttons == 5 {
        name_vec2("red_up", "blue_up")
    } else if buttons == 6 {
        name_vec2("red_up", "blue_down")
    } else if buttons == 7 {
        name_vec2("red_down", "blue_up")
    } else if buttons == 8 {
        name_vec2("red_down", "blue_down")
    } else if buttons == 9 {
        name_vec1("beacon")
    } else if buttons == 10 {
        name_vec2("red_up", "red_down")
    } else if buttons == 11 {
        name_vec2("blue_up", "blue_down")
    } else {
        let v: Vec<String> = Vec::new();
        proof {
            assert(v@.map_values(|s: String| s@) =~= Seq::<Seq<char>>::empty());
        }
        v
    }
}

/// Edge-triggered state of the infrared remote control: the last raw
/// reading and the button names it decodes to.
#[derive(Debug)]
pub struct RemoteControlHelper {
    last_buttons: i32,
    pressed_buttons: Vec<String>,
}

impl RemoteControlHelper {
    /// The raw reading the state was last updated from.
    pub closed spec fn spec_last_buttons(&self) -> int {
        self.last_buttons as int
    }

    /// Names of the buttons currently held, in decode order.
    pub closed spec fn spec_pressed(&self) -> Seq<Seq<char>> {
        self.pressed_buttons@.map_values(|s: String| s@)
    }

    /// Creates the initial state: nothing read, nothing pressed.
    pub fn new() -> (r: RemoteControlHelper)
        ensures
            r.spec_last_buttons() == 0,
            r.spec_pressed().len() == 0,
    {
        let r = RemoteControlHelper { last_buttons: 0, pressed_buttons: Vec::new() };
        proof {
            assert(r.spec_pressed() =~= Seq::<Seq<char>>::empty());
        }
        r
    }

    /// Whether `button` is among the currently pressed names.
    pub fn contains(&self, button: &str) -> (r: bool)
        ensures
            r == self.spec_pressed().contains(button@),
    {
        let mut i: usize = 0;
        while i < self.pressed_buttons.len()
            invariant
                0 <= i <= self.pressed_buttons@.len(),
                forall|k: int| 0 <= k < i ==> self.spec_pressed()[k] != button@,
            decreases self.pressed_buttons@.len() - i,
        {
            if text::string_eq_str(&self.pressed_buttons[i], button) {
                assert(self.spec_pressed()[i as int] == button@);
                return true;
            }
            i = i + 1;
        }
        assert(forall|k: int| 0 <= k < self.spec_pressed().len() ==> self.spec_pressed()[k]
            != button@);
        false
    }

    /// Feeds one raw reading: an unchanged reading leaves the state
    /// alone, a changed one replaces it with the reading's decoded
    /// button-name set.
    pub fn process(&mut self, buttons: i32)
        ensures
            final(self).spec_last_buttons() == buttons as int,
            buttons == old(self).spec_last_buttons() ==> final(self).spec_pressed() == old(
                self,
            ).spec_pressed(),
            buttons != old(self).spec_last_buttons() ==> final(self).spec_pressed()
                == remote_pressed_names(buttons as int),
    {
        if self.last_buttons != buttons {
            self.last_buttons = buttons;
            self.pressed_buttons = remote_button_names(buttons);
        }
    }

    /// Whether the `red_up` button is held.
    pub fn is_red_up(&self) -> (r: bool)
        ensures
            r == self.spec_pressed().contains("red_up"@),
    {
        self.contains("red_up")
    }

    /// Whether the `red_down` button is held.
    pub fn is_red_down(&self) -> (r: bool)
        ensures
            r == self.spec_pressed().contains("red_down"@),
    {
        self.contains("red_down")
    }

    /// Whether the `blue_up` button is held.
    pub fn is_blue_up(&self) -> (r: bool)
        ensures
            r == self.spec_pressed().contains("blue_up"@),
    {
        self.contains("blue_up")
    }

    /// Whether the `blue_down` button is held.
    pub fn is_blue_down(&self) -> (r: bool)
        ensures
            r == self.spec_pressed().contains("blue_down"@),
    {
        self.contains("blue_down")
    }

    /// Whether the `beacon` button is held.
    pub fn is_beacon(&self) -> (r: bool)
        ensures
            r == self.spec_pressed().contains("beacon"@),
    {
        self.contains("beacon")
    }
}

} // verus!
