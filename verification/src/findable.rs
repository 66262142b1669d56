//! The per-device-type resolver: one parameterized factory in place of a
//! family of identical `get`/`find`/`list` method sets.
//!
//! A device type is described by its class name, its accepted driver
//! names and a display name; resolution errors are rewritten to carry the
//! display name, and ambiguous ports are rendered through the port type's
//! name formatting.

use vstd::prelude::*;

use crate::driver;
use crate::driver::DeviceInfo;
use crate::utils::Ev3Error;
use crate::utils::Ev3Result;
use crate::utils::Port;

verus! {

/// A port naming scheme: how a raw device-directory name is rendered as
/// a port label in diagnostics.
pub trait NameFormat {
    /// The rendering of one raw name.
    spec fn spec_format(name: Seq<char>) -> Seq<char>;

    /// Renders one raw name.
    fn format(name: &str) -> (r: String)
        ensures
            r@ == Self::spec_format(name@),
    ;
}

impl NameFormat for crate::motors::MotorPort {
    open spec fn spec_format(name: Seq<char>) -> Seq<char> {
        crate::motors::MotorPort::spec_format_name(name)
    }

    fn format(name: &str) -> (r: String) {
        crate::motors::MotorPort::format_name(name)
    }
}

impl NameFormat for crate::sensors::SensorPort {
    open spec fn spec_format(name: Seq<char>) -> Seq<char> {
        crate::sensors::SensorPort::spec_format_name(name)
    }

    fn format(name: &str) -> (r: String) {
        crate::sensors::SensorPort::format_name(name)
    }
}

/// Rewrites a resolution error for one device type: the display name
/// replaces the raw driver list, and each ambiguous port is rendered
/// through `F`.
pub fn map_device_error<F: NameFormat>(e: Ev3Error, debug_name: &str) -> (r: Ev3Error)
    ensures
        e is InternalError ==> r == e,
        e matches Ev3Error::NotConnected { device: _, port } ==> (r
            matches Ev3Error::NotConnected { device: d2, port: p2 } && d2@ == debug_name@ && p2
            == port),
        e matches Ev3Error::MultipleMatches { device: _, ports } ==> (r
            matches Ev3Error::MultipleMatches { device: d2, ports: p2 } && d2@ == debug_name@
            && p2@.map_values(|s: String| s@) == ports@.map_values(|s: String| s@).map_values(
            |n: Seq<char>| F::spec_format(n),
        )),
{
    match e {
        Ev3Error::InternalError { msg } => Ev3Error::InternalError { msg },
        Ev3Error::NotConnected { device: _, port } => Ev3Error::NotConnected {
            device: debug_name.to_owned(),
            port,
        },
        Ev3Error::MultipleMatches { device: _, ports } => {
            let ghost pv = ports@.map_values(|s: String| s@);
            let mut formatted: Vec<String> = Vec::new();
            let mut i: usize = 0;
            proof {
                assert(formatted@.map_values(|s: String| s@) =~= pv.take(0).map_values(
                    |n: Seq<char>| F::spec_format(n),
                ));
            }
            while i < ports.len()
                invariant
                    pv == ports@.map_values(|s: String| s@),
                    pv.len() == ports@.len(),
                    forall|k: int| 0 <= k < pv.len() ==> pv[k] == ports@[k]@,
                    0 <= i <= ports@.len(),
                    formatted@.map_values(|s: String| s@) == pv.take(i as int).map_values(
                        |n: Seq<char>| F::spec_format(n),
                    ),
                decreases ports@.len() - i,
            {
                let ghost prev = formatted@;
                formatted.push(F::format(ports[i].as_str()));
                proof {
                    assert(pv.take(i + 1).map_values(|n: Seq<char>| F::spec_format(n)).drop_last()
                        =~= pv.take(i as int).map_values(|n: Seq<char>| F::spec_format(n)));
                    assert(pv.take(i + 1).map_values(|n: Seq<char>| F::spec_format(n)).last()
                        == F::spec_format(pv[i as int]));
                    assert(formatted@.map_values(|s: String| s@) =~= prev.map_values(
                        |s: String| s@,
                    ).push(F::spec_format(pv[i as int])));
                    assert(prev.map_values(|s: String| s@).push(F::spec_format(pv[i as int]))
                        =~= pv.take(i + 1).map_values(|n: Seq<char>| F::spec_format(n)));
                }
                i = i + 1;
            }
            proof {
                assert(pv.take(pv.len() as int) =~= pv);
            }
            Ev3Error::MultipleMatches { device: debug_name.to_owned(), ports: formatted }
        },
    }
}

/// Resolves one device of the described type on `port`: the first entry
/// whose address contains the port's address and whose driver name is
/// accepted.  Failures carry `debug_name` as the device kind.
pub fn get_device_name<P: Port, F: NameFormat>(
    entries: &Vec<DeviceInfo>,
    port: &P,
    driver_name_vec: &[&str],
    debug_name: &str,
) -> (r: Ev3Result<String>)
    ensures
        ({
            let ev = driver::entry_views(entries@);
            let dv = driver::driver_views(driver_name_vec@);
            &&& (r is Ok <==> exists|i: int|
                0 <= i < ev.len() && driver::pd_matches(#[trigger] ev[i], port.spec_address(), dv))
            &&& (r matches Ok(name) ==> exists|i: int|
                {
                    &&& 0 <= i < ev.len()
                    &&& driver::pd_matches(#[trigger] ev[i], port.spec_address(), dv)
                    &&& name@ == ev[i].name
                    &&& forall|k: int|
                        0 <= k < i ==> !driver::pd_matches(
                            #[trigger] ev[k],
                            port.spec_address(),
                            dv,
                        )
                })
            &&& (r matches Err(e) ==> (e matches Ev3Error::NotConnected { device, port: p }
                && device@ == debug_name@ && (p matches Some(pa) && pa@ == port.spec_address())))
        }),
{
    match driver::find_name_by_port_and_driver(entries, port, driver_name_vec) {
        Ok(name) => Ok(name),
        Err(e) => Err(map_device_error::<F>(e, debug_name)),
    }
}

/// Resolves the only device of the described type: exactly one entry may
/// carry an accepted driver name.  Failures carry `debug_name` as the
/// device kind, and an ambiguity renders each matching entry's address
/// through `F`.
pub fn find_device_name<F: NameFormat>(
    entries: &Vec<DeviceInfo>,
    driver_name_vec: &[&str],
    debug_name: &str,
) -> (r: Ev3Result<String>)
    ensures
        ({
            let names = driver::matching_names(
                driver::entry_views(entries@),
                driver::driver_views(driver_name_vec@),
            );
            let addresses = driver::matching_addresses(
                driver::entry_views(entries@),
                driver::driver_views(driver_name_vec@),
            );
            &&& (names.len() == 1 <==> r is Ok)
            &&& (r matches Ok(name) ==> name@ == names[0])
            &&& (names.len() == 0 ==> (r matches Err(e) && (e matches Ev3Error::NotConnected {
                device,
                port,
            } && device@ == debug_name@ && port is None)))
            &&& (names.len() > 1 ==> (r matches Err(e) && (e matches Ev3Error::MultipleMatches {
                device,
                ports,
            } && device@ == debug_name@ && ports@.map_values(|s: String| s@)
                == addresses.map_values(|n: Seq<char>| F::spec_format(n)))))
        }),
{
    match driver::find_name_by_driver(entries, driver_name_vec) {
        Ok(name) => Ok(name),
        Err(e) => Err(map_device_error::<F>(e, debug_name)),
    }
}

/// Resolves every device of the described type, in entry order.
pub fn list_device_names(entries: &Vec<DeviceInfo>, driver_name_vec: &[&str]) -> (r: Vec<String>)
    ensures
        r@.map_values(|s: String| s@) == driver::matching_names(
            driver::entry_views(entries@),
            driver::driver_views(driver_name_vec@),
        ),
{
    driver::find_names_by_driver(entries, driver_name_vec)
}

} // verus!
