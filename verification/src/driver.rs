//! Device resolution and the per-device attribute cache.
//!
//! Resolution turns the entries of one class directory into a concrete
//! device name: by port and accepted driver names, by driver names alone,
//! or as the list of every match.  The directory scan itself and the
//! attribute reads belong to the caller, which passes each entry's name
//! together with the text of its `address` and `driver_name` attributes.

use vstd::prelude::*;

use crate::text;
use crate::utils::Ev3Error;
use crate::utils::Ev3Result;
use crate::utils::Port;
use crate::attribute::Attribute;
use crate::attribute::sys_class_path;
use crate::attribute::build_sys_class_path;

verus! {

/// One entry of a class directory: the device name and the values of its
/// two resolution attributes.
#[derive(Debug)]
pub struct DeviceInfo {
    /// Directory-entry name of the device.
    pub name: String,
    /// Content of the `address` attribute, the port-identifying token.
    pub address: String,
    /// Content of the `driver_name` attribute, the driver identity.
    pub driver_name: String,
}

/// Ghost image of a [`DeviceInfo`].
pub ghost struct DeviceInfoView {
    /// Directory-entry name.
    pub name: Seq<char>,
    /// `address` attribute value.
    pub address: Seq<char>,
    /// `driver_name` attribute value.
    pub driver_name: Seq<char>,
}

impl View for DeviceInfo {
    type V = DeviceInfoView;

    open spec fn view(&self) -> DeviceInfoView {
        DeviceInfoView { name: self.name@, address: self.address@, driver_name: self.driver_name@ }
    }
}

/// The views of a list of accepted driver names.
pub open spec fn driver_views(drivers: Seq<&str>) -> Seq<Seq<char>> {
    drivers.map_values(|d: &str| d@)
}

/// The views of a list of directory entries.
pub open spec fn entry_views(entries: Seq<DeviceInfo>) -> Seq<DeviceInfoView> {
    entries.map_values(|e: DeviceInfo| e@)
}

/// `d` equals one of the accepted driver names.
pub open spec fn driver_accepted(drivers: Seq<Seq<char>>, d: Seq<char>) -> bool {
    exists|i: int| 0 <= i < drivers.len() && drivers[i] == d
}

/// The entry matches a port-and-driver query: its address contains the
/// port token and its driver name is accepted.
pub open spec fn pd_matches(e: DeviceInfoView, port: Seq<char>, drivers: Seq<Seq<char>>) -> bool {
    text::contains_seq(e.address, port) && driver_accepted(drivers, e.driver_name)
}

/// The entry matches a driver-only query.
pub open spec fn d_matches(e: DeviceInfoView, drivers: Seq<Seq<char>>) -> bool {
    driver_accepted(drivers, e.driver_name)
}

/// Names of the entries matching a driver-only query, in entry order.
pub open spec fn matching_names(entries: Seq<DeviceInfoView>, drivers: Seq<Seq<char>>) -> Seq<
    Seq<char>,
>
    decreases entries.len(),
{
    if entries.len() == 0 {
        Seq::empty()
    } else if d_matches(entries.last(), drivers) {
        matching_names(entries.drop_last(), drivers).push(entries.last().name)
    } else {
        matching_names(entries.drop_last(), drivers)
    }
}

/// Addresses of the entries matching a driver-only query, in entry order.
pub open spec fn matching_addresses(entries: Seq<DeviceInfoView>, drivers: Seq<Seq<char>>) -> Seq<
    Seq<char>,
>
    decreases entries.len(),
{
    if entries.len() == 0 {
        Seq::empty()
    } else if d_matches(entries.last(), drivers) {
        matching_addresses(entries.drop_last(), drivers).push(entries.last().address)
    } else {
        matching_addresses(entries.drop_last(), drivers)
    }
}

/// Debug-style rendering of one quoted name.
pub open spec fn quoted(s: Seq<char>) -> Seq<char> {
    seq!['"'] + s + seq!['"']
}

/// Comma-separated quoted names.
pub open spec fn comma_joined(items: Seq<Seq<char>>) -> Seq<char>
    decreases items.len(),
{
    if items.len() == 0 {
        Seq::empty()
    } else if items.len() == 1 {
        quoted(items[0])
    } else {
        comma_joined(items.drop_last()) + ", "@ + quoted(items.last())
    }
}

/// The device-kind description carried by resolution errors: the accepted
/// driver names as a bracketed, quoted list.
pub open spec fn driver_list_text(items: Seq<Seq<char>>) -> Seq<char> {
    seq!['['] + comma_joined(items) + seq![']']
}

/// Renders the accepted driver names for an error message.
pub fn format_driver_list(driver_name_vec: &[&str]) -> (r: String)
    ensures
        r@ == driver_list_text(driver_views(driver_name_vec@)),
{
    proof {
        reveal_strlit("[");
        reveal_strlit("]");
        reveal_strlit("\"");
        reveal_strlit(", ");
    }
    let ghost dv = driver_views(driver_name_vec@);
    let mut out = String::from_str("[");
    let mut i: usize = 0;
    proof {
        assert(out@ =~= seq!['['] + comma_joined(dv.take(0)));
    }
    while i < driver_name_vec.len()
        invariant
            dv == driver_views(driver_name_vec@),
            dv.len() == driver_name_vec@.len(),
            forall|k: int| 0 <= k < dv.len() ==> dv[k] == driver_name_vec@[k]@,
            0 <= i <= driver_name_vec@.len(),
            out@ == seq!['['] + comma_joined(dv.take(i as int)),
        decreases driver_name_vec@.len() - i,
    {
        proof {
            reveal_strlit("[");
            reveal_strlit("\"");
            reveal_strlit(", ");
        }
        if i > 0 {
            out.append(", ");
        }
        out.append("\"");
        out.append(driver_name_vec[i]);
        out.append("\"");
        proof {
            let t = dv.take(i + 1);
            assert(t.drop_last() =~= dv.take(i as int));
            assert(t.last() == dv[i as int]);
            if i == 0 {
                assert(comma_joined(t) == quoted(dv[0]));
                assert(out@ =~= seq!['['] + comma_joined(t));
            } else {
                assert(comma_joined(t) == comma_joined(dv.take(i as int)) + ", "@ + quoted(
                    dv[i as int],
                ));
                assert(out@ =~= seq!['['] + comma_joined(t));
            }
        }
        i = i + 1;
    }
    proof {
        assert(dv.take(dv.len() as int) =~= dv);
    }
    out.append("]");
    assert(out@ =~= driver_list_text(dv));
    out
}

fn format_string_list(items: &Vec<String>) -> (r: String)
    ensures
        r@ == driver_list_text(items@.map_values(|s: String| s@)),
{
    proof {
        reveal_strlit("[");
        reveal_strlit("]");
    }
    let ghost iv = items@.map_values(|s: String| s@);
    let mut out = String::from_str("[");
    let mut i: usize = 0;
    proof {
        assert(out@ =~= seq!['['] + comma_joined(iv.take(0)));
    }
    while i < items.len()
        invariant
            iv == items@.map_values(|s: String| s@),
            iv.len() == items@.len(),
            forall|k: int| 0 <= k < iv.len() ==> iv[k] == items@[k]@,
            0 <= i <= items@.len(),
            out@ == seq!['['] + comma_joined(iv.take(i as int)),
        decreases items@.len() - i,
    {
        proof {
            reveal_strlit("[");
            reveal_strlit("\"");
            reveal_strlit(", ");
        }
        if i > 0 {
            out.append(", ");
        }
        out.append("\"");
        out.append(items[i].as_str());
        out.append("\"");
        proof {
            let t = iv.take(i + 1);
            assert(t.drop_last() =~= iv.take(i as int));
            assert(t.last() == iv[i as int]);
            if i == 0 {
                assert(comma_joined(t) == quoted(iv[0]));
                assert(out@ =~= seq!['['] + comma_joined(t));
            } else {
                assert(comma_joined(t) == comma_joined(iv.take(i as int)) + ", "@ + quoted(
                    iv[i as int],
                ));
                assert(out@ =~= seq!['['] + comma_joined(t));
            }
        }
        i = i + 1;
    }
    proof {
        assert(iv.take(iv.len() as int) =~= iv);
    }
    out.append("]");
    assert(out@ =~= driver_list_text(iv));
    out
}

/// Debug-style rendering of an optional port address.
pub open spec fn option_port_text(port: Option<String>) -> Seq<char> {
    match port {
        Option::Some(p) => "Some(\""@ + p@ + "\")"@,
        Option::None => "None"@,
    }
}

/// The one-line description of an error, as it surfaces to the
/// outermost caller.
pub open spec fn error_message_text(e: Ev3Error) -> Seq<char> {
    match e {
        Ev3Error::InternalError { msg } => "InternalError: "@ + msg@ + "!"@,
        Ev3Error::NotConnected { device, port } => "'"@ + device@ + "' not connected at port "@
            + option_port_text(port) + "!"@,
        Ev3Error::MultipleMatches { device, ports } => "Multiple '"@ + device@
            + "' connected at ports "@ + driver_list_text(ports@.map_values(|s: String| s@))
            + "!"@,
    }
}

impl Ev3Error {
    /// Renders this error as its one-line description.
    pub fn message(&self) -> (r: String)
        ensures
            r@ == error_message_text(*self),
    {
        match self {
            Ev3Error::InternalError { msg } => {
                let mut out = String::from_str("InternalError: ");
                out.append(msg.as_str());
                out.append("!");
                out
            },
            Ev3Error::NotConnected { device, port } => {
                let mut out = String::from_str("'");
                out.append(device.as_str());
                out.append("' not connected at port ");
                match port {
                    Some(p) => {
                        out.append("Some(\"");
                        out.append(p.as_str());
                        out.append("\")");
                    },
                    None => {
                        out.append("None");
                    },
                }
                out.append("!");
                out
            },
            Ev3Error::MultipleMatches { device, ports } => {
                let mut out = String::from_str("Multiple '");
                out.append(device.as_str());
                out.append("' connected at ports ");
                out.append(format_string_list(ports).as_str());
                out.append("!");
                out
            },
        }
    }
}

/// Whether `driver_name` equals one of the accepted names.
pub fn driver_name_in(driver_name_vec: &[&str], driver_name: &str) -> (r: bool)
    ensures
        r == driver_accepted(driver_views(driver_name_vec@), driver_name@),
{
    let mut i: usize = 0;
    while i < driver_name_vec.len()
        invariant
            0 <= i <= driver_name_vec@.len(),
            forall|k: int| 0 <= k < i ==> driver_name_vec@[k]@ != driver_name@,
        decreases driver_name_vec@.len() - i,
    {
        if text::str_eq(driver_name_vec[i], driver_name) {
            assert(driver_views(driver_name_vec@)[i as int] == driver_name@);
            return true;
        }
        i = i + 1;
    }
    assert(forall|k: int| 0 <= k < driver_name_vec@.len() ==> driver_views(driver_name_vec@)[k]
        != driver_name@);
    false
}

/// Resolution by port and accepted driver names.
///
/// Keeps the entries whose address contains the port's address as a
/// substring, and among those the ones whose driver name is accepted;
/// returns the first such entry's name in entry order.  No match is a
/// `NotConnected` error carrying the rendered driver list and the port.
pub fn find_name_by_port_and_driver<P: Port>(
    entries: &Vec<DeviceInfo>,
    port: &P,
    driver_name_vec: &[&str],
) -> (r: Ev3Result<String>)
    ensures
        ({
            let ev = entry_views(entries@);
            let dv = driver_views(driver_name_vec@);
            &&& (r is Ok <==> exists|i: int|
                0 <= i < ev.len() && pd_matches(#[trigger] ev[i], port.spec_address(), dv))
            &&& (r matches Ok(name) ==> exists|i: int|
                {
                    &&& 0 <= i < ev.len()
                    &&& pd_matches(#[trigger] ev[i], port.spec_address(), dv)
                    &&& name@ == ev[i].name
                    &&& forall|k: int| 0 <= k < i ==> !pd_matches(#[trigger] ev[k], port.spec_address(), dv)
                })
            &&& (r matches Err(e) ==> (e matches Ev3Error::NotConnected { device, port: p }
                && device@ == driver_list_text(dv) && (p matches Some(pa) && pa@
                == port.spec_address())))
        }),
{
    let ghost ev = entry_views(entries@);
    let ghost dv = driver_views(driver_name_vec@);
    let port_address = port.address();
    let mut i: usize = 0;
    while i < entries.len()
        invariant
            ev == entry_views(entries@),
            dv == driver_views(driver_name_vec@),
            ev.len() == entries@.len(),
            forall|k: int| 0 <= k < ev.len() ==> ev[k] == entries@[k]@,
            port_address@ == port.spec_address(),
            0 <= i <= entries@.len(),
            forall|k: int| 0 <= k < i ==> !pd_matches(#[trigger] ev[k], port.spec_address(), dv),
        decreases entries@.len() - i,
    {
        let e = &entries[i];
        if text::str_contains(e.address.as_str(), port_address.as_str()) {
            if driver_name_in(driver_name_vec, e.driver_name.as_str()) {
                assert(pd_matches(ev[i as int], port.spec_address(), dv));
                return Ok(e.name.clone());
            }
        }
        assert(!pd_matches(ev[i as int], port.spec_address(), dv));
        i = i + 1;
    }
    Err(
        Ev3Error::NotConnected {
            device: format_driver_list(driver_name_vec),
            port: Some(port_address),
        },
    )
}

/// Resolution by driver names alone: the names of every matching entry,
/// in entry order.
pub fn find_names_by_driver(entries: &Vec<DeviceInfo>, driver_name_vec: &[&str]) -> (r: Vec<
    String,
>)
    ensures
        r@.map_values(|s: String| s@) == matching_names(
            entry_views(entries@),
            driver_views(driver_name_vec@),
        ),
{
    let ghost ev = entry_views(entries@);
    let ghost dv = driver_views(driver_name_vec@);
    let mut found: Vec<String> = Vec::new();
    let mut i: usize = 0;
    proof {
        assert(ev.take(0) =~= Seq::<DeviceInfoView>::empty());
        assert(found@.map_values(|s: String| s@) =~= matching_names(ev.take(0), dv));
    }
    while i < entries.len()
        invariant
            ev == entry_views(entries@),
            dv == driver_views(driver_name_vec@),
            ev.len() == entries@.len(),
            forall|k: int| 0 <= k < ev.len() ==> ev[k] == entries@[k]@,
            0 <= i <= entries@.len(),
            found@.map_values(|s: String| s@) == matching_names(ev.take(i as int), dv),
        decreases entries@.len() - i,
    {
        let e = &entries[i];
        proof {
            assert(ev.take(i + 1).drop_last() =~= ev.take(i as int));
            assert(ev.take(i + 1).last() == ev[i as int]);
        }
        if driver_name_in(driver_name_vec, e.driver_name.as_str()) {
            let ghost prev = found@;
            found.push(e.name.clone());
            proof {
                assert(found@.map_values(|s: String| s@) =~= prev.map_values(
                    |s: String| s@,
                ).push(ev[i as int].name));
            }
        }
        i = i + 1;
    }
    proof {
        assert(ev.take(ev.len() as int) =~= ev);
    }
    found
}

/// Resolution by driver names alone, demanding exactly one match.
///
/// No match is `NotConnected`; several matches are `MultipleMatches`
/// carrying the matching entries' port addresses, in entry order.
pub fn find_name_by_driver(entries: &Vec<DeviceInfo>, driver_name_vec: &[&str]) -> (r: Ev3Result<
    String,
>)
    ensures
        ({
            let names = matching_names(entry_views(entries@), driver_views(driver_name_vec@));
            let addresses = matching_addresses(
                entry_views(entries@),
                driver_views(driver_name_vec@),
            );
            let device_text = driver_list_text(driver_views(driver_name_vec@));
            &&& (names.len() == 1 <==> r is Ok)
            &&& (r matches Ok(name) ==> name@ == names[0])
            &&& (names.len() == 0 ==> (r matches Err(e) && (e matches Ev3Error::NotConnected {
                device,
                port,
            } && device@ == device_text && port is None)))
            &&& (names.len() > 1 ==> (r matches Err(e) && (e matches Ev3Error::MultipleMatches {
                device,
                ports,
            } && device@ == device_text && ports@.map_values(|s: String| s@) == addresses)))
        }),
{
    let ghost ev = entry_views(entries@);
    let ghost dv = driver_views(driver_name_vec@);
    let mut names: Vec<String> = Vec::new();
    let mut addresses: Vec<String> = Vec::new();
    let mut i: usize = 0;
    proof {
        assert(ev.take(0) =~= Seq::<DeviceInfoView>::empty());
        assert(names@.map_values(|s: String| s@) =~= matching_names(ev.take(0), dv));
        assert(addresses@.map_values(|s: String| s@) =~= matching_addresses(ev.take(0), dv));
    }
    while i < entries.len()
        invariant
            ev == entry_views(entries@),
            dv == driver_views(driver_name_vec@),
            ev.len() == entries@.len(),
            forall|k: int| 0 <= k < ev.len() ==> ev[k] == entries@[k]@,
            0 <= i <= entries@.len(),
            names@.map_values(|s: String| s@) == matching_names(ev.take(i as int), dv),
            addresses@.map_values(|s: String| s@) == matching_addresses(ev.take(i as int), dv),
        decreases entries@.len() - i,
    {
        let e = &entries[i];
        proof {
            assert(ev.take(i + 1).drop_last() =~= ev.take(i as int));
            assert(ev.take(i + 1).last() == ev[i as int]);
        }
        if driver_name_in(driver_name_vec, e.driver_name.as_str()) {
            let ghost prev_names = names@;
            let ghost prev_addresses = addresses@;
            names.push(e.name.clone());
            addresses.push(e.address.clone());
            proof {
                assert(names@.map_values(|s: String| s@) =~= prev_names.map_values(
                    |s: String| s@,
                ).push(ev[i as int].name));
                assert(addresses@.map_values(|s: String| s@) =~= prev_addresses.map_values(
                    |s: String| s@,
                ).push(ev[i as int].address));
            }
        }
        i = i + 1;
    }
    proof {
        assert(ev.take(ev.len() as int) =~= ev);
    }
    if names.len() == 0 {
        Err(Ev3Error::NotConnected { device: format_driver_list(driver_name_vec), port: None })
    } else if names.len() == 1 {
        let name = names[0].clone();
        assert(name@ == matching_names(ev, dv)[0]);
        Ok(name)
    } else {
        Err(
            Ev3Error::MultipleMatches {
                device: format_driver_list(driver_name_vec),
                ports: addresses,
            },
        )
    }
}

/// Membership of an attribute name in an association list.
pub open spec fn assoc_lookup(s: Seq<(String, Attribute)>, name: Seq<char>) -> Option<Attribute>
    decreases s.len(),
{
    if s.len() == 0 {
        Option::None
    } else if s[0].0@ == name {
        Option::Some(s[0].1)
    } else {
        assoc_lookup(s.drop_first(), name)
    }
}

proof fn lemma_assoc_push(s: Seq<(String, Attribute)>, p: (String, Attribute), name: Seq<char>)
    ensures
        assoc_lookup(s.push(p), name) == (if assoc_lookup(s, name) is Some {
            assoc_lookup(s, name)
        } else if p.0@ == name {
            Option::Some(p.1)
        } else {
            Option::<Attribute>::None
        }),
    decreases s.len(),
{
    if s.len() == 0 {
        assert(s.push(p)[0] == p);
        assert(s.push(p).drop_first() =~= Seq::<(String, Attribute)>::empty());
        if p.0@ == name {
            assert(assoc_lookup(s.push(p), name) == Option::Some(p.1));
        } else {
            assert(assoc_lookup(s.push(p), name) == assoc_lookup(s.push(p).drop_first(), name));
            assert(assoc_lookup(s.push(p), name) is None);
        }
    } else {
        assert(s.push(p)[0] == s[0]);
        assert(s.push(p).drop_first() =~= s.drop_first().push(p));
        if s[0].0@ == name {
            assert(assoc_lookup(s.push(p), name) == Option::Some(s[0].1));
            assert(assoc_lookup(s, name) == Option::Some(s[0].1));
        } else {
            lemma_assoc_push(s.drop_first(), p, name);
            assert(assoc_lookup(s.push(p), name) == assoc_lookup(s.drop_first().push(p), name));
            assert(assoc_lookup(s, name) == assoc_lookup(s.drop_first(), name));
        }
    }
}

/// The per-device attribute cache: at most one [`Attribute`] per
/// attribute name, inserted on first use and returned unchanged on every
/// later request for the same name.
#[derive(Debug)]
pub struct Driver {
    class_name: String,
    name: String,
    attributes: Vec<(String, Attribute)>,
}

impl Driver {
    /// Class-directory name of the device.
    pub closed spec fn spec_class_name(&self) -> Seq<char> {
        self.class_name@
    }

    /// Directory-entry name of the device.
    pub closed spec fn spec_name(&self) -> Seq<char> {
        self.name@
    }

    /// The attribute cached under `name`, if any.
    pub closed spec fn spec_lookup(&self, name: Seq<char>) -> Option<Attribute> {
        assoc_lookup(self.attributes@, name)
    }

    /// Creates an empty cache for the device `name` in `class_name`.
    pub fn new(class_name: &str, name: &str) -> (r: Driver)
        ensures
            r.spec_class_name() == class_name@,
            r.spec_name() == name@,
            forall|n: Seq<char>| r.spec_lookup(n) is None,
    {
        Driver { class_name: class_name.to_owned(), name: name.to_owned(), attributes: Vec::new() }
    }

    /// Returns the backing-file path of this device's attribute
    /// `attribute_name`.
    pub fn attribute_path(&self, attribute_name: &str) -> (r: String)
        ensures
            r@ == sys_class_path(self.spec_class_name(), self.spec_name(), attribute_name@),
    {
        build_sys_class_path(self.class_name.as_str(), self.name.as_str(), attribute_name)
    }

    /// Returns the cached attribute for `attribute_name`, if one exists.
    /// Identical names on the same cache always yield the same attribute.
    pub fn get_cached(&self, attribute_name: &str) -> (r: Option<Attribute>)
        ensures
            r is Some <==> self.spec_lookup(attribute_name@) is Some,
            r matches Some(a) ==> (self.spec_lookup(attribute_name@) matches Some(c)
                && a.spec_path() == c.spec_path() && a.spec_readable() == c.spec_readable()
                && a.spec_writable() == c.spec_writable()),
    {
        let mut i: usize = 0;
        let ghost s = self.attributes@;
        proof {
            assert(s.skip(0) =~= s);
        }
        while i < self.attributes.len()
            invariant
                s == self.attributes@,
                0 <= i <= s.len(),
                assoc_lookup(s, attribute_name@) == assoc_lookup(s.skip(i as int), attribute_name@),
            decreases s.len() - i,
        {
            proof {
                assert(s.skip(i as int)[0] == s[i as int]);
                assert(s.skip(i as int).drop_first() =~= s.skip(i + 1));
            }
            if text::string_eq_str(&self.attributes[i].0, attribute_name) {
                return Some(self.attributes[i].1.clone());
            }
            i = i + 1;
        }
        proof {
            assert(s.skip(s.len() as int) =~= Seq::<(String, Attribute)>::empty());
        }
        None
    }

    /// Caches `attribute` under `attribute_name`.  The name must not be
    /// cached yet; every other name keeps its entry.
    pub fn add_attribute(&mut self, attribute_name: &str, attribute: Attribute)
        requires
            old(self).spec_lookup(attribute_name@) is None,
        ensures
            final(self).spec_class_name() == old(self).spec_class_name(),
            final(self).spec_name() == old(self).spec_name(),
            final(self).spec_lookup(attribute_name@) == Option::Some(attribute),
            forall|n: Seq<char>|
                n != attribute_name@ ==> final(self).spec_lookup(n) == old(self).spec_lookup(n),
    {
        let ghost s = self.attributes@;
        let pair = (attribute_name.to_owned(), attribute);
        proof {
            lemma_assoc_push(s, pair, attribute_name@);
            assert forall|n: Seq<char>| n != attribute_name@ implies assoc_lookup(
                s.push(pair),
                n,
            ) == assoc_lookup(s, n) by {
                lemma_assoc_push(s, pair, n);
            }
        }
        self.attributes.push(pair);
    }
}

} // verus!
