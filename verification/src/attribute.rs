//! The attribute-file abstraction: permission-derived access flags, path
//! construction, and the typed decode/encode steps of `get` and `set`.
//!
//! An `Attribute` models one virtual attribute file.  The operating-system
//! side (stat, open, seek, read, write) lives with the caller; it hands the
//! file's permission mode in at construction time and moves raw text in and
//! out of the typed operations here.

use vstd::prelude::*;

use crate::numbers;
use crate::text;
use crate::utils::Ev3Error;
use crate::utils::Ev3Result;

verus! {

/// Group-read permission bit of a file mode.
pub open spec fn mode_readable(mode: u32) -> bool {
    mode & 0o040 == 0o040
}

/// Group-write permission bit of a file mode.
pub open spec fn mode_writable(mode: u32) -> bool {
    mode & 0o020 == 0o020
}

/// One device attribute file.
///
/// Readable iff the group-read bit of the backing file was set when the
/// attribute was opened; writable iff the group-write bit was set.
#[derive(Debug)]
pub struct Attribute {
    path: String,
    readable: bool,
    writable: bool,
}

impl Attribute {
    /// Path of the backing file.
    pub closed spec fn spec_path(&self) -> Seq<char> {
        self.path@
    }

    /// The group-read bit was set at open time.
    pub closed spec fn spec_readable(&self) -> bool {
        self.readable
    }

    /// The group-write bit was set at open time.
    pub closed spec fn spec_writable(&self) -> bool {
        self.writable
    }

    /// Creates the attribute for the file at `path` whose permission mode
    /// is `mode`, deriving the access flags from the group bits.
    pub fn new(path: String, mode: u32) -> (r: Attribute)
        ensures
            r.spec_path() == path@,
            r.spec_readable() == mode_readable(mode),
            r.spec_writable() == mode_writable(mode),
    {
        let readable = mode & 0o040 == 0o040;
        let writable = mode & 0o020 == 0o020;
        Attribute { path, readable, writable }
    }

    /// Returns the path of the backing file.
    pub fn get_file_path(&self) -> (r: String)
        ensures
            r@ == self.spec_path(),
    {
        self.path.clone()
    }

    /// Whether typed reads are permitted.
    pub fn is_readable(&self) -> (r: bool)
        ensures
            r == self.spec_readable(),
    {
        self.readable
    }

    /// Whether typed writes are permitted.
    pub fn is_writable(&self) -> (r: bool)
        ensures
            r == self.spec_writable(),
    {
        self.writable
    }

    /// The read half of `get`: trims the raw text a read returned.
    /// Fails iff the attribute is not readable.
    pub fn get_str(&self, raw: &str) -> (r: Ev3Result<String>)
        ensures
            self.spec_readable() <==> r is Ok,
            r matches Ok(v) ==> v@ == text::trim_end_seq(raw@),
            r matches Err(e) ==> (e matches Ev3Error::InternalError { msg } && msg@
                == "file is not readable"@),
    {
        if !self.readable {
            return Err(Ev3Error::InternalError { msg: String::from_str("file is not readable") });
        }
        Ok(text::trim_end(raw))
    }

    /// The typed read of an integer attribute: trims the raw text and
    /// parses it as decimal.  Fails iff the attribute is not readable or
    /// the trimmed text is not a decimal `i32`.
    pub fn get_i32(&self, raw: &str) -> (r: Ev3Result<i32>)
        ensures
            r is Ok <==> (self.spec_readable() && numbers::valid_i32_text(
                text::trim_end_seq(raw@),
            )),
            r matches Ok(v) ==> v == numbers::i32_of_text(text::trim_end_seq(raw@)),
            r matches Err(e) ==> e is InternalError,
    {
        let trimmed = self.get_str(raw)?;
        match numbers::parse_i32(trimmed.as_str()) {
            Ok(v) => Ok(v),
            Err(msg) => Err(Ev3Error::InternalError { msg }),
        }
    }

    /// The read of a whitespace-separated list attribute: returns the
    /// ordered token sequence.  Fails iff the attribute is not readable.
    pub fn get_vec(&self, raw: &str) -> (r: Ev3Result<Vec<String>>)
        ensures
            self.spec_readable() <==> r is Ok,
            r matches Ok(v) ==> v@.map_values(|t: String| t@) == text::split_ws(
                text::trim_end_seq(raw@),
            ),
            r matches Err(e) ==> e is InternalError,
    {
        let trimmed = self.get_str(raw)?;
        Ok(text::split_whitespace_tokens(trimmed.as_str()))
    }

    /// The write half of `set` for raw text: returns the text to write to
    /// the backing file, unchanged and with no trailing newline added.
    /// Fails iff the attribute is not writable.
    pub fn set_str_slice(&self, value: &str) -> (r: Ev3Result<String>)
        ensures
            self.spec_writable() <==> r is Ok,
            r matches Ok(v) ==> v@ == value@,
            r matches Err(e) ==> (e matches Ev3Error::InternalError { msg } && msg@
                == "file is not writable"@),
    {
        if !self.writable {
            return Err(Ev3Error::InternalError { msg: String::from_str("file is not writable") });
        }
        Ok(value.to_owned())
    }

    /// The typed write of an integer attribute: returns the canonical
    /// decimal text to write.  Fails iff the attribute is not writable.
    pub fn set_i32(&self, value: i32) -> (r: Ev3Result<String>)
        ensures
            self.spec_writable() <==> r is Ok,
            r matches Ok(v) ==> v@ == numbers::i32_text(value as int),
            r matches Err(e) ==> e is InternalError,
    {
        let text = numbers::format_i32(value);
        self.set_str_slice(text.as_str())
    }
}

impl Clone for Attribute {
    /// Copies share the identity of the modeled file: path and access
    /// flags carry over unchanged.
    fn clone(&self) -> (r: Self)
        ensures
            r.spec_path() == self.spec_path(),
            r.spec_readable() == self.spec_readable(),
            r.spec_writable() == self.spec_writable(),
    {
        Attribute { path: self.path.clone(), readable: self.readable, writable: self.writable }
    }
}

/// The path `<root>/<class_name>/<device_name>/<attribute_name>` of an
/// attribute file below the class-device tree.
pub open spec fn sys_class_path(
    class_name: Seq<char>,
    name: Seq<char>,
    attribute_name: Seq<char>,
) -> Seq<char> {
    "/sys/class/"@ + class_name + "/"@ + name + "/"@ + attribute_name
}

/// Builds the backing-file path for the attribute `attribute_name` of
/// device `name` in class `class_name`.
pub fn build_sys_class_path(class_name: &str, name: &str, attribute_name: &str) -> (r: String)
    ensures
        r@ == sys_class_path(class_name@, name@, attribute_name@),
{
    let mut out = String::from_str("/sys/class/");
    out.append(class_name);
    out.append("/");
    out.append(name);
    out.append("/");
    out.append(attribute_name);
    out
}

/// First index whose discriminator text equals `discriminator_value`; the
/// decision step of looking an attribute up by a discriminator attribute
/// rather than by device name.  `discriminator_texts[i]` is the trimmed
/// content of the discriminator attribute of the `i`-th directory entry.
pub fn select_by_discriminator(discriminator_texts: &Vec<String>, discriminator_value: &str) -> (r:
    Option<usize>)
    ensures
        r matches Some(i) ==> i < discriminator_texts@.len() && discriminator_texts@[i as int]@
            == discriminator_value@ && forall|k: int|
            0 <= k < i ==> discriminator_texts@[k]@ != discriminator_value@,
        r is None ==> forall|k: int|
            0 <= k < discriminator_texts@.len() ==> discriminator_texts@[k]@
                != discriminator_value@,
{
    let mut i: usize = 0;
    while i < discriminator_texts.len()
        invariant
            0 <= i <= discriminator_texts@.len(),
            forall|k: int| 0 <= k < i ==> discriminator_texts@[k]@ != discriminator_value@,
        decreases discriminator_texts@.len() - i,
    {
        if text::string_eq_str(&discriminator_texts[i], discriminator_value) {
            return Some(i);
        }
        i = i + 1;
    }
    None
}

/// The failure message of a discriminator lookup that matched nothing.
pub open spec fn discriminator_miss_text(
    attribute_path: Seq<char>,
    driver_path: Seq<char>,
) -> Seq<char> {
    "Attribute `"@ + attribute_path + "` at driver path `"@ + driver_path
        + "` could not be found!"@
}

/// Builds the error for a discriminator lookup that matched nothing.
pub fn discriminator_miss_error(attribute_path: &str, driver_path: &str) -> (r: Ev3Error)
    ensures
        r matches Ev3Error::InternalError { msg } && msg@ == discriminator_miss_text(
            attribute_path@,
            driver_path@,
        ),
{
    let mut msg = String::from_str("Attribute `");
    msg.append(attribute_path);
    msg.append("` at driver path `");
    msg.append(driver_path);
    msg.append("` could not be found!");
    Ev3Error::InternalError { msg }
}

} // verus!
