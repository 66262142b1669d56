//! Error type, result alias and small helper traits.

use vstd::prelude::*;

verus! {

/// Result type used by every fallible operation of this crate.
pub type Ev3Result<T> = Result<T, Ev3Error>;

/// Error taxonomy of the device layer.
#[derive(Debug)]
pub enum Ev3Error {
    /// An operating-system or parse failure, wrapping the underlying message.
    InternalError {
        /// Original error message.
        msg: String,
    },
    /// A resolution query matched no device.
    NotConnected {
        /// Description of the requested device kind.
        device: String,
        /// Port the device was expected on (`None` for driver-only queries).
        port: Option<String>,
    },
    /// A driver-only resolution query matched more than one device.
    MultipleMatches {
        /// Description of the requested device kind.
        device: String,
        /// Ports on which devices of the requested kind were found.
        ports: Vec<String>,
    },
}

/// A physical connector whose label can be rendered as the text that the
/// kernel publishes in a device's `address` attribute.
pub trait Port {
    /// The address text of this port, as a sequence of characters.
    spec fn spec_address(&self) -> Seq<char>;

    /// Returns the address text of this port.
    fn address(&self) -> (r: String)
        ensures
            r@ == self.spec_address(),
    ;
}

/// Converts an `Option` into an `Ev3Result`, turning `None` into an
/// internal error.
pub trait OrErr<T>: Sized {
    /// Consumes `self`; `None` becomes an `InternalError`.
    fn or_err(self) -> (r: Ev3Result<T>);
}

impl<T> OrErr<T> for Option<T> {
    fn or_err(self) -> (r: Ev3Result<T>)
        ensures
            self is Some <==> r is Ok,
            self is Some ==> r == Ev3Result::<T>::Ok(self->0),
            self is None ==> (r matches Ev3Result::<T>::Err(e)
                && (e matches Ev3Error::InternalError { msg } && msg@ == "Cannot unwrap option"@)),
    {
        match self {
            Some(v) => Ok(v),
            None => Err(Ev3Error::InternalError { msg: String::from_str("Cannot unwrap option") }),
        }
    }
}

} // verus!
