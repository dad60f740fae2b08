use vstd::prelude::*;

verus! {

/// The failure kinds that every operation of this library surfaces to its
/// immediate caller. Each operation fails with a specific kind, never a
/// generic catch-all, and no failure is retried internally.
///
/// The soft classification outcome "nothing recognized" is *not* an error
/// and is deliberately absent here: it is an ordinary variant of
/// `BluetoothEvent`.
#[derive(Clone, Copy, Debug, PartialEq, Eq, Structural)]
pub enum BluetoothError {
    /// The bus call itself failed: the object or interface is absent, or
    /// the connection is unusable.
    RemoteLookupFailure,
    /// A returned property variant's tag did not match the caller's
    /// expectation.
    TypeDecodeFailure,
    /// A bus round trip exceeded its caller-supplied bound.
    Timeout,
    /// A modalias string did not conform to the fixed
    /// `<source>:v####p####d####` format.
    MalformedModalias,
}

} // verus!
