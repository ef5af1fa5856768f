//! The tile cache interface: key/value storage for encoded tile payloads,
//! keyed by tileset name, zoom and tile coordinates.

use vstd::prelude::*;

verus! {

/// A cache write failed: the storage layer could not persist the payload.
#[derive(Clone, Copy, PartialEq, Eq, Structural, Debug)]
pub struct CacheError;

/// Key/value storage for encoded tile payloads. A read miss is a normal
/// outcome, not an error; the only error channel is a failing write.
pub trait Cache {
    /// Returns the payload cached under the key, or `None` on a miss.
    fn read(&self, tileset_name: &str, zoom: u8, x: u16, y: u16) -> Option<Vec<u8>>;

    /// Persists `obj` under the key.
    fn write(&self, tileset_name: &str, zoom: u8, x: u16, y: u16, obj: &[u8]) -> Result<
        (),
        CacheError,
    >;

    /// Reports whether a payload is currently stored under the key.
    fn contains(&self, tileset_name: &str, zoom: u8, x: u16, y: u16) -> bool;
}

/// The variant that disables caching: every read misses, every write
/// succeeds without storing anything, and no key is ever stored, so
/// `contains` agrees with the miss that `read` reports.
pub struct Nocache;

impl Cache for Nocache {
    fn read(&self, tileset_name: &str, zoom: u8, x: u16, y: u16) -> (r: Option<Vec<u8>>)
        ensures
            r is None,
    {
        None
    }

    fn write(&self, tileset_name: &str, zoom: u8, x: u16, y: u16, obj: &[u8]) -> (r: Result<
        (),
        CacheError,
    >)
        ensures
            r is Ok,
    {
        Ok(())
    }

    fn contains(&self, tileset_name: &str, zoom: u8, x: u16, y: u16) -> (r: bool)
        ensures
            r == false,
    {
        false
    }
}

} // verus!
