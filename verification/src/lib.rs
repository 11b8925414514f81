use vstd::prelude::*;
use crate::bytes::{Parsed, ParseError};
use crate::parser::{spec_bin, bin_parser};
use crate::transform::Transform;
use crate::common::WatchfaceParams;
pub use crate::common::{ImageType, PreviewParams};
pub use crate::parser::Watchface;
pub use crate::miband::MiBandParams;

pub mod bytes;
pub mod varint;
pub mod params;
pub mod image;
pub mod common;
pub mod transform;
pub mod elements;
pub mod miband;
pub mod parser;
pub mod rounding;
pub mod preview;
pub mod miband_preview;

verus! {

/// Reads a watchface file that is known to be well formed, leaving `bytes`
/// as it was; see `parser::parse_bin` for one that reads any input.
pub fn parse_watch_face_bin<T: Transform + WatchfaceParams>(bytes: &mut &[u8]) -> (r: Result<Watchface<T>, ParseError>)
    requires
        !spec_bin::<T>(old(bytes)@).is_malformed(),
    ensures
        *final(bytes) == *old(bytes),
        match spec_bin::<T>(old(bytes)@) {
            Parsed::Done(v, _) => r matches Ok(w) && w@ == v,
            _ => r == Err::<Watchface<T>, ParseError>(ParseError::Incomplete),
        },
{
    bin_parser(*bytes)
}

} // verus!
