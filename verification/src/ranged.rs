//! Reading by ranges: each structure of an image is named by the range of
//! bytes that holds it and read from that range when it is asked for.

pub mod gdfx;
pub mod io;
pub mod iso;
pub mod stfs;
pub mod xex;

pub use io::{RangeRef, ReadFromRange};
pub use iso::Iso;
pub use xex::Xex;
