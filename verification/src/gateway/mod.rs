//! The edge to the network and the disk, as far as it is plain bytes.

pub mod recorder;
pub mod session;
pub mod session_laws;

pub use recorder::{read_records, Record};
pub use session::{decide, try_decode, DEFAULT_READ_BUFFER};
