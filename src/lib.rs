//! NTP client core: the 48-byte packet codec and the conversion of NTP
//! timestamps into Unix and calendar time.

pub mod calendar;
pub mod ntp;
pub mod wire;

pub use calendar::DateTime;
pub use ntp::{PacketError, Timespec, Timestamp, NTP};
