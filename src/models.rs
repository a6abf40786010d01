//! The connection-lifecycle record: the coarser event that a socket probe
//! emits when a connection opens or closes.
use vstd::prelude::*;

use crate::addr::IpAddress;

verus! {

pub const EVENT_TYPE_OPEN: u8 = 0;

pub const EVENT_TYPE_CLOSE: u8 = 1;

/// A connection opened (`EVENT_TYPE_OPEN`) or closed (`EVENT_TYPE_CLOSE`).
#[derive(Debug, Clone, Copy, PartialEq, Eq, Structural)]
pub struct Event {
    pub kind: u8,
    pub pid: u32,
    /// Nanoseconds since boot, from the monotonic clock.
    pub ts_offset_ns: u64,
    pub src_addr: IpAddress,
    pub dst_addr: IpAddress,
    pub src_port: u16,
    pub dst_port: u16,
}

} // verus!
