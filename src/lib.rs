//! Register access to an FPGA's Wishbone bus over a USB3 FIFO bridge:
//! the Etherbone packet codec, the USB stream framing, and the decisions of
//! the register bridge and of the TCP gateway. The device I/O itself is
//! done by the caller, who hands the outcome of each transaction back.
use vstd::prelude::*;

pub mod bridge;
pub mod etherbone;
pub mod gateway;
pub mod usb;

pub use etherbone::Packet as EtherbonePacket;

verus! {

/// What can go wrong when talking to the bridge.
#[derive(Debug)]
pub enum Error {
    /// No matching device was found.
    NoDevice,
    /// The USB transport failed.
    Usb(String),
    /// No response frame arrived in time.
    Timeout,
    /// A response did not decode, or lacked the expected section.
    Protocol(String),
}

} // verus!
