//! Request numbers of the device's `ioctl` interface, and the requests
//! that are handed to whoever talks to the device.
//!
//! A request number packs four fields, in the layout that Linux uses on
//! most machines (ARM among them): the number of the request within its
//! group in bits 0 to 7, the group in bits 8 to 15, the size of the
//! argument in bits 16 to 29 and the direction of the transfer in bits 30
//! and 31.

use vstd::prelude::*;
use crate::consts::{MXCFB_IOC_GROUP, MXCFB_SEND_UPDATE_NR, MXCFB_WAIT_FOR_UPDATE_NR};

verus! {

/// Which way the argument of a request travels, seen from the caller.
#[derive(Clone, Copy, Debug, PartialEq, Eq, Structural)]
pub enum Direction {
    /// The request has no argument.
    Plain,
    /// The device reads the argument.
    Write,
    /// The device fills the argument.
    Read,
    /// The device reads the argument and writes into it.
    ReadWrite,
}

/// Largest size of an argument that a request number can hold, plus one.
pub const MAX_ARGUMENT_SIZE: usize = 0x4000;

impl Direction {
    /// The two bits that stand for the direction.
    pub open spec fn bits(self) -> int {
        match self {
            Direction::Plain => 0,
            Direction::Write => 1,
            Direction::Read => 2,
            Direction::ReadWrite => 3,
        }
    }
}

/// The number of the request with the given fields.
pub open spec fn request_number(dir: Direction, group: u8, number: u8, size: nat) -> int {
    dir.bits() * 0x4000_0000 + size * 0x1_0000 + group * 0x100 + number
}

/// Computes the number of a request. There is none where the size of the
/// argument does not fit its field.
pub fn request_code(dir: Direction, group: u8, number: u8, size: usize) -> (r: Option<u32>)
    ensures
        size < MAX_ARGUMENT_SIZE ==> r == Some(
            request_number(dir, group, number, size as nat) as u32,
        ) && request_number(dir, group, number, size as nat) <= u32::MAX,
        size >= MAX_ARGUMENT_SIZE ==> r.is_none(),
{
    if size >= MAX_ARGUMENT_SIZE {
        return None;
    }
    let d: u32 = match dir {
        Direction::Plain => 0,
        Direction::Write => 1,
        Direction::Read => 2,
        Direction::ReadWrite => 3,
    };
    Some(d * 0x4000_0000 + (size as u32) * 0x1_0000 + (group as u32) * 0x100 + (number as u32))
}

/// A request for the device: its number, and the bytes of its argument.
/// Whoever performs it hands the device a buffer with these bytes and, for
/// a request that the device answers, hands the buffer back.
#[derive(Clone, Debug)]
pub struct DeviceRequest {
    pub code: u32,
    pub payload: Vec<u8>,
}

/// A request, with its argument as a sequence of bytes.
pub struct RequestModel {
    pub code: u32,
    pub payload: Seq<u8>,
}

impl View for DeviceRequest {
    type V = RequestModel;

    open spec fn view(&self) -> RequestModel {
        RequestModel { code: self.code, payload: self.payload@ }
    }
}

/// The request that submits the update whose structure is `payload`.
pub open spec fn send_update_request(payload: Seq<u8>) -> RequestModel {
    RequestModel {
        code: request_number(
            Direction::Write,
            MXCFB_IOC_GROUP,
            MXCFB_SEND_UPDATE_NR,
            payload.len(),
        ) as u32,
        payload,
    }
}

/// The request that waits for an update. Its argument is `payload`: a
/// marker alone, which the device reads, or a marker and a field that the
/// device fills.
pub open spec fn wait_request(answered: bool, payload: Seq<u8>) -> RequestModel {
    RequestModel {
        code: request_number(
            if answered {
                Direction::ReadWrite
            } else {
                Direction::Write
            },
            MXCFB_IOC_GROUP,
            MXCFB_WAIT_FOR_UPDATE_NR,
            payload.len(),
        ) as u32,
        payload,
    }
}

impl DeviceRequest {
    /// Builds the request that submits an update.
    pub fn send_update(payload: Vec<u8>) -> (r: Option<DeviceRequest>)
        ensures
            payload@.len() < MAX_ARGUMENT_SIZE ==> r.is_some() && r.unwrap()@
                == send_update_request(payload@),
            payload@.len() >= MAX_ARGUMENT_SIZE ==> r.is_none(),
    {
        match request_code(
            Direction::Write,
            MXCFB_IOC_GROUP,
            MXCFB_SEND_UPDATE_NR,
            payload.len(),
        ) {
            Some(code) => Some(DeviceRequest { code, payload }),
            None => None,
        }
    }

    /// Builds the request that waits for an update.
    pub fn wait_for_update(answered: bool, payload: Vec<u8>) -> (r: Option<DeviceRequest>)
        ensures
            payload@.len() < MAX_ARGUMENT_SIZE ==> r.is_some() && r.unwrap()@ == wait_request(
                answered,
                payload@,
            ),
            payload@.len() >= MAX_ARGUMENT_SIZE ==> r.is_none(),
    {
        let dir = if answered {
            Direction::ReadWrite
        } else {
            Direction::Write
        };
        match request_code(dir, MXCFB_IOC_GROUP, MXCFB_WAIT_FOR_UPDATE_NR, payload.len()) {
            Some(code) => Some(DeviceRequest { code, payload }),
            None => None,
        }
    }
}

} // verus!
