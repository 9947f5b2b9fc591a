//! The requests of the virtio block device.

use vstd::prelude::*;

verus! {

/// The size of a sector of a block device, in bytes.
pub const SECTOR_SIZE: usize = 512;

/// What a request asks of the device.
#[derive(Clone, Copy, Debug, PartialEq, Eq, Structural)]
pub enum ReqType {
    /// Read sectors.
    In,
    /// Write sectors.
    Out,
    /// Write out what the device has cached.
    Flush,
    /// Tell the identity of the device.
    GetId,
    /// Forget sectors.
    Discard,
    /// Fill sectors with zeroes.
    WriteZeroes,
}

impl ReqType {
    /// The number that stands for the kind of request in a request header.
    pub open spec fn spec_code(self) -> u32 {
        match self {
            ReqType::In => 0,
            ReqType::Out => 1,
            ReqType::Flush => 4,
            ReqType::GetId => 8,
            ReqType::Discard => 11,
            ReqType::WriteZeroes => 13,
        }
    }

    /// The number that stands for the kind of request in a request header.
    #[verifier::when_used_as_spec(spec_code)]
    pub fn code(self) -> (c: u32)
        ensures
            c == self.code(),
    {
        match self {
            ReqType::In => 0,
            ReqType::Out => 1,
            ReqType::Flush => 4,
            ReqType::GetId => 8,
            ReqType::Discard => 11,
            ReqType::WriteZeroes => 13,
        }
    }
}

/// What the device answers to a request.
#[derive(Clone, Copy, Debug, PartialEq, Eq, Structural)]
pub enum RespStatus {
    /// The request was carried out.
    Okay,
    /// The device or the driver failed.
    IoErr,
    /// The device does not know the request.
    Unsupported,
    /// The device has not answered yet.
    NotReady,
}

impl RespStatus {
    /// The byte that stands for the answer in a response.
    pub open spec fn spec_code(self) -> u8 {
        match self {
            RespStatus::Okay => 0,
            RespStatus::IoErr => 1,
            RespStatus::Unsupported => 2,
            RespStatus::NotReady => 3,
        }
    }

    /// The byte that stands for the answer in a response.
    #[verifier::when_used_as_spec(spec_code)]
    pub fn code(self) -> (c: u8)
        ensures
            c == self.code(),
    {
        match self {
            RespStatus::Okay => 0,
            RespStatus::IoErr => 1,
            RespStatus::Unsupported => 2,
            RespStatus::NotReady => 3,
        }
    }
}

/// The header of a request.
#[derive(Clone, Copy, Debug, PartialEq, Eq, Structural)]
pub struct BlockReq {
    pub type_: u32,
    pub reserved: u32,
    pub sector: u64,
}

impl BlockReq {
    /// The header of the request to read the sector `index`.
    pub fn read_block(index: usize) -> (req: BlockReq)
        ensures
            req == (BlockReq { type_: ReqType::In.code(), reserved: 0, sector: index as u64 }),
    {
        BlockReq { type_: ReqType::In.code(), reserved: 0, sector: index as u64 }
    }

    /// The header of the request to write the sector `index`.
    pub fn write_block(index: usize) -> (req: BlockReq)
        ensures
            req == (BlockReq { type_: ReqType::Out.code(), reserved: 0, sector: index as u64 }),
    {
        BlockReq { type_: ReqType::Out.code(), reserved: 0, sector: index as u64 }
    }
}

/// The response to a request.
#[derive(Clone, Copy, Debug, PartialEq, Eq, Structural)]
pub struct BlockResp {
    pub status: u8,
}

impl Default for BlockResp {
    /// The response as the driver hands it to the device: not answered yet.
    fn default() -> (resp: BlockResp)
        ensures
            resp.status == RespStatus::NotReady.code(),
    {
        Self { status: RespStatus::NotReady.code() }
    }
}

impl BlockResp {
    /// Whether the device reports that the request was carried out.
    pub fn is_ok(&self) -> (r: bool)
        ensures
            r == (self.status == RespStatus::Okay.code()),
    {
        self.status == RespStatus::Okay.code()
    }
}

} // verus!
