#![allow(non_camel_case_types)]
#![allow(non_snake_case)]
#![allow(non_upper_case_globals)]

pub mod PE;
pub mod cpu;
pub mod memory;
pub mod sim_engine;

use vstd::prelude::*;

verus! {

/// A memory request as the host simulator hands it over: the address, the issue time, the
/// first payload word, and whether it writes or queries a PIM command's progress.
#[derive(Clone, Copy, Debug, Default, PartialEq, Eq)]
pub struct PEsim_rs_MemReq {
    pub addr: u64,
    pub issue_time: u64,
    pub payload_word0: u64,
    pub is_write: bool,
    pub is_pim_query: bool,
}

/// A cache line of payload with its size in bytes.
#[derive(Clone, Copy, Debug, Default, PartialEq, Eq)]
pub struct PESim_payload {
    pub dword_payload: [u64; 8],
    pub payload_sz_bytes: u32,
}

} // verus!
