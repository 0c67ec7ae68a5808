//! Decoding of the one-time-programmable fuse registers.
//!
//! The fuse blob is exactly 16 sequential 32-bit words starting at a fixed
//! offset of the register window.  Every named field is one `bits::get_bits`
//! extraction at a fixed bit range of that 512-bit stream.  The 63-bit
//! `chip_id` field is further decomposed into a packed ASCII chip-identifier
//! record, consumed least-significant-bits-first.

use vstd::prelude::*;
use crate::bits::{extract_bits, get_bits};
use crate::errors::TfError;
use crate::pci::Pci;

verus! {

/// Byte offset of the first register holding fuse data.
pub const FUSE_OFFSET: u32 = 0x80180;

/// Number of 4-byte words of fuse data.
pub const FUSE_SIZE: u32 = 16;

/// Data stored in the fuse registers.
pub struct Fuse {
    pub device_id: u64,       // 16 bits
    pub version: u64,         // 2 bits
    pub freq_dis: u64,        // 1 bit
    pub freq_bps: u64,        // 2 bits
    pub freq_pps: u64,        // 2 bits
    pub pcie_dis: u64,        // 2 bits
    pub cpu_speed_dis: u64,   // 2 bits
    pub speed_dis: u64,       // 64 bits
    pub port_dis: u64,        // 40 bits
    pub pipe_dis: u64,        // 4 bits
    pub pipe0_mau_dis: u64,   // 21 bits
    pub pipe1_mau_dis: u64,   // 21 bits
    pub pipe2_mau_dis: u64,   // 21 bits
    pub pipe3_mau_dis: u64,   // 21 bits
    pub tm_mem_dis: u64,      // 32 bits
    pub bsync_dis: u64,       // 1 bit
    pub pgen_dis: u64,        // 1 bit
    pub resub_dis: u64,       // 1 bit
    pub voltage_scaling: u64, // 12 bits
    pub rsvd_22: u64,         // 22 bits
    pub part_num: u64,        // 13 bits
    pub rev_num: u64,         // 8 bits
    pub pkg_id: u64,          // 2 bits
    pub silent_spin: u64,     // 2 bits
    pub chip_id: u64,         // 63 bits
    pub pmro_and_skew: u64,   // 12 bits
    pub wf_core_repair: u64,  // 1 bit
    pub core_repair: u64,     // 1 bit
    pub tile_repair: u64,     // 1 bit
    pub freq_bps_2: u64,      // 4 bits
    pub freq_pps_2: u64,      // 4 bits
    pub die_rotation: u64,    // 1 bit
    pub soft_pipe_dis: u64,   // 4 bits
}

/// Shorthand for the value of the inclusive bit range `lo ..= hi` of the
/// fuse stream, as a 64-bit word.
pub open spec fn fuse_field(words: Seq<u32>, lo: int, hi: int) -> u64 {
    extract_bits(words, lo, (hi - lo + 1) as nat) as u64
}

/// The decoded record a 16-word fuse stream denotes.
pub open spec fn spec_fuse(words: Seq<u32>) -> Fuse {
    Fuse {
        device_id: fuse_field(words, 0, 15),
        version: fuse_field(words, 16, 17),
        freq_dis: fuse_field(words, 18, 18),
        freq_bps: fuse_field(words, 19, 20),
        freq_pps: fuse_field(words, 21, 22),
        pcie_dis: fuse_field(words, 23, 24),
        cpu_speed_dis: fuse_field(words, 25, 26),
        speed_dis: fuse_field(words, 27, 90),
        port_dis: fuse_field(words, 91, 130),
        pipe_dis: fuse_field(words, 131, 134),
        pipe0_mau_dis: fuse_field(words, 135, 155),
        pipe1_mau_dis: fuse_field(words, 156, 176),
        pipe2_mau_dis: fuse_field(words, 177, 197),
        pipe3_mau_dis: fuse_field(words, 198, 218),
        tm_mem_dis: fuse_field(words, 219, 250),
        bsync_dis: fuse_field(words, 251, 251),
        pgen_dis: fuse_field(words, 252, 252),
        resub_dis: fuse_field(words, 253, 253),
        voltage_scaling: fuse_field(words, 254, 265),
        rsvd_22: fuse_field(words, 266, 287),
        part_num: fuse_field(words, 288, 301),
        rev_num: fuse_field(words, 302, 309),
        pkg_id: fuse_field(words, 310, 311),
        silent_spin: fuse_field(words, 312, 313),
        chip_id: fuse_field(words, 314, 376),
        pmro_and_skew: fuse_field(words, 377, 388),
        wf_core_repair: fuse_field(words, 389, 389),
        core_repair: fuse_field(words, 390, 390),
        tile_repair: fuse_field(words, 391, 391),
        freq_bps_2: fuse_field(words, 392, 395),
        freq_pps_2: fuse_field(words, 396, 399),
        die_rotation: fuse_field(words, 400, 400),
        soft_pipe_dis: fuse_field(words, 401, 404),
    }
}

impl Fuse {
    /// Decode a fuse blob; any word count other than 16 is rejected.
    pub fn try_from_slice(data: &[u32]) -> (r: Result<Fuse, TfError>)
        ensures
            data@.len() == FUSE_SIZE ==> r == Ok::<Fuse, TfError>(spec_fuse(data@)),
            data@.len() != FUSE_SIZE ==> r == Err::<Fuse, TfError>(
                TfError::LengthMismatch(data@.len() as usize),
            ),
    {
        if data.len() != FUSE_SIZE as usize {
            return Err(TfError::LengthMismatch(data.len()));
        }

        Ok(
            Fuse {
                device_id: get_bits(data, 0, 15),
                version: get_bits(data, 16, 17),
                freq_dis: get_bits(data, 18, 18),
                freq_bps: get_bits(data, 19, 20),
                freq_pps: get_bits(data, 21, 22),
                pcie_dis: get_bits(data, 23, 24),
                cpu_speed_dis: get_bits(data, 25, 26),
                speed_dis: get_bits(data, 27, 90),
                port_dis: get_bits(data, 91, 130),
                pipe_dis: get_bits(data, 131, 134),
                pipe0_mau_dis: get_bits(data, 135, 155),
                pipe1_mau_dis: get_bits(data, 156, 176),
                pipe2_mau_dis: get_bits(data, 177, 197),
                pipe3_mau_dis: get_bits(data, 198, 218),
                tm_mem_dis: get_bits(data, 219, 250),
                bsync_dis: get_bits(data, 251, 251),
                pgen_dis: get_bits(data, 252, 252),
                resub_dis: get_bits(data, 253, 253),
                voltage_scaling: get_bits(data, 254, 265),
                rsvd_22: get_bits(data, 266, 287),
                part_num: get_bits(data, 288, 301),
                rev_num: get_bits(data, 302, 309),
                pkg_id: get_bits(data, 310, 311),
                silent_spin: get_bits(data, 312, 313),
                chip_id: get_bits(data, 314, 376),
                pmro_and_skew: get_bits(data, 377, 388),
                wf_core_repair: get_bits(data, 389, 389),
                core_repair: get_bits(data, 390, 390),
                tile_repair: get_bits(data, 391, 391),
                freq_bps_2: get_bits(data, 392, 395),
                freq_pps_2: get_bits(data, 396, 399),
                die_rotation: get_bits(data, 400, 400),
                soft_pipe_dis: get_bits(data, 401, 404),
            },
        )
    }

    /// Read the fuse blob through the checked window and decode it.
    pub fn read(pci: &Pci) -> (r: Result<Fuse, TfError>)
        requires
            pci.wf(),
        ensures
            pci.spec_len_bytes() >= FUSE_OFFSET + 4 * FUSE_SIZE ==> r == Ok::<Fuse, TfError>(
                spec_fuse(pci@.subrange(FUSE_OFFSET as int / 4, FUSE_OFFSET as int / 4 + 16)),
            ),
            pci.spec_len_bytes() < FUSE_OFFSET + 4 * FUSE_SIZE ==> (r matches Err(e) && e
                == TfError::Bounds(
                if pci.spec_len_bytes() > FUSE_OFFSET as int {
                    pci.spec_len_bytes() as u64
                } else {
                    FUSE_OFFSET as u64
                },
            )),
    {
        let raw = read_raw(pci)?;
        Fuse::try_from_slice(raw.as_slice())
    }
}

/// Read the 16 raw fuse words from their fixed offset of the window.
pub fn read_raw(pci: &Pci) -> (r: Result<Vec<u32>, TfError>)
    requires
        pci.wf(),
    ensures
        pci.spec_len_bytes() >= FUSE_OFFSET + 4 * FUSE_SIZE ==> (r matches Ok(v) && v@
            == pci@.subrange(FUSE_OFFSET as int / 4, FUSE_OFFSET as int / 4 + 16)),
        pci.spec_len_bytes() < FUSE_OFFSET + 4 * FUSE_SIZE ==> (r matches Err(e) && e
            == TfError::Bounds(
            if pci.spec_len_bytes() > FUSE_OFFSET as int {
                pci.spec_len_bytes() as u64
            } else {
                FUSE_OFFSET as u64
            },
        )),
{
    let mut r: Vec<u32> = Vec::new();
    let mut offset: u32 = FUSE_OFFSET;
    for i in 0..FUSE_SIZE as usize
        invariant
            pci.wf(),
            offset == FUSE_OFFSET + 4 * i,
            r@.len() == i,
            forall|j: int|
                0 <= j < i ==> r@[j] == pci@[FUSE_OFFSET as int / 4 + j],
            i > 0 ==> pci.spec_len_bytes() >= FUSE_OFFSET + 4 * i,
    {
        match pci.read4(offset) {
            Ok(w) => r.push(w),
            Err(e) => {
                return Err(e);
            },
        }
        offset = offset + 4;
    }
    assert(r@ =~= pci@.subrange(FUSE_OFFSET as int / 4, FUSE_OFFSET as int / 4 + 16));
    Ok(r)
}

/// Parsed version of the `chip_id` fuse field: six packed 7-bit ASCII
/// characters, a 5-bit wafer number, then sign/magnitude X and Y positions,
/// consumed from the least-significant end of the raw word.
pub struct ChipId {
    pub fab: char,
    pub lot: char,
    pub lotnum0: char,
    pub lotnum1: char,
    pub lotnum2: char,
    pub lotnum3: char,
    pub wafer: u8,
    pub xsign: u8,
    pub x: u8,
    pub ysign: u8,
    pub y: u8,
}

/// The record a raw 63-bit chip identifier denotes.
pub open spec fn spec_chip_id(raw: u64) -> ChipId {
    ChipId {
        fab: ((raw & 0x7f) as u8) as char,
        lot: (((raw >> 7) & 0x7f) as u8) as char,
        lotnum0: (((raw >> 14) & 0x7f) as u8) as char,
        lotnum1: (((raw >> 21) & 0x7f) as u8) as char,
        lotnum2: (((raw >> 28) & 0x7f) as u8) as char,
        lotnum3: (((raw >> 35) & 0x7f) as u8) as char,
        wafer: ((raw >> 42) & 0x1f) as u8,
        xsign: ((raw >> 47) & 0x1) as u8,
        x: ((raw >> 48) & 0x7f) as u8,
        ysign: ((raw >> 55) & 0x1) as u8,
        y: ((raw >> 56) & 0x7f) as u8,
    }
}

impl From<u64> for ChipId {
    /// Decode a raw chip identifier, taking fields from the low end upward.
    fn from(raw: u64) -> (r: ChipId) {
        ChipId {
            fab: ((raw & 0x7f) as u8) as char,
            lot: (((raw >> 7) & 0x7f) as u8) as char,
            lotnum0: (((raw >> 14) & 0x7f) as u8) as char,
            lotnum1: (((raw >> 21) & 0x7f) as u8) as char,
            lotnum2: (((raw >> 28) & 0x7f) as u8) as char,
            lotnum3: (((raw >> 35) & 0x7f) as u8) as char,
            wafer: ((raw >> 42) & 0x1f) as u8,
            xsign: ((raw >> 47) & 0x1) as u8,
            x: ((raw >> 48) & 0x7f) as u8,
            ysign: ((raw >> 55) & 0x1) as u8,
            y: ((raw >> 56) & 0x7f) as u8,
        }
    }
}

impl vstd::std_specs::convert::FromSpecImpl<u64> for ChipId {
    open spec fn obeys_from_spec() -> bool {
        true
    }

    open spec fn from_spec(v: u64) -> ChipId {
        spec_chip_id(v)
    }
}

} // verus!
