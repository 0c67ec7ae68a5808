//! Descriptor-ring inspection.
//!
//! A fixed table maps ring names to the base offsets of their control/status
//! blocks; the table is injected configuration, and `get_drs` supplies the
//! built-in one, keyed in name order.  A ring's block is eleven consecutive
//! 4-byte fields; reading one is eleven checked reads, and a dump checks the
//! advisory invariant that the 64-bit limit minus base address equals the
//! ring size — a mismatch is flagged, never an error.

use vstd::prelude::*;
use crate::errors::TfError;
use crate::accessor::{Tofino, spec_read, read_offset};
use crate::strutil::{lex_lt, str_eq_str, str_lt};

verus! {

/// The eleven-field control/status block of one descriptor ring.
pub struct Dr {
    pub ctrl: u32,
    pub base_addr_low: u32,
    pub base_addr_high: u32,
    pub limit_addr_low: u32,
    pub limit_addr_high: u32,
    pub size: u32,
    pub head_ptr: u32,
    pub tail_ptr: u32,
    pub ring_timeout: u32,
    pub data_timeout: u32,
    pub status: u32,
}

/// The record eleven consecutive words at a ring's base denote.
pub open spec fn spec_dr(w: Seq<u32>) -> Dr {
    Dr {
        ctrl: w[0],
        base_addr_low: w[1],
        base_addr_high: w[2],
        limit_addr_low: w[3],
        limit_addr_high: w[4],
        size: w[5],
        head_ptr: w[6],
        tail_ptr: w[7],
        ring_timeout: w[8],
        data_timeout: w[9],
        status: w[10],
    }
}

/// The 64-bit base address of a ring record.
pub open spec fn dr_base(d: Dr) -> int {
    d.base_addr_high * 0x1_0000_0000 + d.base_addr_low
}

/// The 64-bit limit address of a ring record.
pub open spec fn dr_limit(d: Dr) -> int {
    d.limit_addr_high * 0x1_0000_0000 + d.limit_addr_low
}

/// The advisory ring invariant: the limit-to-base span equals the size.
pub open spec fn dr_size_ok(d: Dr) -> bool {
    dr_limit(d) - dr_base(d) == d.size
}

impl Dr {
    /// Whether this record satisfies the advisory base/limit/size invariant.
    pub fn size_matches(&self) -> (r: bool)
        ensures
            r == dr_size_ok(*self),
    {
        let base: u64 = ((self.base_addr_high as u64) << 32) | (self.base_addr_low as u64);
        let limit: u64 = ((self.limit_addr_high as u64) << 32) | (self.limit_addr_low as u64);
        proof {
            let bh = self.base_addr_high as u64;
            let bl = self.base_addr_low as u64;
            let lh = self.limit_addr_high as u64;
            let ll = self.limit_addr_low as u64;
            assert((bh << 32u64) | bl == bh * 0x1_0000_0000 + bl) by (bit_vector)
                requires
                    bh < 0x1_0000_0000 && bl < 0x1_0000_0000,
            ;
            assert((lh << 32u64) | ll == lh * 0x1_0000_0000 + ll) by (bit_vector)
                requires
                    lh < 0x1_0000_0000 && ll < 0x1_0000_0000,
            ;
        }
        limit >= base && limit - base == self.size as u64
    }
}

/// Read the eleven ring fields at consecutive offsets from `offset`.
pub fn read_dr(ctx: &Tofino, offset: u32) -> (r: Result<Dr, TfError>)
    requires
        ctx.wf(),
    ensures
        spec_read(ctx.pci, offset, 11) matches Ok(w) ==> (r matches Ok(d) && d == spec_dr(w)),
        spec_read(ctx.pci, offset, 11) matches Err(e) ==> r == Err::<Dr, TfError>(e),
{
    let w = read_offset(ctx, offset, 11)?;
    Ok(
        Dr {
            ctrl: w[0],
            base_addr_low: w[1],
            base_addr_high: w[2],
            limit_addr_low: w[3],
            limit_addr_high: w[4],
            size: w[5],
            head_ptr: w[6],
            tail_ptr: w[7],
            ring_timeout: w[8],
            data_timeout: w[9],
            status: w[10],
        },
    )
}

/// The offset of the first ring in the table named `name`, if any.
pub open spec fn spec_dr_lookup(t: Seq<(String, u32)>, name: Seq<char>) -> Option<u32>
    decreases t.len(),
{
    if t.len() == 0 {
        None
    } else if t[0].0@ == name {
        Some(t[0].1)
    } else {
        spec_dr_lookup(t.skip(1), name)
    }
}

/// Look a ring name up in a table, first match in table order.
pub fn dr_lookup(drs: &Vec<(String, u32)>, name: &str) -> (r: Option<u32>)
    ensures
        r == spec_dr_lookup(drs@, name@),
{
    let mut k: usize = 0;
    proof {
        assert(drs@.skip(0) =~= drs@);
    }
    while k < drs.len()
        invariant
            k <= drs@.len(),
            spec_dr_lookup(drs@.skip(k as int), name@) == spec_dr_lookup(drs@, name@),
        decreases drs@.len() - k,
    {
        proof {
            assert(drs@.skip(k as int)[0] == drs@[k as int]);
            assert(drs@.skip(k as int).skip(1) =~= drs@.skip(k as int + 1));
        }
        if str_eq_str(drs[k].0.as_str(), name) {
            return Some(drs[k].1);
        }
        k = k + 1;
    }
    proof {
        assert(drs@.skip(drs@.len() as int).len() == 0);
    }
    None
}

/// Look a ring name up in the table and read its record.
pub fn show(ctx: &Tofino, drs: &Vec<(String, u32)>, name: &str) -> (r: Result<Dr, TfError>)
    requires
        ctx.wf(),
    ensures
        spec_dr_lookup(drs@, name@) is None ==> (r matches Err(e) && e matches TfError::NotFound(m)
            && m@ == "no such DR"@),
        spec_dr_lookup(drs@, name@) matches Some(o) ==> {
            &&& spec_read(ctx.pci, o, 11) matches Ok(w) ==> (r matches Ok(d) && d == spec_dr(w))
            &&& spec_read(ctx.pci, o, 11) matches Err(e) ==> r == Err::<Dr, TfError>(e)
        },
{
    match dr_lookup(drs, name) {
        Some(o) => read_dr(ctx, o),
        None => Err(TfError::NotFound("no such DR".to_owned())),
    }
}

/// One ring of a dump: its name, its record, and whether the advisory
/// base/limit/size invariant holds for it.
pub struct DrSummary {
    /// The ring's name in the table.
    pub name: String,
    /// The ring's control/status record.
    pub dr: Dr,
    /// Whether `limit - base == size` held; advisory, a mismatch is reported
    /// and never stops the dump.
    pub size_ok: bool,
}

/// Whether the table's names are in strictly ascending lexicographic order.
pub open spec fn table_sorted_spec(t: Seq<(String, u32)>) -> bool {
    forall|k: int| 0 <= k < t.len() - 1 ==> lex_lt((#[trigger] t[k]).0@, t[k + 1].0@)
}

/// Check that a ring table's names are in strictly ascending order.
pub fn table_sorted(t: &Vec<(String, u32)>) -> (r: bool)
    ensures
        r == table_sorted_spec(t@),
{
    if t.len() == 0 {
        return true;
    }
    let mut k: usize = 0;
    while k < t.len() - 1
        invariant
            t@.len() > 0,
            k <= t@.len() - 1,
            forall|j: int| 0 <= j < k ==> lex_lt((#[trigger] t@[j]).0@, t@[j + 1].0@),
        decreases t@.len() - k,
    {
        if !str_lt(t[k].0.as_str(), t[k + 1].0.as_str()) {
            return false;
        }
        k = k + 1;
    }
    true
}

/// Whether every ring of the table can be read.
pub open spec fn all_readable(pci: crate::pci::Pci, t: Seq<(String, u32)>) -> bool {
    forall|k: int| 0 <= k < t.len() ==> (#[trigger] spec_read(pci, t[k].1, 11)) is Ok
}

/// The first table index whose ring cannot be read, from `i` on.
pub open spec fn first_unreadable(pci: crate::pci::Pci, t: Seq<(String, u32)>, i: int) -> int
    decreases t.len() - i,
{
    if i < 0 || i >= t.len() {
        t.len() as int
    } else if spec_read(pci, t[i].1, 11) is Err {
        i
    } else {
        first_unreadable(pci, t, i + 1)
    }
}

/// Read every ring of the table in table order.  Each entry reports the ring
/// record together with the advisory invariant check; an invariant mismatch
/// is flagged in the entry and never stops the iteration.  Only a failed
/// read aborts the dump, with that read's error.
pub fn dump_all(ctx: &Tofino, drs: &Vec<(String, u32)>) -> (r: Result<Vec<DrSummary>, TfError>)
    requires
        ctx.wf(),
    ensures
        all_readable(ctx.pci, drs@) ==> (r matches Ok(v) && v@.len() == drs@.len() && forall|k: int|
            0 <= k < drs@.len() ==> {
                let w = (#[trigger] spec_read(ctx.pci, drs@[k].1, 11))->Ok_0;
                &&& v@[k].name == drs@[k].0
                &&& v@[k].dr == spec_dr(w)
                &&& v@[k].size_ok == dr_size_ok(spec_dr(w))
            }),
        !all_readable(ctx.pci, drs@) ==> (r matches Err(e) && {
            let k0 = first_unreadable(ctx.pci, drs@, 0);
            spec_read(ctx.pci, drs@[k0].1, 11) == Err::<Seq<u32>, TfError>(e)
        }),
{
    let mut out: Vec<DrSummary> = Vec::new();
    let mut k: usize = 0;
    proof {
        lemma_first_unreadable_lb(ctx.pci, drs@, 0);
    }
    while k < drs.len()
        invariant
            ctx.wf(),
            k <= drs@.len(),
            out@.len() == k,
            forall|j: int|
                0 <= j < k ==> {
                    let w = (#[trigger] spec_read(ctx.pci, drs@[j].1, 11))->Ok_0;
                    &&& spec_read(ctx.pci, drs@[j].1, 11) is Ok
                    &&& out@[j].name == drs@[j].0
                    &&& out@[j].dr == spec_dr(w)
                    &&& out@[j].size_ok == dr_size_ok(spec_dr(w))
                },
            first_unreadable(ctx.pci, drs@, 0) >= k,
        decreases drs@.len() - k,
    {
        let name = drs[k].0.clone();
        let offset = drs[k].1;
        match read_dr(ctx, offset) {
            Ok(dr) => {
                let size_ok = dr.size_matches();
                out.push(DrSummary { name, dr, size_ok });
            },
            Err(e) => {
                proof {
                    lemma_first_unreadable(ctx.pci, drs@, 0, k as int);
                }
                return Err(e);
            },
        }
        proof {
            lemma_first_unreadable_step(ctx.pci, drs@, 0, k as int);
        }
        k = k + 1;
    }
    Ok(out)
}

/// The first unreadable index is never before the start of the scan.
proof fn lemma_first_unreadable_lb(pci: crate::pci::Pci, t: Seq<(String, u32)>, i: int)
    requires
        0 <= i <= t.len(),
    ensures
        first_unreadable(pci, t, i) >= i,
    decreases t.len() - i,
{
    if i < t.len() && spec_read(pci, t[i].1, 11) is Ok {
        lemma_first_unreadable_lb(pci, t, i + 1);
    }
}

/// If every index before `k` is readable and `k` is not, the first
/// unreadable index from `i <= k` on is `k`.
proof fn lemma_first_unreadable(pci: crate::pci::Pci, t: Seq<(String, u32)>, i: int, k: int)
    requires
        0 <= i <= k < t.len(),
        spec_read(pci, t[k].1, 11) is Err,
        forall|j: int| 0 <= j < k ==> (#[trigger] spec_read(pci, t[j].1, 11)) is Ok,
    ensures
        first_unreadable(pci, t, i) == k,
    decreases t.len() - i,
{
    if i < k {
        lemma_first_unreadable(pci, t, i + 1, k);
    }
}

/// Readable indices advance the first-unreadable bound.
proof fn lemma_first_unreadable_step(pci: crate::pci::Pci, t: Seq<(String, u32)>, i: int, k: int)
    requires
        0 <= i <= k < t.len(),
        spec_read(pci, t[k].1, 11) is Ok,
        first_unreadable(pci, t, i) >= k,
    ensures
        first_unreadable(pci, t, i) >= k + 1,
    decreases t.len() - i,
{
    if i == k {
        lemma_first_unreadable_lb(pci, t, i + 1);
    } else {
        lemma_first_unreadable_step(pci, t, i + 1, k);
    }
}


/// The built-in table of descriptor-ring names and base offsets, in name
/// order.  This is placeholder device metadata, injected into the catalog
/// functions rather than consulted by them directly.
pub fn get_drs() -> (r: Vec<(String, u32)>)
    ensures
        r@.len() == 56,
{
    let mut m: Vec<(String, u32)> = Vec::new();
    m.push(("cmp_mac_stat".to_owned(), 0x180240u32));
    m.push(("cmp_mac_write_block".to_owned(), 0x1802c0u32));
    m.push(("cmp_pipe_inst_list_0".to_owned(), 0x200700u32));
    m.push(("cmp_pipe_inst_list_1".to_owned(), 0x200734u32));
    m.push(("cmp_pipe_inst_list_2".to_owned(), 0x200768u32));
    m.push(("cmp_pipe_inst_list_3".to_owned(), 0x20079cu32));
    m.push(("cmp_pipe_read_blk".to_owned(), 0x2008c0u32));
    m.push(("cmp_pipe_write_blk".to_owned(), 0x200840u32));
    m.push(("cmp_que_read_block_0".to_owned(), 0x280540u32));
    m.push(("cmp_que_read_block_1".to_owned(), 0x2805c0u32));
    m.push(("cmp_que_write_list".to_owned(), 0x280440u32));
    m.push(("cmp_que_write_list_1".to_owned(), 0x2804c0u32));
    m.push(("cmp_tx_pkt_0".to_owned(), 0x300200u32));
    m.push(("cmp_tx_pkt_1".to_owned(), 0x300234u32));
    m.push(("cmp_tx_pkt_2".to_owned(), 0x300268u32));
    m.push(("cmp_tx_pkt_3".to_owned(), 0x30029cu32));
    m.push(("fm_diag".to_owned(), 0x200a00u32));
    m.push(("fm_idle".to_owned(), 0x200980u32));
    m.push(("fm_learn".to_owned(), 0x280600u32));
    m.push(("fm_lrt".to_owned(), 0x200900u32));
    m.push(("fm_pkt_0".to_owned(), 0x300400u32));
    m.push(("fm_pkt_1 ".to_owned(), 0x300434u32));
    m.push(("fm_pkt_2".to_owned(), 0x300468u32));
    m.push(("fm_pkt_3".to_owned(), 0x30049cu32));
    m.push(("fm_pkt_4".to_owned(), 0x3004d0u32));
    m.push(("fm_pkt_5".to_owned(), 0x300504u32));
    m.push(("fm_pkt_6".to_owned(), 0x300538u32));
    m.push(("fm_pkt_7".to_owned(), 0x30056cu32));
    m.push(("rx_diag".to_owned(), 0x200a40u32));
    m.push(("rx_idle".to_owned(), 0x2009c0u32));
    m.push(("rx_learn".to_owned(), 0x280640u32));
    m.push(("rx_lrt".to_owned(), 0x200940u32));
    m.push(("rx_pkt_0".to_owned(), 0x300600u32));
    m.push(("rx_pkt_1".to_owned(), 0x300634u32));
    m.push(("rx_pkt_2".to_owned(), 0x300668u32));
    m.push(("rx_pkt_3".to_owned(), 0x30069cu32));
    m.push(("rx_pkt_4".to_owned(), 0x3006d0u32));
    m.push(("rx_pkt_5".to_owned(), 0x300704u32));
    m.push(("rx_pkt_6".to_owned(), 0x300738u32));
    m.push(("rx_pkt_7".to_owned(), 0x30076cu32));
    m.push(("tx_mac_stat".to_owned(), 0x180200u32));
    m.push(("tx_mac_write_block".to_owned(), 0x180280u32));
    m.push(("tx_pipe_inst_list_0".to_owned(), 0x200600u32));
    m.push(("tx_pipe_inst_list_1".to_owned(), 0x200634u32));
    m.push(("tx_pipe_inst_list_2".to_owned(), 0x200668u32));
    m.push(("tx_pipe_inst_list_3".to_owned(), 0x20069cu32));
    m.push(("tx_pipe_read_block".to_owned(), 0x200880u32));
    m.push(("tx_pipe_write_block".to_owned(), 0x200800u32));
    m.push(("tx_pkt_0".to_owned(), 0x300100u32));
    m.push(("tx_pkt_1".to_owned(), 0x300134u32));
    m.push(("tx_pkt_2".to_owned(), 0x300168u32));
    m.push(("tx_pkt_3".to_owned(), 0x30019cu32));
    m.push(("tx_que_read_block_0".to_owned(), 0x280500u32));
    m.push(("tx_que_read_block_1".to_owned(), 0x280580u32));
    m.push(("tx_que_write_list".to_owned(), 0x280400u32));
    m.push(("tx_que_write_list_1".to_owned(), 0x280480u32));
    m
}

} // verus!
