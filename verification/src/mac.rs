//! Per-channel MAC status decoding.
//!
//! The auxiliary (CPU) MAC packs one bit per channel for four channels into
//! one status register; a high-speed MAC packs one bit per channel for eight
//! channels into each of two status registers, addressed by paths templated
//! on the MAC number.

use vstd::prelude::*;
use vstd::string::StringExecFns;
use crate::accessor::{Tofino, spec_read, read_register};
use crate::bits::{extract_bits, get_bits};
use crate::errors::TfError;
use crate::numstr::{u32_to_dec, spec_u32_dec};
use crate::regmap::spec_lookup;
use crate::strutil::{eq_ignore_case, str_eq_ignore_case, parse_dec32, parse_ok, digits_val};

verus! {

/// The register path of the auxiliary MAC's status word.
pub open spec fn aux_status_path() -> Seq<char> {
    "eth100g_regs.eth100g_reg.eth_status"@
}

/// Per-channel status of the auxiliary (CPU) MAC: each field holds one bit
/// per channel, four channels.
pub struct Eth100GStatus {
    pub macsts_sigok: u8,
    pub macsts_txidle: u8,
    pub macsts_rxidle: u8,
    pub macsts_txgood: u8,
}

/// The fields of the auxiliary status decoded from its register word.
pub open spec fn eth100g_fields(w: Seq<u32>, s: Eth100GStatus) -> bool {
    &&& s.macsts_sigok == extract_bits(w, 0, 4)
    &&& s.macsts_txidle == extract_bits(w, 4, 4)
    &&& s.macsts_rxidle == extract_bits(w, 8, 4)
    &&& s.macsts_txgood == extract_bits(w, 12, 4)
}

/// Read and decode the auxiliary MAC's status register.
pub fn eth100g_status(ctx: &Tofino) -> (r: Result<Eth100GStatus, TfError>)
    requires
        ctx.wf(),
    ensures
        spec_lookup(ctx.map.root, aux_status_path()) is None ==> (r matches Err(e) && e matches
            TfError::NotFound(m) && m@ == aux_status_path()),
        spec_lookup(ctx.map.root, aux_status_path()) matches Some(n) ==> {
            &&& spec_read(ctx.pci, n.offset, 1) matches Ok(w) ==> (r matches Ok(s)
                && eth100g_fields(w, s))
            &&& spec_read(ctx.pci, n.offset, 1) matches Err(e) ==> r == Err::<
                Eth100GStatus,
                TfError,
            >(e)
        },
{
    proof {
        reveal_strlit("eth100g_regs.eth100g_reg.eth_status");
    }
    let val = read_register(ctx, "eth100g_regs.eth100g_reg.eth_status", 1)?;
    proof {
        vstd::arithmetic::power2::lemma2_to64();
    }
    Ok(
        Eth100GStatus {
            macsts_sigok: get_bits(val.as_slice(), 0, 3) as u8,
            macsts_txidle: get_bits(val.as_slice(), 4, 7) as u8,
            macsts_rxidle: get_bits(val.as_slice(), 8, 11) as u8,
            macsts_txgood: get_bits(val.as_slice(), 12, 15) as u8,
        },
    )
}

/// Per-channel status of one high-speed MAC: each field holds one bit per
/// channel, eight channels, split across two status registers.
pub struct Eth400GStatus {
    pub macsts_lfault: u8,
    pub macsts_rfault: u8,
    pub macsts_ofault: u8,
    pub macsts_linkup: u8,
    pub macsts_sigok: u8,
    pub macsts_txidle: u8,
    pub macsts_rxidle: u8,
    pub macsts_txgood: u8,
}

/// The register path of a high-speed MAC's first status word.
pub open spec fn eth400g_path0(mac: int) -> Seq<char> {
    "eth400g_p"@ + spec_u32_dec(mac) + ".eth400g_mac.eth_status0"@
}

/// The register path of a high-speed MAC's second status word.
pub open spec fn eth400g_path1(mac: int) -> Seq<char> {
    "eth400g_p"@ + spec_u32_dec(mac) + ".eth400g_mac.eth_status1"@
}

/// Both status registers of the MAC resolve and read without error.
pub open spec fn eth400g_readable(ctx: Tofino, mac: u32) -> bool {
    match spec_lookup(ctx.map.root, eth400g_path0(mac as int)) {
        None => false,
        Some(n0) => spec_read(ctx.pci, n0.offset, 1) is Ok && match spec_lookup(
            ctx.map.root,
            eth400g_path1(mac as int),
        ) {
            None => false,
            Some(n1) => spec_read(ctx.pci, n1.offset, 1) is Ok,
        },
    }
}

/// The fields of a high-speed MAC status decoded from its two register
/// words, meaningful when the MAC is readable.
pub open spec fn eth400g_fields(ctx: Tofino, mac: u32, s: Eth400GStatus) -> bool {
    let n0 = spec_lookup(ctx.map.root, eth400g_path0(mac as int))->Some_0;
    let n1 = spec_lookup(ctx.map.root, eth400g_path1(mac as int))->Some_0;
    let w0 = spec_read(ctx.pci, n0.offset, 1)->Ok_0;
    let w1 = spec_read(ctx.pci, n1.offset, 1)->Ok_0;
    &&& s.macsts_lfault == extract_bits(w0, 0, 8)
    &&& s.macsts_rfault == extract_bits(w0, 8, 8)
    &&& s.macsts_ofault == extract_bits(w0, 16, 8)
    &&& s.macsts_linkup == extract_bits(w0, 24, 8)
    &&& s.macsts_sigok == extract_bits(w1, 0, 8)
    &&& s.macsts_txidle == extract_bits(w1, 8, 8)
    &&& s.macsts_rxidle == extract_bits(w1, 16, 8)
    &&& s.macsts_txgood == extract_bits(w1, 24, 8)
}

/// The error an unreadable MAC reports: the first failing resolution or
/// read, first register first.
pub open spec fn eth400g_err(ctx: Tofino, mac: u32, e: TfError) -> bool {
    match spec_lookup(ctx.map.root, eth400g_path0(mac as int)) {
        None => e matches TfError::NotFound(m) && m@ == eth400g_path0(mac as int),
        Some(n0) => match spec_read(ctx.pci, n0.offset, 1) {
            Err(e0) => e == e0,
            Ok(_) => match spec_lookup(ctx.map.root, eth400g_path1(mac as int)) {
                None => e matches TfError::NotFound(m) && m@ == eth400g_path1(mac as int),
                Some(n1) => spec_read(ctx.pci, n1.offset, 1) matches Err(e1) && e == e1,
            },
        },
    }
}

/// Read and decode both status registers of one high-speed MAC.
pub fn eth400g_status(ctx: &Tofino, mac: u32) -> (r: Result<Eth400GStatus, TfError>)
    requires
        ctx.wf(),
    ensures
        eth400g_readable(*ctx, mac) ==> (r matches Ok(s) && eth400g_fields(*ctx, mac, s)),
        !eth400g_readable(*ctx, mac) ==> (r matches Err(e) && eth400g_err(*ctx, mac, e)),
{
    let num = u32_to_dec(mac);
    let mut path0 = "eth400g_p".to_owned();
    path0.append(num.as_str());
    path0.append(".eth400g_mac.eth_status0");
    let mut path1 = "eth400g_p".to_owned();
    path1.append(num.as_str());
    path1.append(".eth400g_mac.eth_status1");
    proof {
        reveal_strlit("eth400g_p");
        reveal_strlit(".eth400g_mac.eth_status0");
        reveal_strlit(".eth400g_mac.eth_status1");
        assert(path0@ =~= eth400g_path0(mac as int));
        assert(path1@ =~= eth400g_path1(mac as int));
    }
    let stat0 = read_register(ctx, path0.as_str(), 1)?;
    let stat1 = read_register(ctx, path1.as_str(), 1)?;
    proof {
        vstd::arithmetic::power2::lemma2_to64();
    }
    Ok(
        Eth400GStatus {
            macsts_lfault: get_bits(stat0.as_slice(), 0, 7) as u8,
            macsts_rfault: get_bits(stat0.as_slice(), 8, 15) as u8,
            macsts_ofault: get_bits(stat0.as_slice(), 16, 23) as u8,
            macsts_linkup: get_bits(stat0.as_slice(), 24, 31) as u8,
            macsts_sigok: get_bits(stat1.as_slice(), 0, 7) as u8,
            macsts_txidle: get_bits(stat1.as_slice(), 8, 15) as u8,
            macsts_rxidle: get_bits(stat1.as_slice(), 16, 23) as u8,
            macsts_txgood: get_bits(stat1.as_slice(), 24, 31) as u8,
        },
    )
}

/// The first MAC number in `m ..= 32` that is not readable, or 33.
pub open spec fn first_bad_mac(ctx: Tofino, m: int) -> int
    decreases 33 - m,
{
    if m < 1 || m >= 33 {
        33
    } else if !eth400g_readable(ctx, m as u32) {
        m
    } else {
        first_bad_mac(ctx, m + 1)
    }
}

/// The first candidate MAC is never below the start of the scan.
proof fn lemma_first_bad_mac_lb(ctx: Tofino, m: int)
    requires
        1 <= m <= 33,
    ensures
        first_bad_mac(ctx, m) >= m,
    decreases 33 - m,
{
    if m < 33 && eth400g_readable(ctx, m as u32) {
        lemma_first_bad_mac_lb(ctx, m + 1);
    }
}

/// If every MAC before `k` is readable and `k` is not, the first bad MAC
/// from `m <= k` on is `k`.
proof fn lemma_first_bad_mac(ctx: Tofino, m: int, k: int)
    requires
        1 <= m <= k < 33,
        !eth400g_readable(ctx, k as u32),
        forall|j: u32| 1 <= j < k ==> #[trigger] eth400g_readable(ctx, j),
    ensures
        first_bad_mac(ctx, m) == k,
    decreases 33 - m,
{
    if m < k {
        assert(eth400g_readable(ctx, m as u32));
        lemma_first_bad_mac(ctx, m + 1, k);
    }
}

/// Readable MACs advance the first-bad bound.
proof fn lemma_first_bad_mac_step(ctx: Tofino, m: int, k: int)
    requires
        1 <= m <= k < 33,
        eth400g_readable(ctx, k as u32),
        first_bad_mac(ctx, m) >= k,
    ensures
        first_bad_mac(ctx, m) >= k + 1,
    decreases 33 - m,
{
    if m == k {
        lemma_first_bad_mac_lb(ctx, m + 1);
    } else {
        lemma_first_bad_mac_step(ctx, m + 1, k);
    }
}

/// Read the status of every high-speed MAC, numbers 1 through 32 in order,
/// failing on the first unreadable MAC rather than skipping it.
pub fn all_eth400g_status(ctx: &Tofino) -> (r: Result<Vec<(u32, Eth400GStatus)>, TfError>)
    requires
        ctx.wf(),
    ensures
        (forall|m: u32| 1 <= m <= 32 ==> #[trigger] eth400g_readable(*ctx, m)) ==> (r matches Ok(v)
            && v@.len() == 32 && forall|j: int|
            0 <= j < 32 ==> (#[trigger] v@[j]).0 == j + 1 && eth400g_fields(
                *ctx,
                (j + 1) as u32,
                v@[j].1,
            )),
        !(forall|m: u32| 1 <= m <= 32 ==> #[trigger] eth400g_readable(*ctx, m)) ==> (r matches Err(
            e,
        ) && eth400g_err(*ctx, first_bad_mac(*ctx, 1) as u32, e)),
{
    let mut out: Vec<(u32, Eth400GStatus)> = Vec::new();
    let mut mac: u32 = 1;
    proof {
        lemma_first_bad_mac_lb(*ctx, 1);
    }
    while mac <= 32
        invariant
            ctx.wf(),
            1 <= mac <= 33,
            out@.len() == mac - 1,
            forall|j: int|
                0 <= j < mac - 1 ==> (#[trigger] out@[j]).0 == j + 1 && eth400g_readable(
                    *ctx,
                    (j + 1) as u32,
                ) && eth400g_fields(*ctx, (j + 1) as u32, out@[j].1),
            first_bad_mac(*ctx, 1) >= mac,
        decreases 33 - mac,
    {
        match eth400g_status(ctx, mac) {
            Ok(s) => out.push((mac, s)),
            Err(e) => {
                proof {
                    assert forall|j: u32| 1 <= j < mac implies #[trigger] eth400g_readable(
                        *ctx,
                        j,
                    ) by {
                        assert(out@[j - 1].0 == j);
                    }
                    lemma_first_bad_mac(*ctx, 1, mac as int);
                }
                return Err(e);
            },
        }
        proof {
            lemma_first_bad_mac_step(*ctx, 1, mac as int);
        }
        mac = mac + 1;
    }
    proof {
        assert forall|m: u32| 1 <= m <= 32 implies #[trigger] eth400g_readable(*ctx, m) by {
            assert(out@[m - 1].0 == m);
        }
    }
    Ok(out)
}

/// What a MAC selection argument asks for.
#[derive(Clone, Copy, Debug, PartialEq, Eq, Structural)]
pub enum MacSelector {
    /// The auxiliary (CPU) MAC.
    Aux,
    /// One high-speed MAC by number.
    One(u32),
    /// Every high-speed MAC.
    All,
}

/// Classify a MAC selection argument: nothing selects all MACs, `aux` or
/// `cpu` (any ASCII case) the auxiliary MAC, a decimal number one MAC.
pub fn mac_selector(mac: Option<&str>) -> (r: Result<MacSelector, TfError>)
    ensures
        mac is None ==> r == Ok::<MacSelector, TfError>(MacSelector::All),
        mac matches Some(s) ==> {
            let aux = eq_ignore_case(s@, "aux"@) || eq_ignore_case(s@, "cpu"@);
            &&& aux ==> r == Ok::<MacSelector, TfError>(MacSelector::Aux)
            &&& !aux && parse_ok(s@, 10) ==> r == Ok::<MacSelector, TfError>(
                MacSelector::One(digits_val(s@, 10) as u32),
            )
            &&& !aux && !parse_ok(s@, 10) ==> (r matches Err(e) && e matches
                TfError::BadIdentifier(m) && m@ == s@)
        },
{
    let s = match mac {
        Some(s) => s,
        None => {
            return Ok(MacSelector::All);
        },
    };
    if str_eq_ignore_case(s, "aux") || str_eq_ignore_case(s, "cpu") {
        return Ok(MacSelector::Aux);
    }
    match parse_dec32(s) {
        Some(v) => Ok(MacSelector::One(v)),
        None => Err(TfError::BadIdentifier(s.to_owned())),
    }
}

} // verus!
