//! The register accessor: the namespace and the checked window composed.
//!
//! An identifier is resolved by first attempting a numeric-literal parse and
//! only on failure a tree lookup by name — on ambiguity the literal wins.
//! Reads transfer whole 4-byte words at consecutive offsets; a write always
//! transfers exactly one word.

use vstd::prelude::*;
use vstd::string::StrSliceExecFns;
use crate::errors::TfError;
use crate::pci::Pci;
use crate::regmap::{RegMap, Node, spec_lookup, matched_paths, search_tree};
use crate::strutil::{parse_val, spec_parse_val};

verus! {

/// The register-access context: a namespace and a mapped window.
pub struct Tofino {
    /// The register namespace of the device generation.
    pub map: RegMap,
    /// The mapped register window.
    pub pci: Pci,
}

/// What reading `cnt` consecutive 4-byte words at byte offset `offset`
/// yields: the words on success, the first failing access's error otherwise.
/// Reading zero words always succeeds, whatever the offset.
pub open spec fn spec_read(pci: Pci, offset: u32, cnt: u32) -> Result<Seq<u32>, TfError> {
    if cnt == 0 {
        Ok(Seq::empty())
    } else if offset % 4 != 0 {
        Err(TfError::Alignment(offset))
    } else if offset + 4 * cnt <= pci.spec_len_bytes() {
        Ok(Seq::new(cnt as nat, |i: int| pci@[offset as int / 4 + i]))
    } else if pci.spec_len_bytes() > offset {
        Err(TfError::Bounds(pci.spec_len_bytes() as u64))
    } else {
        Err(TfError::Bounds(offset as u64))
    }
}

impl Tofino {
    /// The window stays addressable with 32-bit byte offsets.
    pub open spec fn wf(&self) -> bool {
        self.pci.wf()
    }

    /// Compose a namespace and a mapped window into an accessor.
    pub fn new(map: RegMap, pci: Pci) -> (r: Tofino)
        requires
            pci.wf(),
        ensures
            r.map == map,
            r.pci == pci,
            r.wf(),
    {
        Tofino { map, pci }
    }

    /// Resolve a dotted path to its node in the namespace.
    pub fn get_node(&self, reg: &str) -> (r: Result<&Node, TfError>)
        ensures
            spec_lookup(self.map.root, reg@) matches Some(n) ==> (r matches Ok(node) && *node
                == n),
            spec_lookup(self.map.root, reg@) is None ==> (r matches Err(e) && e matches
                TfError::NotFound(m) && m@ == reg@),
    {
        self.map.get_node(reg)
    }

    /// Resolve a dotted path to the byte offset that maps it.
    pub fn get_offset(&self, reg: &str) -> (r: Result<u32, TfError>)
        ensures
            spec_lookup(self.map.root, reg@) matches Some(n) ==> r == Ok::<u32, TfError>(n.offset),
            spec_lookup(self.map.root, reg@) is None ==> (r matches Err(e) && e matches
                TfError::NotFound(m) && m@ == reg@),
    {
        self.map.get_offset(reg)
    }
}

/// Read `cnt` consecutive 4-byte words starting at byte offset `offset`.
pub fn read_offset(ctx: &Tofino, offset: u32, cnt: u32) -> (r: Result<Vec<u32>, TfError>)
    requires
        ctx.wf(),
    ensures
        spec_read(ctx.pci, offset, cnt) matches Ok(w) ==> (r matches Ok(v) && v@ == w),
        spec_read(ctx.pci, offset, cnt) matches Err(e) ==> r == Err::<Vec<u32>, TfError>(e),
{
    let mut r: Vec<u32> = Vec::new();
    if cnt == 0 {
        return Ok(r);
    }
    let mut cur: u32 = offset;
    let mut i: u32 = 0;
    while i < cnt
        invariant
            ctx.wf(),
            cnt > 0,
            i <= cnt,
            cur == offset + 4 * i,
            r@.len() == i,
            forall|j: int| 0 <= j < i ==> r@[j] == ctx.pci@[offset as int / 4 + j],
            i > 0 ==> offset % 4 == 0 && offset + 4 * i <= ctx.pci.spec_len_bytes(),
        decreases cnt - i,
    {
        match ctx.pci.read4(cur) {
            Ok(w) => r.push(w),
            Err(e) => {
                return Err(e);
            },
        }
        i = i + 1;
        cur = cur + 4;
    }
    proof {
        assert(r@ =~= Seq::new(cnt as nat, |j: int| ctx.pci@[offset as int / 4 + j]));
    }
    Ok(r)
}

/// Resolve a register name and read `cnt` consecutive words at its offset.
pub fn read_register(ctx: &Tofino, reg: &str, cnt: u32) -> (r: Result<Vec<u32>, TfError>)
    requires
        ctx.wf(),
    ensures
        spec_lookup(ctx.map.root, reg@) matches Some(n) ==> {
            &&& spec_read(ctx.pci, n.offset, cnt) matches Ok(w) ==> (r matches Ok(v) && v@ == w)
            &&& spec_read(ctx.pci, n.offset, cnt) matches Err(e) ==> r == Err::<Vec<u32>, TfError>(
                e,
            )
        },
        spec_lookup(ctx.map.root, reg@) is None ==> (r matches Err(e) && e matches
            TfError::NotFound(m) && m@ == reg@),
{
    let offset = ctx.get_offset(reg)?;
    read_offset(ctx, offset, cnt)
}

/// Write one 4-byte word at byte offset `offset`.
fn write_offset(ctx: &mut Tofino, offset: u32, val: u32) -> (r: Result<(), TfError>)
    requires
        old(ctx).wf(),
    ensures
        final(ctx).wf(),
        final(ctx).map == old(ctx).map,
        old(ctx).pci.offset_ok(offset as int) ==> r == Ok::<(), TfError>(()) && final(ctx).pci@
            == old(ctx).pci@.update(offset as int / 4, val),
        !old(ctx).pci.offset_ok(offset as int) ==> r == Err::<(), TfError>(
            old(ctx).pci.access_error(offset),
        ) && final(ctx).pci@ == old(ctx).pci@,
{
    ctx.pci.write4(offset, val)
}

/// How an identifier names an offset: a valid numeric literal wins; only on
/// parse failure is it tried as a register name.
pub open spec fn spec_resolve(map: RegMap, reg: Seq<char>) -> Option<u32> {
    match spec_parse_val(reg) {
        Some(o) => Some(o),
        None => match spec_lookup(map.root, reg) {
            Some(n) => Some(n.offset),
            None => None,
        },
    }
}

/// Resolve an identifier — numeric literal first, then register name — and
/// read from the resolved offset.  Without an explicit count, a literal reads
/// one word and a name reads the node's declared size in words.  Returns the
/// resolved offset with the words.
pub fn resolve_and_read(ctx: &Tofino, reg: &str, num: Option<u32>) -> (r: Result<
    (u32, Vec<u32>),
    TfError,
>)
    requires
        ctx.wf(),
    ensures
        spec_parse_val(reg@) matches Some(o) ==> {
            let cnt = num.unwrap_or(1);
            &&& spec_read(ctx.pci, o, cnt) matches Ok(w) ==> (r matches Ok(p) && p.0 == o && p.1@
                == w)
            &&& spec_read(ctx.pci, o, cnt) matches Err(e) ==> r == Err::<(u32, Vec<u32>), TfError>(
                e,
            )
        },
        spec_parse_val(reg@) is None ==> (spec_lookup(ctx.map.root, reg@) matches Some(n) ==> {
            let cnt = num.unwrap_or(n.size / 4);
            &&& spec_read(ctx.pci, n.offset, cnt) matches Ok(w) ==> (r matches Ok(p) && p.0
                == n.offset && p.1@ == w)
            &&& spec_read(ctx.pci, n.offset, cnt) matches Err(e) ==> r == Err::<
                (u32, Vec<u32>),
                TfError,
            >(e)
        }),
        spec_parse_val(reg@) is None && spec_lookup(ctx.map.root, reg@) is None ==> (r matches Err(
            e,
        ) && e matches TfError::BadIdentifier(m) && m@ == reg@),
{
    let (offset, cnt) = match parse_val(reg) {
        Ok(offset) => (offset, num.unwrap_or(1)),
        Err(_) => match ctx.get_node(reg) {
            Ok(node) => (node.offset, num.unwrap_or(node.size / 4)),
            Err(_) => {
                return Err(TfError::BadIdentifier(reg.to_owned()));
            },
        },
    };
    let vals = read_offset(ctx, offset, cnt)?;
    Ok((offset, vals))
}

/// Resolve an identifier — numeric literal first, then register name — and
/// write one word there.  The value is parsed only after the identifier
/// resolves; a rejected identifier or value leaves the window untouched.
pub fn resolve_and_write(ctx: &mut Tofino, reg: &str, val: &str) -> (r: Result<(), TfError>)
    requires
        old(ctx).wf(),
    ensures
        final(ctx).wf(),
        final(ctx).map == old(ctx).map,
        spec_resolve(old(ctx).map, reg@) is None ==> (r matches Err(e) && e matches
            TfError::BadIdentifier(m) && m@ == reg@ && final(ctx).pci@ == old(ctx).pci@),
        spec_resolve(old(ctx).map, reg@) matches Some(o) ==> {
            &&& spec_parse_val(val@) is None ==> (r matches Err(e) && e matches
                TfError::BadIdentifier(m) && m@ == val@ && final(ctx).pci@ == old(ctx).pci@)
            &&& spec_parse_val(val@) matches Some(v) ==> {
                &&& old(ctx).pci.offset_ok(o as int) ==> r == Ok::<(), TfError>(())
                    && final(ctx).pci@ == old(ctx).pci@.update(o as int / 4, v)
                &&& !old(ctx).pci.offset_ok(o as int) ==> r == Err::<(), TfError>(
                    old(ctx).pci.access_error(o),
                ) && final(ctx).pci@ == old(ctx).pci@
            }
        },
{
    let offset = match parse_val(reg) {
        Ok(offset) => offset,
        Err(_) => match ctx.get_offset(reg) {
            Ok(offset) => offset,
            Err(_) => {
                return Err(TfError::BadIdentifier(reg.to_owned()));
            },
        },
    };
    let v = match parse_val(val) {
        Ok(v) => v,
        Err(e) => {
            return Err(e);
        },
    };
    write_offset(ctx, offset, v)
}

/// The names of a node's children that a listing shows: every child whose
/// name does not mark it implementation-private.
pub open spec fn visible_children(n: Node) -> Seq<Seq<char>> {
    n.children@.map_values(|c: Node| c.name@).filter(|s: Seq<char>| !(s.len() > 0 && s[0] == '_'))
}

/// List the children of the node a path names, hiding implementation-private
/// names (leading `_`).
pub fn list(ctx: &Tofino, path: &str) -> (r: Result<Vec<String>, TfError>)
    ensures
        spec_lookup(ctx.map.root, path@) matches Some(n) ==> (r matches Ok(v) && v.deep_view()
            == visible_children(n)),
        spec_lookup(ctx.map.root, path@) is None ==> (r matches Err(e) && e matches
            TfError::NotFound(m) && m@ == path@),
{
    broadcast use vstd::prelude::Seq::filter_distributes_over_add;

    let node = ctx.get_node(path)?;
    let mut r: Vec<String> = Vec::new();
    let mut k: usize = 0;
    while k < node.children.len()
        invariant
            k <= node.children@.len(),
            r.deep_view() == node.children@.subrange(0, k as int).map_values(
                |c: Node| c.name@,
            ).filter(|s: Seq<char>| !(s.len() > 0 && s[0] == '_')),
        decreases node.children@.len() - k,
    {
        broadcast use vstd::prelude::Seq::filter_distributes_over_add;

        let name = &node.children[k].name;
        let ghost prefix = node.children@.subrange(0, k as int).map_values(|c: Node| c.name@);
        proof {
            assert(node.children@.subrange(0, k as int + 1).map_values(|c: Node| c.name@)
                =~= prefix + seq![node.children@[k as int].name@]);
            reveal_with_fuel(Seq::<_>::filter, 2);
            assert(seq![node.children@[k as int].name@].drop_last()
                =~= Seq::<Seq<char>>::empty());
        }
        let hidden = if name.as_str().is_empty() {
            false
        } else {
            name.as_str().get_char(0) == '_'
        };
        if !hidden {
            r.push(name.clone());
            proof {
                assert(r.deep_view() =~= prefix.filter(
                    |s: Seq<char>| !(s.len() > 0 && s[0] == '_'),
                ).push(node.children@[k as int].name@));
            }
        }
        k = k + 1;
    }
    proof {
        assert(node.children@.subrange(0, node.children@.len() as int) =~= node.children@);
    }
    Ok(r)
}

/// Search the namespace for leaf registers whose dotted path contains `tgt`:
/// the first `max` matches in traversal order, with the total match count.
/// Zero matches is the distinct "not found" outcome.
pub fn search(ctx: &Tofino, max: u32, tgt: &str) -> (r: Result<(Vec<String>, usize), TfError>)
    ensures
        ctx.map.root is None ==> (r matches Err(e) && e matches TfError::NotFound(m) && m@
            == "."@),
        ctx.map.root matches Some(root) ==> {
            let all = matched_paths(root, "."@, tgt@);
            &&& all.len() == 0 ==> (r matches Err(e) && e matches TfError::NotFound(m) && m@
                == "not found"@)
            &&& all.len() > 0 ==> (r matches Ok(p) && p.1 == all.len() && p.0.deep_view() == (
            if max as int <= all.len() as int {
                all.take(max as int)
            } else {
                all
            }))
        },
{
    search_tree(&ctx.map, max, tgt)
}

/// The per-bus scratch registers the performance probe exercises, with their
/// resolved offsets: an entry for each fixed probe register that the loaded
/// namespace resolves, in probe order.
pub open spec fn perf_entry(map: RegMap, bus: Seq<char>, reg: Seq<char>) -> Seq<(Seq<char>, u32)> {
    match spec_lookup(map.root, reg) {
        Some(n) => seq![(bus, n.offset)],
        None => Seq::empty(),
    }
}

/// Resolve one probe register and append its bus label and offset if found.
fn push_perf_reg(ctx: &Tofino, regs: &mut Vec<(String, u32)>, bus: &str, reg: &str)
    ensures
        final(regs).deep_view() == old(regs).deep_view() + perf_entry(ctx.map, bus@, reg@),
{
    match ctx.get_offset(reg) {
        Ok(a) => {
            regs.push((bus.to_owned(), a));
            proof {
                assert(regs.deep_view() =~= old(regs).deep_view() + perf_entry(
                    ctx.map,
                    bus@,
                    reg@,
                ));
            }
        },
        Err(_) => {
            proof {
                assert(regs.deep_view() =~= old(regs).deep_view() + perf_entry(
                    ctx.map,
                    bus@,
                    reg@,
                ));
            }
        },
    }
}

/// The candidate scratch registers of the four buses, those that resolve, in
/// fixed probe order.
pub fn perf_regs(ctx: &Tofino) -> (r: Vec<(String, u32)>)
    ensures
        r.deep_view() == perf_entry(ctx.map, "host"@, "device_select.pcie_bar01_regs.scratch_reg.0"@)
            + perf_entry(ctx.map, "cbus"@, "device_select.lfltr.0.ctrl.scratch.0"@) + perf_entry(
            ctx.map,
            "mbus"@,
            "eth100g_regs.eth100g_reg.scratch.0"@,
        ) + perf_entry(ctx.map, "pbus"@, "pipes.0.mau.0.dp.mau_scratch"@),
{
    let mut regs: Vec<(String, u32)> = Vec::new();
    push_perf_reg(ctx, &mut regs, "host", "device_select.pcie_bar01_regs.scratch_reg.0");
    push_perf_reg(ctx, &mut regs, "cbus", "device_select.lfltr.0.ctrl.scratch.0");
    push_perf_reg(ctx, &mut regs, "mbus", "eth100g_regs.eth100g_reg.scratch.0");
    push_perf_reg(ctx, &mut regs, "pbus", "pipes.0.mau.0.dp.mau_scratch");
    proof {
        assert(Seq::<(Seq<char>, u32)>::empty() + perf_entry(
            ctx.map,
            "host"@,
            "device_select.pcie_bar01_regs.scratch_reg.0"@,
        ) =~= perf_entry(ctx.map, "host"@, "device_select.pcie_bar01_regs.scratch_reg.0"@));
    }
    regs
}

} // verus!
