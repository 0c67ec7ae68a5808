//! The hierarchical, path-addressable register namespace.
//!
//! A dotted path such as `pipes.0.mau.0.dp.mau_scratch` names a node of a
//! static tree; each node carries a byte offset into the register window and
//! a byte size.  The tree itself is per-device-generation configuration that
//! the caller injects; an empty map (no tree loaded) resolves nothing.
//!
//! A path is resolved segment by segment, each segment matching the first
//! child of that name in declaration order.  The root is named by `.` (or by
//! the empty path); a leading `.` is a root marker, so `.pipes.0` and
//! `pipes.0` name the same node.

use vstd::prelude::*;
use vstd::string::{StrSliceExecFns, StringExecFns};
use crate::errors::TfError;
use crate::strutil::{find_ch, lemma_find_ch, find_char, str_eq_str, str_contains, spec_contains};

verus! {

/// One node of the register namespace.  A node without children is a leaf
/// register; `offset` is meaningful for leaves and contiguous blocks.
pub struct Node {
    /// The node's own path segment.
    pub name: String,
    /// Byte offset of the node's storage inside the register window.
    pub offset: u32,
    /// Byte size of the node's storage.
    pub size: u32,
    /// Child nodes, in declaration order of the device metadata.
    pub children: Vec<Node>,
}

/// Index of the first child (in declaration order) named `seg`, or -1.
pub open spec fn child_index(children: Seq<Node>, seg: Seq<char>) -> int
    decreases children.len(),
{
    if children.len() == 0 {
        -1
    } else if children[0].name@ == seg {
        0
    } else {
        let r = child_index(children.skip(1), seg);
        if r < 0 {
            -1
        } else {
            r + 1
        }
    }
}

/// What `child_index` points at: the first name match, if there is one.
pub proof fn lemma_child_index(children: Seq<Node>, seg: Seq<char>)
    ensures
        child_index(children, seg) == -1 ==> forall|j: int|
            0 <= j < children.len() ==> (#[trigger] children[j].name)@ != seg,
        child_index(children, seg) != -1 ==> {
            let ci = child_index(children, seg);
            &&& 0 <= ci < children.len()
            &&& children[ci].name@ == seg
            &&& forall|j: int| 0 <= j < ci ==> (#[trigger] children[j].name)@ != seg
        },
    decreases children.len(),
{
    if children.len() == 0 || children[0].name@ == seg {
    } else {
        let rest = children.skip(1);
        lemma_child_index(rest, seg);
        let r = child_index(rest, seg);
        if r == -1 {
            assert forall|j: int| 0 <= j < children.len() implies (#[trigger] children[j].name)@
                != seg by {
                if j >= 1 {
                    assert(rest[j - 1] == children[j]);
                    assert(rest[j - 1].name@ != seg);
                }
            }
        } else {
            assert(rest[r] == children[r + 1]);
            assert forall|j: int| 0 <= j < r + 1 implies (#[trigger] children[j].name)@ != seg by {
                if j >= 1 {
                    assert(rest[j - 1] == children[j]);
                    assert(rest[j - 1].name@ != seg);
                }
            }
        }
    }
}

/// Resolve the path `p`, read from character position `pos` on, against the
/// subtree rooted at `n`.  An empty remainder names `n` itself; otherwise the
/// segment up to the next `.` selects a child and resolution continues after
/// the dot.
pub open spec fn resolve_from(n: Node, p: Seq<char>, pos: int) -> Option<Node>
    decreases n,
{
    if pos >= p.len() {
        Some(n)
    } else {
        let d = find_ch(p, '.', pos);
        let seg = p.subrange(pos, d);
        let ci = child_index(n.children@, seg);
        if ci < 0 {
            None
        } else {
            proof {
                lemma_child_index(n.children@, seg);
                assert(decreases_to!(n => n.children@[ci]));
            }
            resolve_from(n.children@[ci], p, if d < p.len() { d + 1 } else { p.len() as int })
        }
    }
}

/// The node a register path names in a map, if any: `reg` with a leading
/// root marker stripped, resolved against the root.
pub open spec fn spec_lookup(root: Option<Node>, reg: Seq<char>) -> Option<Node> {
    match root {
        None => None,
        Some(r) => {
            let pos: int = if reg.len() > 0 && reg[0] == '.' {
                1
            } else {
                0
            };
            resolve_from(r, reg, pos)
        },
    }
}

/// The register namespace of one device generation.
pub struct RegMap {
    /// The root of the tree, or nothing when no register metadata is loaded.
    pub root: Option<Node>,
}

impl RegMap {
    /// A map with no register metadata: every lookup fails.
    pub fn new() -> (r: RegMap)
        ensures
            r.root is None,
    {
        RegMap { root: None }
    }

    /// A map over an injected metadata tree.
    pub fn from_root(root: Node) -> (r: RegMap)
        ensures
            r.root == Some(root),
    {
        RegMap { root: Some(root) }
    }

    /// Resolve a dotted path to its node.
    pub fn get_node(&self, reg: &str) -> (r: Result<&Node, TfError>)
        ensures
            spec_lookup(self.root, reg@) matches Some(n) ==> (r matches Ok(node) && *node == n),
            spec_lookup(self.root, reg@) is None ==> (r matches Err(e) && e matches
                TfError::NotFound(m) && m@ == reg@),
    {
        let mut cur: &Node = match &self.root {
            Some(root) => root,
            None => {
                return Err(TfError::NotFound(reg.to_owned()));
            },
        };
        let n = reg.unicode_len();
        let mut pos: usize = if n > 0 && reg.get_char(0) == '.' {
            1
        } else {
            0
        };
        while pos < n
            invariant
                pos <= n,
                n == reg@.len(),
                resolve_from(*cur, reg@, pos as int) == spec_lookup(self.root, reg@),
            decreases n - pos,
        {
            let d = find_char(reg, '.', pos);
            proof {
                lemma_find_ch(reg@, '.', pos as int);
            }
            let seg = reg.substring_char(pos, d);
            let ghost segv = reg@.subrange(pos as int, d as int);
            proof {
                lemma_child_index(cur.children@, segv);
            }
            let mut k: usize = 0;
            let mut found: bool = false;
            while k < cur.children.len() && !found
                invariant
                    seg@ == segv,
                    forall|j: int| 0 <= j < k ==> (#[trigger] cur.children@[j].name)@ != segv,
                    found ==> k < cur.children@.len() && cur.children@[k as int].name@ == segv,
                    k <= cur.children@.len(),
                decreases cur.children@.len() - k, (if found { 0int } else { 1int }),
            {
                if str_eq_str(cur.children[k].name.as_str(), seg) {
                    found = true;
                } else {
                    k = k + 1;
                }
            }
            if !found {
                proof {
                    assert(child_index(cur.children@, segv) == -1) by {
                        lemma_child_index(cur.children@, segv);
                    }
                }
                return Err(TfError::NotFound(reg.to_owned()));
            }
            proof {
                lemma_child_index(cur.children@, segv);
                assert(child_index(cur.children@, segv) == k);
            }
            cur = &cur.children[k];
            pos = if d < n {
                d + 1
            } else {
                n
            };
        }
        Ok(cur)
    }

    /// Resolve a dotted path to its node's byte offset.
    pub fn get_offset(&self, reg: &str) -> (r: Result<u32, TfError>)
        ensures
            spec_lookup(self.root, reg@) matches Some(n) ==> r == Ok::<u32, TfError>(n.offset),
            spec_lookup(self.root, reg@) is None ==> (r matches Err(e) && e matches
                TfError::NotFound(m) && m@ == reg@),
    {
        match self.get_node(reg) {
            Ok(node) => Ok(node.offset),
            Err(e) => Err(e),
        }
    }
}

/// All leaf paths of the subtree at `n`, in depth-first declaration order,
/// where `prefix` is the dotted path of `n` itself.  A childless node is a
/// leaf and contributes its own path.
pub open spec fn leaf_paths(n: Node, prefix: Seq<char>) -> Seq<Seq<char>>
    decreases n, 0int,
{
    if n.children@.len() == 0 {
        seq![prefix]
    } else {
        forest_leaf_paths(n.children@, 0, prefix)
    }
}

/// The dotted path of a child named `name` under the path `prefix`: the root
/// marker `.` is not repeated, so the root's children are named bare.
pub open spec fn child_path(prefix: Seq<char>, name: Seq<char>) -> Seq<char> {
    if prefix == seq!['.'] {
        name
    } else {
        prefix + seq!['.'] + name
    }
}

/// Leaf paths of the subtrees of `children[i ..]`, children of the node whose
/// dotted path is `prefix`.
pub open spec fn forest_leaf_paths(children: Seq<Node>, i: int, prefix: Seq<char>) -> Seq<Seq<char>>
    decreases children, (children.len() - i + 1),
{
    if i < 0 || i >= children.len() {
        Seq::empty()
    } else {
        leaf_paths(children[i], child_path(prefix, children[i].name@)) + forest_leaf_paths(
            children,
            i + 1,
            prefix,
        )
    }
}

/// The leaf paths under `n` whose dotted path contains `tgt`, in traversal
/// order.
pub open spec fn matched_paths(n: Node, prefix: Seq<char>, tgt: Seq<char>) -> Seq<Seq<char>> {
    leaf_paths(n, prefix).filter(|p: Seq<char>| spec_contains(p, tgt))
}

/// Depth-first worker: append to `out` every leaf path under `node` that
/// contains `tgt`, in traversal order.
fn search_in(node: &Node, path: &str, tgt: &str, out: &mut Vec<String>)
    ensures
        final(out).deep_view() == old(out).deep_view() + matched_paths(*node, path@, tgt@),
    decreases *node,
{
    broadcast use vstd::prelude::Seq::filter_distributes_over_add;

    let nc = node.children.len();
    if nc == 0 {
        proof {
            reveal_with_fuel(Seq::<_>::filter, 2);
            assert(seq![path@].drop_last() =~= Seq::<Seq<char>>::empty());
        }
        if str_contains(path, tgt) {
            out.push(path.to_owned());
            proof {
                assert(out.deep_view() =~= old(out).deep_view() + matched_paths(
                    *node,
                    path@,
                    tgt@,
                ));
            }
        } else {
            proof {
                assert(out.deep_view() =~= old(out).deep_view() + matched_paths(
                    *node,
                    path@,
                    tgt@,
                ));
            }
        }
    } else {
        let mut k: usize = 0;
        while k < nc
            invariant
                nc == node.children@.len(),
                0 < nc,
                k <= nc,
                out.deep_view() + forest_leaf_paths(node.children@, k as int, path@).filter(
                    |p: Seq<char>| spec_contains(p, tgt@),
                ) == old(out).deep_view() + forest_leaf_paths(node.children@, 0, path@).filter(
                    |p: Seq<char>| spec_contains(p, tgt@),
                ),
            decreases nc - k,
        {
            broadcast use vstd::prelude::Seq::filter_distributes_over_add;

            let child = &node.children[k];
            proof {
                reveal_strlit(".");
                assert("."@ =~= seq!['.']);
            }
            let next: String = if str_eq_str(path, ".") {
                child.name.clone()
            } else {
                let mut next = path.to_owned();
                next.append(".");
                next.append(child.name.as_str());
                next
            };
            proof {
                assert(next@ =~= child_path(path@, child.name@));
                assert(decreases_to!(*node => node.children@[k as int]));
            }
            search_in(child, next.as_str(), tgt, out);
            k = k + 1;
        }
        proof {
            assert(forest_leaf_paths(node.children@, nc as int, path@)
                =~= Seq::<Seq<char>>::empty());
            assert(Seq::<Seq<char>>::empty().filter(|p: Seq<char>| spec_contains(p, tgt@))
                =~= Seq::<Seq<char>>::empty()) by {
                reveal_with_fuel(Seq::<_>::filter, 1);
            }
            assert(out.deep_view() =~= old(out).deep_view() + matched_paths(*node, path@, tgt@));
        }
    }
}

/// Search the whole namespace for leaf registers whose dotted path contains
/// `tgt`.  Returns the first `max` matching paths in traversal order together
/// with the total number of matches; no match at all is the distinct
/// "not found" outcome, and an empty map cannot be searched.
pub fn search_tree(map: &RegMap, max: u32, tgt: &str) -> (r: Result<(Vec<String>, usize), TfError>)
    ensures
        map.root is None ==> (r matches Err(e) && e matches TfError::NotFound(m) && m@ == "."@),
        map.root matches Some(root) ==> {
            let all = matched_paths(root, "."@, tgt@);
            &&& all.len() == 0 ==> (r matches Err(e) && e matches TfError::NotFound(m) && m@
                == "not found"@)
            &&& all.len() > 0 ==> (r matches Ok(p) && p.1 == all.len() && p.0.deep_view() == (
            if max as int <= all.len() as int {
                all.take(max as int)
            } else {
                all
            }))
        },
{
    let root = match &map.root {
        Some(root) => root,
        None => {
            return Err(TfError::NotFound(".".to_owned()));
        },
    };
    let mut all: Vec<String> = Vec::new();
    search_in(root, ".", tgt, &mut all);
    proof {
        assert(all.deep_view() =~= matched_paths(*root, "."@, tgt@));
    }
    let total = all.len();
    if total == 0 {
        return Err(TfError::NotFound("not found".to_owned()));
    }
    let ghost allv = matched_paths(*root, "."@, tgt@);
    let mut shown = all;
    if (max as usize) < shown.len() {
        shown.truncate(max as usize);
        proof {
            assert(shown.deep_view() =~= allv.take(max as int));
        }
    }
    Ok((shown, total))
}

/// The names of a node's immediate children, in declaration order.
pub fn get_children(node: &Node) -> (r: Vec<String>)
    ensures
        r.deep_view() == node.children@.map_values(|c: Node| c.name@),
{
    let mut r: Vec<String> = Vec::new();
    let mut k: usize = 0;
    while k < node.children.len()
        invariant
            k <= node.children@.len(),
            r.deep_view() =~= node.children@.subrange(0, k as int).map_values(|c: Node| c.name@),
        decreases node.children@.len() - k,
    {
        r.push(node.children[k].name.clone());
        proof {
            assert(node.children@.subrange(0, k as int + 1).map_values(|c: Node| c.name@)
                =~= node.children@.subrange(0, k as int).map_values(|c: Node| c.name@).push(
                node.children@[k as int].name@,
            ));
        }
        k = k + 1;
    }
    proof {
        assert(node.children@.subrange(0, node.children@.len() as int) =~= node.children@);
    }
    r
}

} // verus!
