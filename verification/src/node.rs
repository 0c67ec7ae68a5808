//! The discovered ASIC device node, and the test that recognises one.
//!
//! Walking the host's device tree is platform work that stays outside this
//! crate; what comes back is a plain record.  The name test and the device
//! path built from the instance number are ordinary logic and live here.

use vstd::prelude::*;
use vstd::string::{StrSliceExecFns, StringExecFns};
use crate::errors::TfError;
use crate::numstr::{i32_to_dec, spec_i32_dec};
use crate::strutil::{digits_val, find_ch, lemma_find_ch, find_char, parse_hex32, parse_ok, str_eq_str};

verus! {

/// A device-tree node that may represent the ASIC.
#[derive(Clone, Debug, PartialEq)]
pub struct TofinoNode {
    /// The node's name in the device tree.
    pub name: String,
    /// The bound driver, if one is attached.
    pub driver: Option<String>,
    /// The driver instance number, if the ASIC is attached.
    pub instance: Option<i32>,
    /// The node's path in the device filesystem.
    pub devfs_path: String,
}

impl TofinoNode {
    /// The device-file path of the attached ASIC, built from the instance
    /// number; without an instance there is no device.
    pub fn device_path(&self) -> (r: Result<String, TfError>)
        ensures
            self.instance matches Some(i) ==> (r matches Ok(p) && p@ == "/dev/tofino/"@
                + spec_i32_dec(i as int)),
            self.instance is None ==> (r matches Err(e) && e matches TfError::NotFound(m) && m@
                == "no tofino present"@),
    {
        match self.instance {
            Some(i) => {
                let mut p = "/dev/tofino/".to_owned();
                p.append(i32_to_dec(i).as_str());
                Ok(p)
            },
            None => Err(TfError::NotFound("no tofino present".to_owned())),
        }
    }

    /// Whether a driver is bound to the node.
    pub fn has_driver(&self) -> (r: bool)
        ensures
            r == (self.driver is Some),
    {
        self.driver.is_some()
    }

    /// Whether the ASIC is attached (an instance number exists).
    pub fn has_asic(&self) -> (r: bool)
        ensures
            r == (self.instance is Some),
    {
        self.instance.is_some()
    }
}

/// A supported subsystem device id.
pub open spec fn is_supported_id(v: int) -> bool {
    v == 0x0001  // TF1_A0
    || v == 0x0010  // TF1_B0
    || v == 0x0100  // TF2_A0
    || v == 0x0000  // TF2_A00
    || v == 0x0110  // TF2_B0
}

/// Whether a device-tree node name denotes a supported ASIC: `pci`, then the
/// subsystem vendor id and device id in hexadecimal, separated by a comma.
pub open spec fn spec_is_tofino_node_name(s: Seq<char>) -> bool {
    if s.len() < 3 || s.subrange(0, 3) != "pci"@ {
        false
    } else {
        let rest = s.skip(3);
        let d = find_ch(rest, ',', 0);
        if d >= rest.len() {
            false
        } else {
            let vid = rest.subrange(0, d);
            let idp = rest.skip(d + 1);
            &&& parse_ok(vid, 16)
            &&& digits_val(vid, 16) == 0x1d1c
            &&& parse_ok(idp, 16)
            &&& is_supported_id(digits_val(idp, 16))
        }
    }
}

/// Decide whether a device-tree node name represents a supported ASIC.
pub fn is_tofino_node_name(name: &str) -> (r: bool)
    ensures
        r == spec_is_tofino_node_name(name@),
{
    let n = name.unicode_len();
    if n < 3 {
        return false;
    }
    let prefix = name.substring_char(0, 3);
    if !str_eq_str(prefix, "pci") {
        return false;
    }
    let rest = name.substring_char(3, n);
    let ghost restv = name@.skip(3);
    proof {
        assert(rest@ =~= restv);
    }
    let rest_len = rest.unicode_len();
    let d = find_char(rest, ',', 0);
    proof {
        lemma_find_ch(rest@, ',', 0);
    }
    if d >= rest_len {
        return false;
    }
    let vid_str = rest.substring_char(0, d);
    let id_str = rest.substring_char(d + 1, rest_len);
    let ghost vidv = restv.subrange(0, d as int);
    let ghost idv = restv.skip(d as int + 1);
    proof {
        assert(vid_str@ =~= vidv);
        assert(id_str@ =~= idv);
    }
    let vid = match parse_hex32(vid_str) {
        Some(v) => v,
        None => {
            return false;
        },
    };
    let id = match parse_hex32(id_str) {
        Some(v) => v,
        None => {
            return false;
        },
    };
    proof {
        crate::strutil::lemma_digits_val_nonneg(vidv, 16);
        crate::strutil::lemma_digits_val_nonneg(idv, 16);
    }
    vid == 0x1d1c && (id == 0x0001 || id == 0x0010 || id == 0x0100 || id == 0x0000 || id == 0x0110)
}

} // verus!
