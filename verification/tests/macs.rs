use tftool::accessor::Tofino;
use tftool::errors::TfError;
use tftool::mac::{
    all_eth400g_status, eth100g_status, eth400g_status, mac_selector, MacSelector,
};
use tftool::pci::Pci;
use tftool::regmap::{Node, RegMap};

fn leaf(name: &str, offset: u32) -> Node {
    Node { name: name.to_string(), offset, size: 4, children: vec![] }
}

fn branch(name: &str, children: Vec<Node>) -> Node {
    Node { name: name.to_string(), offset: 0, size: 0, children }
}

#[test]
fn test_mac_selector() {
    assert_eq!(mac_selector(None).unwrap(), MacSelector::All);
    assert_eq!(mac_selector(Some("aux")).unwrap(), MacSelector::Aux);
    assert_eq!(mac_selector(Some("AUX")).unwrap(), MacSelector::Aux);
    assert_eq!(mac_selector(Some("cpu")).unwrap(), MacSelector::Aux);
    assert_eq!(mac_selector(Some("Cpu")).unwrap(), MacSelector::Aux);
    assert_eq!(mac_selector(Some("7")).unwrap(), MacSelector::One(7));
    assert_eq!(mac_selector(Some("32")).unwrap(), MacSelector::One(32));
    assert!(matches!(
        mac_selector(Some("bogus")),
        Err(TfError::BadIdentifier(m)) if m == "bogus"
    ));
    assert!(matches!(mac_selector(Some("")), Err(TfError::BadIdentifier(_))));
}

#[test]
fn test_eth100g_status_decodes_channels() {
    let map = RegMap::from_root(branch(
        "",
        vec![branch(
            "eth100g_regs",
            vec![branch("eth100g_reg", vec![leaf("eth_status", 8)])],
        )],
    ));
    let mut words = vec![0u32; 4];
    words[2] = 0xabcd;
    let c = Tofino::new(map, Pci::new(words));
    let s = eth100g_status(&c).unwrap();
    assert_eq!(s.macsts_sigok, 0xd);
    assert_eq!(s.macsts_txidle, 0xc);
    assert_eq!(s.macsts_rxidle, 0xb);
    assert_eq!(s.macsts_txgood, 0xa);
}

#[test]
fn test_eth100g_status_needs_the_register() {
    let c = Tofino::new(RegMap::new(), Pci::new(vec![0; 4]));
    assert!(matches!(eth100g_status(&c), Err(TfError::NotFound(_))));
}

/// A tree holding both status registers of the given MACs, each MAC's two
/// words at offsets 8*mac and 8*mac+4.
fn mac_tree(macs: &[u32]) -> RegMap {
    let mut top: Vec<Node> = Vec::new();
    for &m in macs {
        top.push(branch(
            &format!("eth400g_p{}", m),
            vec![branch(
                "eth400g_mac",
                vec![leaf("eth_status0", 8 * m), leaf("eth_status1", 8 * m + 4)],
            )],
        ));
    }
    RegMap::from_root(branch("", top))
}

#[test]
fn test_eth400g_status_decodes_both_words() {
    let map = mac_tree(&[7]);
    let mut words = vec![0u32; 80];
    words[(8 * 7 / 4) as usize] = 0x89ab_cdef;
    words[(8 * 7 / 4) as usize + 1] = 0x0123_4567;
    let c = Tofino::new(map, Pci::new(words));
    let s = eth400g_status(&c, 7).unwrap();
    assert_eq!(s.macsts_lfault, 0xef);
    assert_eq!(s.macsts_rfault, 0xcd);
    assert_eq!(s.macsts_ofault, 0xab);
    assert_eq!(s.macsts_linkup, 0x89);
    assert_eq!(s.macsts_sigok, 0x67);
    assert_eq!(s.macsts_txidle, 0x45);
    assert_eq!(s.macsts_rxidle, 0x23);
    assert_eq!(s.macsts_txgood, 0x01);
}

#[test]
fn test_eth400g_status_unknown_mac() {
    let map = mac_tree(&[1]);
    let c = Tofino::new(map, Pci::new(vec![0; 8]));
    assert!(matches!(eth400g_status(&c, 2), Err(TfError::NotFound(m)) if m.contains("eth400g_p2")));
}

#[test]
fn test_all_eth400g_status_covers_macs_1_through_32() {
    let macs: Vec<u32> = (1..=32).collect();
    let map = mac_tree(&macs);
    let words = vec![0u32; (8 * 33) / 4 + 2];
    let c = Tofino::new(map, Pci::new(words));
    let all = all_eth400g_status(&c).unwrap();
    // the documented range is 1 through 32 inclusive
    assert_eq!(all.len(), 32);
    assert_eq!(all.first().unwrap().0, 1);
    assert_eq!(all.last().unwrap().0, 32);
}

#[test]
fn test_all_eth400g_status_fails_on_first_unreadable_mac() {
    // MAC 5 is missing from the tree
    let macs: Vec<u32> = (1..=32).filter(|&m| m != 5).collect();
    let map = mac_tree(&macs);
    let words = vec![0u32; (8 * 33) / 4 + 2];
    let c = Tofino::new(map, Pci::new(words));
    assert!(matches!(
        all_eth400g_status(&c),
        Err(TfError::NotFound(m)) if m.contains("eth400g_p5")
    ));
}
