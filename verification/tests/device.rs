use tftool::errors::TfError;
use tftool::node::{is_tofino_node_name, TofinoNode};
use tftool::numstr::{i32_to_dec, u32_to_dec};

fn node(driver: Option<&str>, instance: Option<i32>) -> TofinoNode {
    TofinoNode {
        name: "pci1d1c,0010".to_string(),
        driver: driver.map(|d| d.to_string()),
        instance,
        devfs_path: "/devices/pci0".to_string(),
    }
}

#[test]
fn test_is_tofino_node_name_supported_ids() {
    assert!(is_tofino_node_name("pci1d1c,1"));
    assert!(is_tofino_node_name("pci1d1c,10"));
    assert!(is_tofino_node_name("pci1d1c,0010"));
    assert!(is_tofino_node_name("pci1d1c,100"));
    assert!(is_tofino_node_name("pci1d1c,0"));
    assert!(is_tofino_node_name("pci1d1c,110"));
}

#[test]
fn test_is_tofino_node_name_rejects_others() {
    assert!(!is_tofino_node_name("pci1d1c,0011")); // unsupported id
    assert!(!is_tofino_node_name("pci1d1d,0010")); // wrong vendor
    assert!(!is_tofino_node_name("pci1d1c")); // no comma
    assert!(!is_tofino_node_name("pci1d1c,")); // empty id
    assert!(!is_tofino_node_name("pcix,1")); // bad vendor digits
    assert!(!is_tofino_node_name("foo"));
    assert!(!is_tofino_node_name(""));
    assert!(!is_tofino_node_name("PCI1d1c,0010")); // prefix is case-sensitive
}

#[test]
fn test_device_path_from_instance() {
    assert_eq!(node(None, Some(3)).device_path().unwrap(), "/dev/tofino/3");
    assert_eq!(node(None, Some(0)).device_path().unwrap(), "/dev/tofino/0");
    assert_eq!(node(None, Some(-2)).device_path().unwrap(), "/dev/tofino/-2");
}

#[test]
fn test_device_path_without_instance() {
    assert!(matches!(
        node(None, None).device_path(),
        Err(TfError::NotFound(m)) if m == "no tofino present"
    ));
}

#[test]
fn test_has_driver_and_has_asic() {
    assert!(node(Some("tofino"), Some(1)).has_driver());
    assert!(node(Some("tofino"), Some(1)).has_asic());
    assert!(!node(None, Some(1)).has_driver());
    assert!(!node(Some("tofino"), None).has_asic());
}

#[test]
fn test_decimal_rendering() {
    assert_eq!(u32_to_dec(0), "0");
    assert_eq!(u32_to_dec(7), "7");
    assert_eq!(u32_to_dec(1234), "1234");
    assert_eq!(u32_to_dec(u32::MAX), "4294967295");
    assert_eq!(i32_to_dec(-1), "-1");
    assert_eq!(i32_to_dec(i32::MIN), "-2147483648");
    assert_eq!(i32_to_dec(42), "42");
}
