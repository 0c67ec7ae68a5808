use tftool::errors::TfError;
use tftool::pci::Pci;

#[test]
fn test_read4_aligned_in_bounds() {
    let pci = Pci::new(vec![10, 20, 30, 40]);
    assert_eq!(pci.read4(0).unwrap(), 10);
    assert_eq!(pci.read4(4).unwrap(), 20);
    // the last word of the window is readable
    assert_eq!(pci.read4(12).unwrap(), 40);
}

#[test]
fn test_read4_misaligned_fails() {
    let pci = Pci::new(vec![10, 20, 30, 40]);
    for off in [1u32, 2, 3, 5, 7, 13, 15] {
        assert!(matches!(pci.read4(off), Err(TfError::Alignment(o)) if o == off));
    }
}

#[test]
fn test_read4_out_of_bounds_fails() {
    let pci = Pci::new(vec![10, 20, 30, 40]);
    assert!(matches!(pci.read4(16), Err(TfError::Bounds(16))));
    assert!(matches!(pci.read4(0x1000), Err(TfError::Bounds(0x1000))));
}

#[test]
fn test_write4_then_read4() {
    let mut pci = Pci::new(vec![0; 4]);
    pci.write4(8, 0xdead_beef).unwrap();
    assert_eq!(pci.read4(8).unwrap(), 0xdead_beef);
    assert_eq!(pci.read4(4).unwrap(), 0);
}

#[test]
fn test_write4_misaligned_never_transfers() {
    let mut pci = Pci::new(vec![1, 2, 3, 4]);
    assert!(matches!(pci.write4(6, 99), Err(TfError::Alignment(6))));
    // the window is untouched
    assert_eq!(pci.read4(0).unwrap(), 1);
    assert_eq!(pci.read4(4).unwrap(), 2);
    assert_eq!(pci.read4(8).unwrap(), 3);
    assert_eq!(pci.read4(12).unwrap(), 4);
}

#[test]
fn test_write4_out_of_bounds_never_transfers() {
    let mut pci = Pci::new(vec![1, 2]);
    assert!(matches!(pci.write4(8, 99), Err(TfError::Bounds(8))));
    assert_eq!(pci.read4(0).unwrap(), 1);
    assert_eq!(pci.read4(4).unwrap(), 2);
}

#[test]
fn test_len_bytes() {
    let pci = Pci::new(vec![0; 6]);
    assert_eq!(pci.len_bytes(), 24);
}
