use tftool::errors::TfError;
use tftool::fuse::{read_raw, ChipId, Fuse, FUSE_OFFSET, FUSE_SIZE};
use tftool::pci::Pci;

#[test]
fn test_chip() {
    let c = ChipId::from(0x08025dbb797061d4u64);
    assert_eq!(c.fab, 'T');
    assert_eq!(c.lot, 'C');
    assert_eq!(c.lotnum0, 'A');
    assert_eq!(c.lotnum1, 'K');
    assert_eq!(c.lotnum2, '7');
    assert_eq!(c.lotnum3, '7');
    assert_eq!(c.wafer, 23);
    assert_eq!(c.xsign, 0);
    assert_eq!(c.x, 2);
    assert_eq!(c.ysign, 0);
    assert_eq!(c.y, 8);
}

#[test]
fn test_try_from_slice_wrong_length() {
    assert!(matches!(
        Fuse::try_from_slice(&[0u32; 15]),
        Err(TfError::LengthMismatch(15))
    ));
    assert!(matches!(
        Fuse::try_from_slice(&[0u32; 17]),
        Err(TfError::LengthMismatch(17))
    ));
    assert!(matches!(Fuse::try_from_slice(&[]), Err(TfError::LengthMismatch(0))));
}

#[test]
fn test_try_from_slice_decodes_every_field() {
    let words: Vec<u32> = vec![
        0x52e6b438, 0xf2a74de4, 0x269e0d37, 0x6513270e, 0xa6a3a450, 0x0c5c7fd0, 0x128b2f33,
        0xd23f0824, 0x892f902b, 0x5018e811, 0xede5c187, 0x94200976, 0x0ed90475, 0xe8e25d94,
        0x81e74ef5, 0x36f675cc,
    ];
    let f = Fuse::try_from_slice(&words).unwrap();
    assert_eq!(f.device_id, 0xb438);
    assert_eq!(f.version, 0x2);
    assert_eq!(f.freq_dis, 0x1);
    assert_eq!(f.freq_bps, 0x0);
    assert_eq!(f.freq_pps, 0x3);
    assert_eq!(f.pcie_dis, 0x1);
    assert_eq!(f.cpu_speed_dis, 0x1);
    assert_eq!(f.speed_dis, 0xd3c1a6fe54e9bc8a);
    assert_eq!(f.port_dis, 0xca264e1c4);
    assert_eq!(f.pipe_dis, 0xa);
    assert_eq!(f.pipe0_mau_dis, 0xd4748);
    assert_eq!(f.pipe1_mau_dis, 0x7fd0a);
    assert_eq!(f.pipe2_mau_dis, 0x19862e);
    assert_eq!(f.pipe3_mau_dis, 0xa2cbc);
    assert_eq!(f.tm_mem_dis, 0x47e10482);
    assert_eq!(f.bsync_dis, 0x0);
    assert_eq!(f.pgen_dis, 0x1);
    assert_eq!(f.resub_dis, 0x0);
    assert_eq!(f.voltage_scaling, 0xaf);
    assert_eq!(f.rsvd_22, 0x224be4);
    assert_eq!(f.part_num, 0x2811);
    assert_eq!(f.rev_num, 0x63);
    assert_eq!(f.pkg_id, 0x0);
    assert_eq!(f.silent_spin, 0x0);
    assert_eq!(f.chip_id, 0x8025dbb797061d4);
    assert_eq!(f.pmro_and_skew, 0xaca);
    assert_eq!(f.wf_core_repair, 0x1);
    assert_eq!(f.core_repair, 0x1);
    assert_eq!(f.tile_repair, 0x0);
    assert_eq!(f.freq_bps_2, 0x4);
    assert_eq!(f.freq_pps_2, 0x0);
    assert_eq!(f.die_rotation, 0x1);
    assert_eq!(f.soft_pipe_dis, 0xc);
    // the chip id sub-decode of this blob is the published fixture
    let c = ChipId::from(f.chip_id);
    assert_eq!(c.fab, 'T');
    assert_eq!(c.wafer, 23);
}

#[test]
fn test_read_raw_from_window() {
    let base = (FUSE_OFFSET / 4) as usize;
    let mut words = vec![0u32; base + FUSE_SIZE as usize];
    for i in 0..FUSE_SIZE as usize {
        words[base + i] = 0x1000 + i as u32;
    }
    let pci = Pci::new(words);
    let raw = read_raw(&pci).unwrap();
    assert_eq!(raw.len(), 16);
    for (i, w) in raw.iter().enumerate() {
        assert_eq!(*w, 0x1000 + i as u32);
    }
}

#[test]
fn test_read_raw_window_too_short() {
    // a window that ends before the fuse block
    let pci = Pci::new(vec![0u32; 16]);
    assert!(matches!(read_raw(&pci), Err(TfError::Bounds(o)) if o == FUSE_OFFSET as u64));
    // a window that ends inside the fuse block
    let base = (FUSE_OFFSET / 4) as usize;
    let pci = Pci::new(vec![0u32; base + 4]);
    let end = (FUSE_OFFSET + 16) as u64;
    assert!(matches!(read_raw(&pci), Err(TfError::Bounds(o)) if o == end));
}

#[test]
fn test_fuse_read_through_window() {
    let base = (FUSE_OFFSET / 4) as usize;
    let mut words = vec![0u32; base + FUSE_SIZE as usize];
    words[base] = 0xb438; // device_id in the low 16 bits of the first word
    let pci = Pci::new(words);
    let f = Fuse::read(&pci).unwrap();
    assert_eq!(f.device_id, 0xb438);
    assert_eq!(f.version, 0);
}
