use tftool::accessor::{list, perf_regs, read_offset, read_register, resolve_and_read, resolve_and_write, Tofino};
use tftool::errors::TfError;
use tftool::pci::Pci;
use tftool::regmap::{Node, RegMap};
use tftool::strutil::parse_val;

fn leaf(name: &str, offset: u32, size: u32) -> Node {
    Node { name: name.to_string(), offset, size, children: vec![] }
}

fn branch(name: &str, children: Vec<Node>) -> Node {
    Node { name: name.to_string(), offset: 0, size: 0, children }
}

fn ctx() -> Tofino {
    let words: Vec<u32> = (0..16u32).map(|i| 0x100 + i).collect();
    let map = RegMap::from_root(branch(
        "",
        vec![
            leaf("reg8", 0x8, 8),
            leaf("reg4", 0x4, 4),
            // a register whose name is also a valid hex literal
            leaf("0x10", 0x20, 4),
            leaf("_hidden", 0x0, 4),
        ],
    ));
    Tofino::new(map, Pci::new(words))
}

#[test]
fn test_parse_val_hex_and_decimal() {
    assert_eq!(parse_val("0x10").unwrap(), 16);
    assert_eq!(parse_val("0xabCD").unwrap(), 0xabcd);
    assert_eq!(parse_val("0xFFFFFFFF").unwrap(), u32::MAX);
    assert_eq!(parse_val("255").unwrap(), 255);
    assert_eq!(parse_val("0").unwrap(), 0);
    assert_eq!(parse_val("4294967295").unwrap(), u32::MAX);
}

#[test]
fn test_parse_val_rejects_bad_literals() {
    for bad in ["", "x", "0x", "0xg7", "12ab", "-3", "4294967296", "0x100000000", " 12"] {
        assert!(matches!(parse_val(bad), Err(TfError::BadIdentifier(m)) if m == bad));
    }
}

#[test]
fn test_read_offset_consecutive_words() {
    let c = ctx();
    let v = read_offset(&c, 4, 3).unwrap();
    assert_eq!(v, vec![0x101, 0x102, 0x103]);
    assert_eq!(read_offset(&c, 0, 0).unwrap(), Vec::<u32>::new());
}

#[test]
fn test_read_offset_errors() {
    let c = ctx();
    assert!(matches!(read_offset(&c, 2, 1), Err(TfError::Alignment(2))));
    // the first failing word of a run that starts inside the window
    assert!(matches!(read_offset(&c, 56, 3), Err(TfError::Bounds(64))));
    assert!(matches!(read_offset(&c, 100, 1), Err(TfError::Bounds(100))));
}

#[test]
fn test_read_register_by_name() {
    let c = ctx();
    assert_eq!(read_register(&c, "reg4", 1).unwrap(), vec![0x101]);
    assert!(matches!(read_register(&c, "nope", 1), Err(TfError::NotFound(m)) if m == "nope"));
}

#[test]
fn test_resolve_and_read_literal_defaults_to_one_word() {
    let c = ctx();
    let (off, v) = resolve_and_read(&c, "12", None).unwrap();
    assert_eq!(off, 12);
    assert_eq!(v, vec![0x103]);
}

#[test]
fn test_resolve_and_read_name_defaults_to_node_size() {
    let c = ctx();
    // reg8 declares 8 bytes, so the default count is two words
    let (off, v) = resolve_and_read(&c, "reg8", None).unwrap();
    assert_eq!(off, 8);
    assert_eq!(v, vec![0x102, 0x103]);
    // an explicit count overrides the declared size
    let (_, v) = resolve_and_read(&c, "reg8", Some(1)).unwrap();
    assert_eq!(v, vec![0x102]);
}

#[test]
fn test_resolve_precedence_literal_wins() {
    let c = ctx();
    // "0x10" is both a valid literal and a register name; the literal wins
    let (off, v) = resolve_and_read(&c, "0x10", None).unwrap();
    assert_eq!(off, 0x10);
    assert_eq!(v, vec![0x104]);
}

#[test]
fn test_resolve_and_read_bad_identifier() {
    let c = ctx();
    assert!(matches!(
        resolve_and_read(&c, "bogus", None),
        Err(TfError::BadIdentifier(m)) if m == "bogus"
    ));
}

#[test]
fn test_resolve_and_write_literal_and_name() {
    let mut c = ctx();
    resolve_and_write(&mut c, "0x4", "0xdead").unwrap();
    assert_eq!(c.pci.read4(4).unwrap(), 0xdead);
    resolve_and_write(&mut c, "reg8", "77").unwrap();
    assert_eq!(c.pci.read4(8).unwrap(), 77);
    // the literal interpretation wins for the ambiguous identifier
    resolve_and_write(&mut c, "0x10", "5").unwrap();
    assert_eq!(c.pci.read4(0x10).unwrap(), 5);
    assert_eq!(c.pci.read4(0x20).unwrap(), 0x108);
}

#[test]
fn test_resolve_and_write_rejects_bad_inputs() {
    let mut c = ctx();
    assert!(matches!(
        resolve_and_write(&mut c, "bogus", "1"),
        Err(TfError::BadIdentifier(m)) if m == "bogus"
    ));
    assert!(matches!(
        resolve_and_write(&mut c, "reg4", "notanumber"),
        Err(TfError::BadIdentifier(m)) if m == "notanumber"
    ));
    // nothing was written
    assert_eq!(c.pci.read4(4).unwrap(), 0x101);
}

#[test]
fn test_list_hides_private_children() {
    let c = ctx();
    let names = list(&c, ".").unwrap();
    assert_eq!(
        names,
        vec!["reg8".to_string(), "reg4".to_string(), "0x10".to_string()]
    );
    assert!(matches!(list(&c, "nope"), Err(TfError::NotFound(_))));
}

#[test]
fn test_perf_regs_collects_only_resolvable_buses() {
    let c = ctx();
    assert!(perf_regs(&c).is_empty());
    let map = RegMap::from_root(branch(
        "",
        vec![branch(
            "pipes",
            vec![branch(
                "0",
                vec![branch(
                    "mau",
                    vec![branch("0", vec![branch("dp", vec![leaf("mau_scratch", 0x30, 4)])])],
                )],
            )],
        )],
    ));
    let c = Tofino::new(map, Pci::new(vec![0; 16]));
    assert_eq!(perf_regs(&c), vec![("pbus".to_string(), 0x30)]);
}
