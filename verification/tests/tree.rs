use tftool::errors::TfError;
use tftool::regmap::{get_children, search_tree, Node, RegMap};

fn leaf(name: &str, offset: u32, size: u32) -> Node {
    Node { name: name.to_string(), offset, size, children: vec![] }
}

fn branch(name: &str, children: Vec<Node>) -> Node {
    Node { name: name.to_string(), offset: 0, size: 0, children }
}

fn sample_tree() -> RegMap {
    RegMap::from_root(branch(
        "",
        vec![
            branch(
                "pipes",
                vec![
                    branch("0", vec![leaf("mau_scratch", 0x100, 8)]),
                    branch("1", vec![leaf("mau_scratch", 0x200, 4)]),
                ],
            ),
            leaf("scratch", 0x40, 4),
            leaf("_hidden", 0x50, 4),
        ],
    ))
}

#[test]
fn test_get_offset_resolves_dotted_paths() {
    let map = sample_tree();
    assert_eq!(map.get_offset("pipes.0.mau_scratch").unwrap(), 0x100);
    assert_eq!(map.get_offset("pipes.1.mau_scratch").unwrap(), 0x200);
    assert_eq!(map.get_offset("scratch").unwrap(), 0x40);
}

#[test]
fn test_leading_dot_is_root_marker() {
    let map = sample_tree();
    assert_eq!(map.get_offset(".pipes.1.mau_scratch").unwrap(), 0x200);
    // "." names the root itself
    let root = map.get_node(".").unwrap();
    assert_eq!(root.children.len(), 3);
}

#[test]
fn test_get_node_reports_not_found() {
    let map = sample_tree();
    assert!(matches!(map.get_node("pipes.2"), Err(TfError::NotFound(m)) if m == "pipes.2"));
    assert!(matches!(map.get_node("nowhere"), Err(TfError::NotFound(_))));
    assert!(matches!(map.get_node("pipes.0.mau_scratch.deeper"), Err(TfError::NotFound(_))));
}

#[test]
fn test_empty_map_resolves_nothing() {
    let map = RegMap::new();
    assert!(matches!(map.get_node("."), Err(TfError::NotFound(_))));
    assert!(matches!(map.get_offset("scratch"), Err(TfError::NotFound(_))));
}

#[test]
fn test_get_children_in_declaration_order() {
    let map = sample_tree();
    let root = map.get_node(".").unwrap();
    let names = get_children(root);
    assert_eq!(names, vec!["pipes".to_string(), "scratch".to_string(), "_hidden".to_string()]);
    let l = map.get_node("pipes.0.mau_scratch").unwrap();
    assert!(get_children(l).is_empty());
}

#[test]
fn test_search_finds_matches_in_traversal_order() {
    let map = sample_tree();
    let (shown, total) = search_tree(&map, 10, "mau_scratch").unwrap();
    assert_eq!(total, 2);
    assert_eq!(
        shown,
        vec!["pipes.0.mau_scratch".to_string(), "pipes.1.mau_scratch".to_string()]
    );
}

#[test]
fn test_search_total_counts_past_max() {
    let map = sample_tree();
    let (shown, total) = search_tree(&map, 1, "mau_scratch").unwrap();
    // only one match is shown, but the total is the true count
    assert_eq!(total, 2);
    assert_eq!(shown, vec!["pipes.0.mau_scratch".to_string()]);
}

#[test]
fn test_search_no_match_is_distinct_outcome() {
    let map = sample_tree();
    assert!(matches!(search_tree(&map, 10, "zzz"), Err(TfError::NotFound(m)) if m == "not found"));
}

#[test]
fn test_search_empty_map_fails_on_root() {
    let map = RegMap::new();
    assert!(matches!(search_tree(&map, 10, "x"), Err(TfError::NotFound(m)) if m == "."));
}

#[test]
fn test_search_matches_on_full_dotted_path() {
    let map = sample_tree();
    // the substring spans segment boundaries of the dotted path
    let (shown, total) = search_tree(&map, 10, "pipes.1").unwrap();
    assert_eq!(total, 1);
    assert_eq!(shown, vec!["pipes.1.mau_scratch".to_string()]);
}
