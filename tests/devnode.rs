use simple_init_boot::devnode::{
    block_device_node, default_node, file_is_chardev, parse_decimal, parse_dev_numbers,
    NodeCandidate, NodeError, NodeMeta,
};

const BLK: u32 = 0o60000;
const CHR: u32 = 0o20000;
const REG: u32 = 0o100000;

fn meta(mode: u32, major: u64, minor: u64) -> Option<NodeMeta> {
    Some(NodeMeta { mode, rdev: (major << 8) | minor })
}

#[test]
fn decimal_parsing() {
    assert_eq!(parse_decimal("0"), Some(0));
    assert_eq!(parse_decimal("259"), Some(259));
    assert_eq!(parse_decimal("18446744073709551615"), Some(u64::MAX));
    assert_eq!(parse_decimal("18446744073709551616"), None);
    assert_eq!(parse_decimal(""), None);
    assert_eq!(parse_decimal("8a"), None);
    assert_eq!(parse_decimal(" 8"), None);
    assert_eq!(parse_decimal("+8"), Some(8));
    assert_eq!(parse_decimal("+"), None);
    assert_eq!(parse_decimal("++8"), None);
    assert_eq!(parse_decimal("-8"), None);
}

#[test]
fn dev_numbers_split_at_colon() {
    assert_eq!(parse_dev_numbers("8:1"), Ok((8, 1)));
    assert_eq!(parse_dev_numbers("259:0"), Ok((259, 0)));
    assert_eq!(parse_dev_numbers("81"), Err(NodeError::NoSeparator));
    assert_eq!(parse_dev_numbers("8:x"), Err(NodeError::BadNumber));
    assert_eq!(parse_dev_numbers("8:1:2"), Err(NodeError::BadNumber));
    assert_eq!(parse_dev_numbers(":1"), Err(NodeError::BadNumber));
    assert_eq!(parse_dev_numbers("+8:16"), Ok((8, 16)));
}

#[test]
fn chardev_matching() {
    assert!(file_is_chardev(&meta(BLK | 0o660, 8, 1), 8, 1));
    assert!(file_is_chardev(&meta(CHR | 0o600, 4, 64), 4, 64));
    assert!(!file_is_chardev(&meta(REG | 0o644, 8, 1), 8, 1));
    assert!(!file_is_chardev(&meta(BLK, 8, 2), 8, 1));
    assert!(!file_is_chardev(&meta(BLK, 9, 1), 8, 1));
    assert!(!file_is_chardev(&None, 8, 1));
    // directories, sockets and fifos carry device ids but are not device nodes
    assert!(!file_is_chardev(&meta(0o40000 | 0o755, 0, 0), 0, 0));
    assert!(!file_is_chardev(&meta(0o140000, 8, 1), 8, 1));
    assert!(!file_is_chardev(&meta(0o10000, 8, 1), 8, 1));
}

#[test]
fn chardev_uses_large_device_numbers() {
    // major 300, minor 70000 in the Linux dev_t layout
    let major: u64 = 300;
    let minor: u64 = 70000;
    let rdev = ((major & 0xffff_f000) << 32)
        | ((major & 0x0000_0fff) << 8)
        | ((minor & 0xffff_ff00) << 12)
        | (minor & 0x0000_00ff);
    assert!(file_is_chardev(&Some(NodeMeta { mode: BLK, rdev }), major, minor));
    assert!(!file_is_chardev(&Some(NodeMeta { mode: BLK, rdev }), major, minor & 0xff));
}

#[test]
fn node_prefers_conventional_path() {
    let cands = vec![NodeCandidate { path: "/dev/disk0".to_string(), meta: meta(BLK, 8, 1) }];
    let r = block_device_node("sda1", &Some("8:1".to_string()), &meta(BLK, 8, 1), &cands);
    assert_eq!(r, Ok("/dev/sda1".to_string()));
    assert_eq!(default_node("sda1"), "/dev/sda1".to_string());
}

#[test]
fn node_falls_back_to_first_match() {
    let cands = vec![
        NodeCandidate { path: "/dev/null".to_string(), meta: meta(CHR, 1, 3) },
        NodeCandidate { path: "/dev/other".to_string(), meta: meta(BLK, 8, 1) },
        NodeCandidate { path: "/dev/third".to_string(), meta: meta(BLK, 8, 1) },
    ];
    let r = block_device_node("sda1", &Some("8:1".to_string()), &None, &cands);
    assert_eq!(r, Ok("/dev/other".to_string()));
}

#[test]
fn node_errors() {
    let cands = vec![NodeCandidate { path: "/dev/null".to_string(), meta: meta(CHR, 1, 3) }];
    assert_eq!(block_device_node("sda1", &None, &None, &cands), Err(NodeError::MissingDevInfo));
    assert_eq!(
        block_device_node("sda1", &Some("garbage".to_string()), &None, &cands),
        Err(NodeError::NoSeparator)
    );
    assert_eq!(
        block_device_node("sda1", &Some("8:one".to_string()), &None, &cands),
        Err(NodeError::BadNumber)
    );
    assert_eq!(
        block_device_node("sda1", &Some("8:1".to_string()), &meta(REG, 8, 1), &cands),
        Err(NodeError::NotFound)
    );
}
