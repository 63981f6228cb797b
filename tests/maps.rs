use kunai::maps::{parse_hex_usize, parse_map_line, parse_map_table};
use kunai::model::{MemoryMap, TaskMemory};

#[test]
fn parses_a_full_line() {
    let m = parse_map_line(b"7ffffe15a000-7ffffe17c000 rw-p 00000000 00:00 0       [stack]").unwrap();
    assert_eq!(m.start, 0x7ffffe15a000);
    assert_eq!(m.end, 0x7ffffe17c000);
    assert_eq!(m.perms, "rw-p");
    assert_eq!(m.name, "[stack]");
    assert!(m.should_search);
}

#[test]
fn anonymous_region_has_empty_name() {
    let m = parse_map_line(b"1000-2000 r--p 00000000 00:00 0").unwrap();
    assert_eq!(m.start, 0x1000);
    assert_eq!(m.end, 0x2000);
    assert_eq!(m.name, "");
}

#[test]
fn upper_case_hex_is_read() {
    let m = parse_map_line(b"AbC0-FFFF r-xp 0 0 0 lib").unwrap();
    assert_eq!(m.start, 0xabc0);
    assert_eq!(m.end, 0xffff);
}

#[test]
fn bad_lines_are_refused() {
    assert!(parse_map_line(b"").is_none());
    assert!(parse_map_line(b"zz-2000 rw-p 0 00:00 0 x").is_none());
    assert!(parse_map_line(b"1000 rw-p 0 00:00 0 x").is_none());
    assert!(parse_map_line(b"1000- rw-p 0 00:00 0 x").is_none());
    assert!(parse_map_line(b"1000-2000 rw-p 0 00:00").is_none());
    assert!(parse_map_line(b"2000-1000 rw-p 0 00:00 0 x").is_none());
    assert!(parse_map_line(b"1000-1000 rw-p 0 00:00 0 x").is_none());
    assert!(parse_map_line(b"1000-2000-3000 rw-p 0 00:00 0 x").is_none());
    assert!(parse_map_line(b"1000-2000 rw-p 0 00:00 0 \xff\xfe").is_none());
}

#[test]
fn hex_overflow_is_refused() {
    assert_eq!(parse_hex_usize(b"ff"), Some(255));
    assert_eq!(parse_hex_usize(b""), None);
    assert_eq!(parse_hex_usize(b"+1"), None);
    let too_long = "1".repeat(40);
    assert_eq!(parse_hex_usize(too_long.as_bytes()), None);
}

#[test]
fn valid_lines_kept_in_order_wherever_bad_ones_stand() {
    let text = b"garbage\n1000-2000 rw-p 0 00:00 0 a\n\nxyz-1 r 0 0 0\n3000-4000 r--p 0 00:00 0 b\r\nshort-line\n5000-6000 rwxp 0 00:00 0";
    let maps = parse_map_table(text);
    assert_eq!(maps.len(), 3);
    assert_eq!((maps[0].start, maps[0].end, maps[0].name.as_str()), (0x1000, 0x2000, "a"));
    assert_eq!((maps[1].start, maps[1].end, maps[1].name.as_str()), (0x3000, 0x4000, "b"));
    assert_eq!((maps[2].start, maps[2].end, maps[2].name.as_str()), (0x5000, 0x6000, ""));
    for m in &maps {
        assert!(m.start < m.end);
    }
}

#[test]
fn populate_info_replaces_or_empties() {
    let mut mem = TaskMemory::new();
    mem.populate_info(Some(b"1000-2000 rw-p 0 00:00 0 heap\n"));
    assert_eq!(mem.maps.len(), 1);
    assert_eq!(mem.maps[0].name, "heap");
    mem.populate_info(None);
    assert!(mem.maps.is_empty());
}

#[test]
fn blank_region_record() {
    let m = MemoryMap::new();
    assert_eq!((m.start, m.end), (0, 0));
    assert!(m.should_search);
    assert!(m.perms.is_empty() && m.name.is_empty());
}
