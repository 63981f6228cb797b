use kunai::model::{MemoryMap, SearchLocation};
use kunai::search::{find_occurrences, MemorySearch, ScanRequest};

fn region(start: usize, end: usize, search: bool) -> MemoryMap {
    let mut m = MemoryMap::new();
    m.start = start;
    m.end = end;
    m.should_search = search;
    m
}

/// Runs a scan against memory that `read` stands for.
fn run(scan: &mut MemorySearch, read: &dyn Fn(usize, usize) -> Option<Vec<u8>>) -> Vec<ScanRequest> {
    let mut asked = Vec::new();
    loop {
        let req = scan.request();
        asked.push(req);
        match req {
            ScanRequest::ReadRegion { start, len } => scan.region_read(read(start, len)),
            ScanRequest::ReadValue { addr, len } => scan.value_read(read(addr, len)),
            ScanRequest::Finished => return asked,
        }
    }
}

#[test]
fn finds_non_overlapping_occurrences_in_order() {
    assert_eq!(find_occurrences(b"ABCXYZABC", b"ABC"), vec![0, 6]);
    assert_eq!(find_occurrences(b"aaaa", b"aa"), vec![0, 2]);
    assert_eq!(find_occurrences(b"abc", b""), Vec::<usize>::new());
    assert_eq!(find_occurrences(b"ab", b"abc"), Vec::<usize>::new());
}

#[test]
fn scan_reports_absolute_locations_per_region() {
    let maps = vec![region(0x100, 0x109, true), region(0x200, 0x204, false), region(0x300, 0x303, true)];
    let mut scan = MemorySearch::new(&maps, b"ABC");
    let mem = |addr: usize, len: usize| -> Option<Vec<u8>> {
        let data: &[u8] = if (0x100..0x109).contains(&addr) {
            &b"ABCXYZABC"[addr - 0x100..]
        } else if (0x300..0x303).contains(&addr) {
            &b"ABC"[addr - 0x300..]
        } else {
            return None;
        };
        data.get(..len).map(|d| d.to_vec())
    };
    let asked = run(&mut scan, &mem);
    assert_eq!(asked[0], ScanRequest::ReadRegion { start: 0x100, len: 9 });
    assert_eq!(asked[1], ScanRequest::ReadValue { addr: 0x100, len: 3 });
    assert_eq!(asked[2], ScanRequest::ReadValue { addr: 0x106, len: 3 });
    assert_eq!(asked[3], ScanRequest::ReadRegion { start: 0x300, len: 3 });
    let found: Vec<(usize, usize, usize)> = scan.found.iter().map(|l| (l.start, l.end, l.region)).collect();
    assert_eq!(found, vec![(0x100, 0x103, 0), (0x106, 0x109, 0), (0x300, 0x303, 2)]);
    assert_eq!(scan.found[0].value, "ABC");
    assert_eq!(scan.found[0].raw, b"ABC".to_vec());
}

#[test]
fn unreadable_region_and_failed_reread_are_skipped() {
    let maps = vec![region(0x100, 0x104, true), region(0x200, 0x208, true)];
    let mut scan = MemorySearch::new(&maps, b"ok");
    let mem = |addr: usize, len: usize| -> Option<Vec<u8>> {
        match (addr, len) {
            (0x200, 8) => Some(b"ok..ok..".to_vec()),
            (0x200, 2) => Some(b"ok".to_vec()),
            _ => None,
        }
    };
    run(&mut scan, &mem);
    assert_eq!(scan.found.len(), 1);
    assert_eq!(scan.found[0].start, 0x200);
    assert_eq!(scan.found[0].region, 1);
}

#[test]
fn short_region_read_skips_region() {
    let maps = vec![region(0x100, 0x104, true)];
    let mut scan = MemorySearch::new(&maps, b"a");
    scan.region_read(Some(b"aa".to_vec()));
    assert!(scan.is_finished());
    assert!(scan.found.is_empty());
}

#[test]
fn empty_pattern_reads_nothing() {
    let maps = vec![region(0x100, 0x104, true)];
    let scan = MemorySearch::new(&maps, b"");
    assert_eq!(scan.request(), ScanRequest::Finished);
}

#[test]
fn reread_value_is_decoded_for_display() {
    let maps = vec![region(0x10, 0x12, true)];
    let mut scan = MemorySearch::new(&maps, b"\x00\xff");
    scan.region_read(Some(b"\x00\xff".to_vec()));
    scan.value_read(Some(b"\x7f\xff".to_vec()));
    assert_eq!(scan.found[0].value, "DEL\0");
    assert_eq!(scan.found[0].raw, b"\x7f\xff".to_vec());
}

#[test]
fn blank_location_record() {
    let l = SearchLocation::new();
    assert_eq!((l.start, l.end, l.region), (0, 0, 0));
    assert!(l.value.is_empty() && l.raw.is_empty());
}
