use kunai::search::ScanRequest;
use kunai::session::{Command, CurrentScreen, Effect, Kunai, MemoryError, SessionState, SubScreen};
use kunai::tasks::{index_down_exec, index_up_exec, Task, TaskSelection};

fn task(pid: &str, name: &str) -> Task {
    let mut t = Task::new();
    t.pid = pid.to_string();
    t.name = name.to_string();
    t
}

fn pids(tasks: &[Task]) -> Vec<(String, String)> {
    tasks.iter().map(|t| (t.pid.clone(), t.name.clone())).collect()
}

/// Memory of a process with one region `[base, base + bytes.len())`.
struct FakeMemory {
    base: usize,
    bytes: Vec<u8>,
}

impl FakeMemory {
    fn read_exact(&self, addr: usize, len: usize) -> Option<Vec<u8>> {
        let off = addr.checked_sub(self.base)?;
        self.bytes.get(off..off + len).map(|b| b.to_vec())
    }

    fn write_exact(&mut self, addr: usize, data: &[u8]) -> Result<(), MemoryError> {
        let off = addr.checked_sub(self.base).ok_or(MemoryError::NotAccessible)?;
        let dst = self.bytes.get_mut(off..off + data.len()).ok_or(MemoryError::ShortIo)?;
        dst.copy_from_slice(data);
        Ok(())
    }
}

fn type_text(k: &mut Kunai, s: &str) {
    for c in s.chars() {
        assert!(matches!(k.handle(Command::Type(c)), Effect::Nothing));
    }
}

fn clear_text(k: &mut Kunai, n: usize) {
    for _ in 0..n {
        k.handle(Command::Backspace);
    }
}

fn search(k: &mut Kunai, mem: &FakeMemory) {
    match k.handle(Command::Submit) {
        Effect::Scan(mut scan) => {
            loop {
                match scan.request() {
                    ScanRequest::ReadRegion { start, len } => scan.region_read(mem.read_exact(start, len)),
                    ScanRequest::ReadValue { addr, len } => scan.value_read(mem.read_exact(addr, len)),
                    ScanRequest::Finished => break,
                }
            }
            k.search_done(scan);
        }
        _ => panic!("submitting a search must start a scan"),
    }
}

#[test]
fn navigation_wraps_round() {
    assert_eq!(index_up_exec(Some(0), 5), Some(4));
    assert_eq!(index_down_exec(Some(4), 5), Some(0));
    assert_eq!(index_up_exec(Some(3), 5), Some(2));
    assert_eq!(index_down_exec(Some(3), 5), Some(4));
    assert_eq!(index_up_exec(None, 5), Some(4));
    assert_eq!(index_down_exec(None, 5), Some(0));
    assert_eq!(index_up_exec(None, 0), None);
    assert_eq!(index_down_exec(None, 0), None);
    let mut sel = Some(2);
    for _ in 0..5 {
        sel = index_up_exec(sel, 5);
    }
    assert_eq!(sel, Some(2));
}

#[test]
fn task_list_navigation_wraps() {
    let mut ts = TaskSelection::new();
    ts.decrement_index();
    assert_eq!(ts.selected, None);
    ts.increment_index();
    assert_eq!(ts.selected, None);
    ts.refresh_list(Some((1..=5).map(|i| task(&i.to_string(), "t")).collect()));
    ts.increment_index();
    assert_eq!(ts.selected, Some(0));
    ts.decrement_index();
    assert_eq!(ts.selected, Some(4));
    ts.increment_index();
    assert_eq!(ts.selected, Some(0));
}

#[test]
fn filter_by_name_and_clear() {
    let mut ts = TaskSelection::new();
    ts.refresh_list(Some(vec![task("1", "a"), task("2", "b")]));
    ts.start_name_search();
    ts.push_search_char('a');
    assert_eq!(pids(&ts.visible_tasks()), vec![("1".to_string(), "a".to_string())]);
    ts.pop_search_char();
    assert_eq!(ts.filtered_task_list, None);
    assert_eq!(pids(&ts.visible_tasks()), pids(&[task("1", "a"), task("2", "b")]));
}

#[test]
fn filter_by_pid_clears_selection() {
    let mut ts = TaskSelection::new();
    ts.refresh_list(Some(vec![task("10", "x"), task("21", "y"), task("31", "z")]));
    ts.increment_index();
    ts.start_pid_search();
    assert_eq!(ts.selected, None);
    assert!(ts.pid_search && !ts.name_search);
    ts.push_search_char('1');
    assert_eq!(ts.visible_len(), 3);
    ts.increment_index();
    ts.push_search_char('0');
    assert_eq!(ts.selected, None);
    assert_eq!(pids(&ts.visible_tasks()), vec![("10".to_string(), "x".to_string())]);
    ts.stop_search();
    assert_eq!(ts.visible_len(), 3);
    assert_eq!(ts.search_string, "10");
    ts.start_pid_search();
    assert_eq!(ts.visible_len(), 1);
}

#[test]
fn refresh_without_tasks_empties_list() {
    let mut ts = TaskSelection::new();
    ts.refresh_list(Some(vec![task("1", "a")]));
    ts.refresh_list(None);
    assert_eq!(ts.visible_len(), 0);
}

#[test]
fn task_copy_keeps_fields() {
    let mut t = task("7", "seven");
    t.state = "S (sleeping)".to_string();
    t.cmdline = "/bin/seven -x".to_string();
    let c = t.clone();
    assert_eq!((c.pid, c.name, c.state, c.cmdline), (t.pid, t.name, t.state, t.cmdline));
}

#[test]
fn end_to_end_search_and_edit() {
    let mut mem = FakeMemory { base: 0x1000, bytes: vec![0u8; 0x1000] };
    mem.bytes[0x234..0x23a].copy_from_slice(b"KEY123");

    let mut k = Kunai::new();
    k.tasks.refresh_list(Some(vec![task("42", "target")]));
    k.handle(Command::Down);
    match k.handle(Command::Submit) {
        Effect::LoadMap(pid) => assert_eq!(pid, "42"),
        _ => panic!("selecting a task must load its map"),
    }
    assert_eq!(k.state(), SessionState::Search);
    k.map_loaded(Some(b"1000-2000 rw-p 00000000 00:00 0 heap\n".to_vec()));
    assert_eq!(k.memedit.task_mem.maps.len(), 1);
    assert_eq!(k.memedit.task_mem.maps[0].name, "heap");

    type_text(&mut k, "KEY123");
    search(&mut k, &mem);
    assert_eq!(k.memedit.search_list.len(), 1);
    assert_eq!(k.memedit.search_list[0].start, 0x1000 + 0x234);
    assert_eq!(k.memedit.ui_msg.as_deref(), Some("Found 1 occurrences!"));

    k.handle(Command::Down);
    k.handle(Command::OpenEditor);
    assert_eq!(k.state(), SessionState::ValueEdit);
    assert_eq!(k.memedit.new_value, "KEY123");
    clear_text(&mut k, 3);
    type_text(&mut k, "999");
    match k.handle(Command::Submit) {
        Effect::Write(addr, bytes) => {
            assert_eq!(addr, 0x1234);
            assert_eq!(bytes, b"KEY999".to_vec());
            k.write_done(mem.write_exact(addr, &bytes));
        }
        _ => panic!("submitting an edit must write"),
    }
    assert_eq!(k.state(), SessionState::Search);
    assert_eq!(k.memedit.ui_msg.as_deref(), Some("Written!"));

    clear_text(&mut k, 6);
    type_text(&mut k, "KEY999");
    search(&mut k, &mem);
    assert_eq!(k.memedit.search_list.len(), 1);
    clear_text(&mut k, 6);
    type_text(&mut k, "KEY123");
    search(&mut k, &mem);
    assert_eq!(k.memedit.search_list.len(), 0);
}

#[test]
fn edit_may_change_length() {
    let mut mem = FakeMemory { base: 0x10, bytes: b"..abc...".to_vec() };
    let mut k = Kunai::new();
    k.tasks.refresh_list(Some(vec![task("5", "p")]));
    k.handle(Command::Up);
    k.handle(Command::Submit);
    k.map_loaded(Some(b"10-18 rw-p 0 00:00 0\n".to_vec()));
    type_text(&mut k, "abc");
    search(&mut k, &mem);
    k.handle(Command::Up);
    k.handle(Command::OpenEditor);
    type_text(&mut k, "de");
    match k.handle(Command::Submit) {
        Effect::Write(addr, bytes) => {
            assert_eq!((addr, bytes.as_slice()), (0x12, &b"abcde"[..]));
            k.write_done(mem.write_exact(addr, &bytes));
        }
        _ => panic!("submitting an edit must write"),
    }
    assert_eq!(mem.bytes, b"..abcde.".to_vec());
}

#[test]
fn screens_follow_the_table() {
    let mut k = Kunai::new();
    assert_eq!(k.state(), SessionState::TaskSelect);
    assert!(matches!(k.handle(Command::Submit), Effect::Nothing));
    assert!(matches!(k.handle(Command::Refresh), Effect::LoadTasks));
    k.tasks.refresh_list(Some(vec![task("1", "a")]));
    k.handle(Command::Down);
    k.handle(Command::Submit);
    assert_eq!(k.current_screen, CurrentScreen::MemoryEditingScreen);
    k.handle(Command::ToggleMaps);
    assert_eq!(k.state(), SessionState::MapList);
    k.handle(Command::ToggleMaps);
    assert_eq!(k.state(), SessionState::Search);
    k.handle(Command::ToggleMaps);
    k.handle(Command::Escape);
    assert_eq!(k.memedit.sub_screen, SubScreen::MemorySearch);
    k.handle(Command::OpenEditor);
    assert_eq!(k.state(), SessionState::Search);
    k.handle(Command::Escape);
    assert_eq!(k.state(), SessionState::TaskSelect);
    assert!(matches!(k.handle(Command::Escape), Effect::Quit));
}

#[test]
fn filter_typing_in_task_list() {
    let mut k = Kunai::new();
    k.tasks.refresh_list(Some(vec![task("1", "alpha"), task("2", "beta")]));
    k.handle(Command::Type('b'));
    assert!(k.tasks.search_string.is_empty());
    k.handle(Command::FilterByName);
    k.handle(Command::Type('b'));
    assert_eq!(k.tasks.visible_len(), 1);
    k.handle(Command::Down);
    match k.handle(Command::Submit) {
        Effect::LoadMap(pid) => assert_eq!(pid, "2"),
        _ => panic!("selecting a task must load its map"),
    }
    assert_eq!(k.memedit.task.name, "beta");
    k.handle(Command::Escape);
    assert!(matches!(k.handle(Command::Escape), Effect::Nothing));
    assert!(!k.tasks.name_search);
    assert_eq!(k.tasks.visible_len(), 2);
}

#[test]
fn map_list_toggles_search_mark() {
    let mut k = Kunai::new();
    k.tasks.refresh_list(Some(vec![task("1", "a")]));
    k.handle(Command::Down);
    k.handle(Command::Submit);
    k.map_loaded(Some(b"1000-2000 rw-p 0 0 0 a\n3000-4000 r--p 0 0 0 b\n".to_vec()));
    k.handle(Command::ToggleMaps);
    k.handle(Command::Up);
    assert_eq!(k.memedit.map_selected, Some(1));
    k.handle(Command::Submit);
    assert!(k.memedit.task_mem.maps[0].should_search);
    assert!(!k.memedit.task_mem.maps[1].should_search);
    k.handle(Command::Escape);
    type_text(&mut k, "z");
    match k.handle(Command::Submit) {
        Effect::Scan(scan) => {
            assert_eq!(scan.request(), ScanRequest::ReadRegion { start: 0x1000, len: 0x1000 });
            assert_eq!(scan.regions.len(), 1);
        }
        _ => panic!("submitting a search must start a scan"),
    }
}

#[test]
fn unreadable_map_is_reported_and_empty() {
    let mut k = Kunai::new();
    k.tasks.refresh_list(Some(vec![task("1", "a")]));
    k.handle(Command::Down);
    k.handle(Command::Submit);
    k.map_loaded(None);
    assert!(k.memedit.task_mem.maps.is_empty());
    assert_eq!(k.memedit.ui_msg.as_deref(), Some("Cannot read the task's memory map"));
}

#[test]
fn edit_without_selection_is_refused() {
    let mut k = Kunai::new();
    k.tasks.refresh_list(Some(vec![task("1", "a")]));
    k.handle(Command::Down);
    k.handle(Command::Submit);
    k.memedit.sub_screen = SubScreen::ValueEditing;
    assert!(matches!(k.handle(Command::Submit), Effect::Nothing));
    assert_eq!(k.memedit.ui_msg.as_deref(), Some("Invalid memory address"));
    assert_eq!(k.state(), SessionState::Search);
}

#[test]
fn write_errors_become_status() {
    let mut k = Kunai::new();
    k.write_done(Err(MemoryError::NotAccessible));
    assert_eq!(k.memedit.ui_msg.as_deref(), Some("Failed to open mem file"));
    k.write_done(Err(MemoryError::SeekFailure));
    assert_eq!(k.memedit.ui_msg.as_deref(), Some("Failed to seek mem file"));
    k.write_done(Err(MemoryError::ShortIo));
    assert_eq!(k.memedit.ui_msg.as_deref(), Some("Failed to write at memory"));
    k.write_done(Err(MemoryError::WriteFailure));
    assert_eq!(k.memedit.ui_msg.as_deref(), Some("Failed to write at memory"));
    assert_eq!(MemoryError::WriteFailure.message(), "Failed to write at memory");
}

#[test]
fn select_task_out_of_range_changes_nothing() {
    let mut k = Kunai::new();
    assert_eq!(k.select_task(0), None);
    assert_eq!(k.state(), SessionState::TaskSelect);
}

#[test]
fn stale_scan_is_dropped() {
    let mem = FakeMemory { base: 0x1000, bytes: b"xxKEYxx".to_vec() };
    let mut k = Kunai::new();
    k.tasks.refresh_list(Some(vec![task("9", "p")]));
    k.handle(Command::Down);
    k.handle(Command::Submit);
    k.map_loaded(Some(b"1000-1007 rw-p 0 00:00 0\n".to_vec()));
    type_text(&mut k, "KEY");
    let mut scan = match k.handle(Command::Submit) {
        Effect::Scan(scan) => scan,
        _ => panic!("submitting a search must start a scan"),
    };
    loop {
        match scan.request() {
            ScanRequest::ReadRegion { start, len } => scan.region_read(mem.read_exact(start, len)),
            ScanRequest::ReadValue { addr, len } => scan.value_read(mem.read_exact(addr, len)),
            ScanRequest::Finished => break,
        }
    }
    assert_eq!(scan.found.len(), 1);
    k.map_loaded(Some(b"5000-6000 rw-p 0 00:00 0\n".to_vec()));
    k.search_done(scan);
    assert!(k.memedit.search_list.is_empty());
    assert_eq!(k.memedit.ui_msg.as_deref(), Some("The region list changed during the search"));
}
