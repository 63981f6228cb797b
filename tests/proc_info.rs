use kunai::proc_info::{get_cmdline, get_pid_status, get_task_info, get_tasks};

const STATUS: &[u8] = b"Name:\tbash\nUmask:\t0022\nState:\tS (sleeping)\nTgid:\t4242\n";

#[test]
fn status_name_and_state() {
    let (name, state) = get_pid_status(STATUS);
    assert_eq!(name, "bash");
    assert_eq!(state, "S (sleeping)");
}

#[test]
fn status_last_line_wins_and_missing_is_empty() {
    let (name, state) = get_pid_status(b"Name:\tfirst\nName:\tsecond\nOther:\tx");
    assert_eq!(name, "second");
    assert_eq!(state, "");
    let (name, _) = get_pid_status(b"Name: no tab here\n");
    assert_eq!(name, "");
    let (name, _) = get_pid_status(b"Name:\ta:\tb");
    assert_eq!(name, "a");
}

#[test]
fn cmdline_nuls_become_spaces_and_ends_are_trimmed() {
    assert_eq!(get_cmdline(b"/usr/bin/vim\0-R\0file.txt\0"), "/usr/bin/vim -R file.txt");
    assert_eq!(get_cmdline(b"  x \n"), "x");
    assert_eq!(get_cmdline(b""), "");
    assert_eq!(get_cmdline(b"\0\0"), "");
    assert_eq!(get_cmdline(b"a\xff"), "");
}

#[test]
fn cmdline_trims_unicode_white_space() {
    assert_eq!(get_cmdline(b"a\x0b"), "a");
    assert_eq!(get_cmdline("\u{a0}\u{3000}x y\u{2028}\u{85}".as_bytes()), "x y");
    assert_eq!(get_cmdline("\u{200b}z".as_bytes()), "\u{200b}z");
}

#[test]
fn task_from_proc_files() {
    let t = get_task_info(&"4242".to_string(), STATUS, b"bash\0--login\0");
    assert_eq!(t.pid, "4242");
    assert_eq!(t.name, "bash");
    assert_eq!(t.state, "S (sleeping)");
    assert_eq!(t.cmdline, "bash --login");
}

#[test]
fn tasks_of_readable_processes_in_order() {
    let procs = vec![
        ("1".to_string(), Some(b"Name:\tinit\n".to_vec()), b"/sbin/init\0".to_vec()),
        ("2".to_string(), None, Vec::new()),
        ("3".to_string(), Some(b"Name:\tsh\nState:\tR (running)\n".to_vec()), Vec::new()),
    ];
    let tasks = get_tasks(&procs);
    assert_eq!(tasks.len(), 2);
    assert_eq!((tasks[0].pid.as_str(), tasks[0].name.as_str(), tasks[0].cmdline.as_str()), ("1", "init", "/sbin/init"));
    assert_eq!((tasks[1].pid.as_str(), tasks[1].state.as_str(), tasks[1].cmdline.as_str()), ("3", "R (running)", ""));
}
