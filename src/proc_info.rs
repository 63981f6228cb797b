use vstd::prelude::*;
use vstd::utf8::{decode_utf8, valid_utf8};

use crate::maps::{lines, lines_from};
use crate::tasks::Task;
use crate::text::{trim_text, trimmed, utf8_string};

verus! {

/// The first index at or after `pos` where `pat` occurs in `s`, or -1.
pub open spec fn find_from(s: Seq<u8>, pat: Seq<u8>, pos: int) -> int
    decreases s.len() - pos,
{
    if pos < 0 || pos + pat.len() > s.len() {
        -1
    } else if s.subrange(pos, pos + pat.len()) == pat {
        pos
    } else if pos >= s.len() {
        -1
    } else {
        find_from(s, pat, pos + 1)
    }
}

/// The `:\t` that separates a status key from its value.
pub open spec fn separator() -> Seq<u8> {
    seq![0x3au8, 0x09u8]
}

/// The value of a status line: what follows its first `:\t`, up to the
/// next one; empty where the line has none.
pub open spec fn line_value(line: Seq<u8>) -> Seq<u8> {
    let d = find_from(line, separator(), 0);
    if d < 0 {
        Seq::empty()
    } else {
        let e = find_from(line, separator(), d + 2);
        if e < 0 {
            line.subrange(d + 2, line.len() as int)
        } else {
            line.subrange(d + 2, e)
        }
    }
}

/// The value of the last of `ls` that contains `key`, if any does.
pub open spec fn status_value(ls: Seq<Seq<u8>>, key: Seq<u8>) -> Option<Seq<u8>>
    decreases ls.len(),
{
    if ls.len() == 0 {
        None
    } else if find_from(ls.last(), key, 0) >= 0 {
        Some(line_value(ls.last()))
    } else {
        status_value(ls.drop_last(), key)
    }
}

/// The text of a field: its characters where it is UTF-8, else empty.
pub open spec fn field_text(b: Option<Seq<u8>>) -> Seq<char> {
    match b {
        Some(v) => if valid_utf8(v) { decode_utf8(v) } else { Seq::empty() },
        None => Seq::empty(),
    }
}

/// The command line as shown: NUL separators become spaces, then white
/// space at either end is dropped; text that is not UTF-8 reads as empty.
pub open spec fn cmdline_text(raw: Seq<u8>) -> Seq<char> {
    let spaced = raw.map_values(|b: u8| nul_to_space(b));
    if valid_utf8(spaced) {
        trimmed(decode_utf8(spaced))
    } else {
        Seq::empty()
    }
}

/// A NUL byte becomes a space; any other byte stays.
pub open spec fn nul_to_space(b: u8) -> u8 {
    if b == 0 { 0x20u8 } else { b }
}

fn find_bytes(s: &[u8], pat: &[u8], pos: usize) -> (r: Option<usize>)
    requires
        pos <= s@.len(),
    ensures
        match r {
            Some(i) => find_from(s@, pat@, pos as int) == i as int,
            None => find_from(s@, pat@, pos as int) == -1,
        },
{
    if pat.len() == 0 {
        assert(s@.subrange(pos as int, pos as int) =~= pat@);
        return Some(pos);
    }
    let n = s.len();
    let mut i = pos;
    while i <= s.len() && pat.len() <= s.len() - i
        invariant
            pos <= i <= s@.len(),
            s@.len() == n,
            pat@.len() > 0,
            find_from(s@, pat@, i as int) == find_from(s@, pat@, pos as int),
        decreases s@.len() - i,
    {
        let mut j: usize = 0;
        let mut same = true;
        while j < pat.len()
            invariant
                i + pat@.len() <= s@.len(),
                s@.len() == n,
                j <= pat@.len(),
                same == (forall|k: int| 0 <= k < j ==> s@[i + k] == pat@[k]),
            decreases pat@.len() - j,
        {
            if s[i + j] != pat[j] {
                same = false;
            }
            j += 1;
        }
        if same {
            assert(s@.subrange(i as int, i + pat@.len()) =~= pat@);
            return Some(i);
        }
        assert(s@.subrange(i as int, i + pat@.len()) != pat@) by {
            let k = choose|k: int| 0 <= k < pat@.len() && s@[i + k] != pat@[k];
            assert(s@.subrange(i as int, i + pat@.len())[k] == s@[i + k]);
        }
        i += 1;
    }
    None
}

fn value_range(line: &[u8]) -> (r: Option<(usize, usize)>)
    ensures
        match r {
            Some((a, b)) => a <= b <= line@.len() && line@.subrange(a as int, b as int) == line_value(line@),
            None => line_value(line@) == Seq::<u8>::empty(),
        },
{
    let n = line.len();
    let sep: [u8; 2] = [0x3au8, 0x09u8];
    let sep = sep.as_slice();
    assert(sep@ =~= separator());
    match find_bytes(line, sep, 0) {
        None => None,
        Some(d) => {
            proof {
                lemma_find_from_hit(line@, separator(), 0);
            }
            match find_bytes(line, sep, d + 2) {
                None => Some((d + 2, n)),
                Some(e) => {
                    proof {
                        lemma_find_from_hit(line@, separator(), d + 2);
                    }
                    Some((d + 2, e))
                },
            }
        },
    }
}

proof fn lemma_find_from_hit(s: Seq<u8>, pat: Seq<u8>, pos: int)
    ensures
        find_from(s, pat, pos) >= 0 ==> pos <= find_from(s, pat, pos) && find_from(s, pat, pos)
            + pat.len() <= s.len(),
    decreases s.len() - pos,
{
    if pos < 0 || pos + pat.len() > s.len() {
    } else if pat.len() == 0 {
        assert(s.subrange(pos, pos) =~= pat);
    } else if s.subrange(pos, pos + pat.len()) != pat {
        lemma_find_from_hit(s, pat, pos + 1);
    }
}

fn field_string(b: &[u8]) -> (r: String)
    ensures
        r@ == field_text(Some(b@)),
{
    match utf8_string(b) {
        Some(s) => s,
        None => String::new(),
    }
}

/// The value that a status line gives to `key`: the line's own where it
/// holds the key, else `cur`.
fn updated(line: &[u8], key: &[u8], cur: String) -> (r: String)
    ensures
        find_from(line@, key@, 0) >= 0 ==> r@ == field_text(Some(line_value(line@))),
        find_from(line@, key@, 0) < 0 ==> r == cur,
{
    if find_bytes(line, key, 0).is_some() {
        match value_range(line) {
            Some((a, b)) => field_string(&line[a..b]),
            None => field_string(&line[0..0]),
        }
    } else {
        cur
    }
}

/// The values of the last `Name:` line and of the last `State:` line of a
/// process status text; a value that is missing or not UTF-8 is empty.
pub fn get_pid_status(status: &[u8]) -> (r: (String, String))
    ensures
        r.0@ == field_text(status_value(lines(status@), name_key())),
        r.1@ == field_text(status_value(lines(status@), state_key())),
{
    let nk: [u8; 5] = [0x4eu8, 0x61u8, 0x6du8, 0x65u8, 0x3au8];
    let sk: [u8; 6] = [0x53u8, 0x74u8, 0x61u8, 0x74u8, 0x65u8, 0x3au8];
    let nk = nk.as_slice();
    let sk = sk.as_slice();
    assert(nk@ =~= name_key());
    assert(sk@ =~= state_key());
    let mut name = String::new();
    let mut state = String::new();
    let mut start: usize = 0;
    let mut i: usize = 0;
    let ghost mut done: Seq<Seq<u8>> = seq![];
    assert(done + lines_from(status@, 0, 0) =~= lines(status@));
    while i < status.len()
        invariant
            start <= i <= status@.len(),
            nk@ == name_key(),
            sk@ == state_key(),
            done + lines_from(status@, i as int, start as int) == lines(status@),
            name@ == field_text(status_value(done, name_key())),
            state@ == field_text(status_value(done, state_key())),
        decreases status@.len() - i,
    {
        if status[i] == 0x0au8 {
            let line = &status[start..i];
            let ghost l = line@;
            assert(done + (seq![l] + lines_from(status@, i + 1, i + 1)) =~= done.push(l)
                + lines_from(status@, i + 1, i + 1));
            assert(done.push(l).drop_last() =~= done);
            name = updated(line, nk, name);
            state = updated(line, sk, state);
            proof {
                done = done.push(l);
            }
            start = i + 1;
        }
        i += 1;
    }
    if start < status.len() {
        let line = &status[start..status.len()];
        let ghost l = line@;
        assert(done + seq![l] =~= done.push(l));
        assert(done.push(l).drop_last() =~= done);
        name = updated(line, nk, name);
        state = updated(line, sk, state);
        proof {
            done = done.push(l);
        }
    } else {
        assert(done + seq![] =~= done);
    }
    (name, state)
}

/// `Name:`
pub open spec fn name_key() -> Seq<u8> {
    seq![0x4eu8, 0x61u8, 0x6du8, 0x65u8, 0x3au8]
}

/// `State:`
pub open spec fn state_key() -> Seq<u8> {
    seq![0x53u8, 0x74u8, 0x61u8, 0x74u8, 0x65u8, 0x3au8]
}

/// The command line of a process as shown, from the raw bytes of its
/// cmdline file: NUL separators become spaces, white space at either end is
/// dropped, and text that is not UTF-8 reads as empty.
pub fn get_cmdline(raw: &[u8]) -> (r: String)
    ensures
        r@ == cmdline_text(raw@),
{
    let mut spaced: Vec<u8> = Vec::new();
    let mut i: usize = 0;
    while i < raw.len()
        invariant
            i <= raw@.len(),
            spaced@ == raw@.subrange(0, i as int).map_values(|b: u8| nul_to_space(b)),
        decreases raw@.len() - i,
    {
        let b = raw[i];
        spaced.push(if b == 0 { 0x20u8 } else { b });
        assert(raw@.subrange(0, i + 1).map_values(|b: u8| nul_to_space(b)) =~= raw@.subrange(
            0,
            i as int,
        ).map_values(|b: u8| nul_to_space(b)).push(nul_to_space(b)));
        i += 1;
    }
    assert(raw@.subrange(0, i as int) =~= raw@);
    match utf8_string(spaced.as_slice()) {
        Some(s) => trim_text(s.as_str()),
        None => String::new(),
    }
}

/// The task of a process: its pid, the name and state of its status text,
/// and its shown command line.
pub fn get_task_info(pid: &String, status: &[u8], cmdline: &[u8]) -> (r: Task)
    ensures
        r.pid == *pid,
        r.name@ == field_text(status_value(lines(status@), name_key())),
        r.state@ == field_text(status_value(lines(status@), state_key())),
        r.cmdline@ == cmdline_text(cmdline@),
{
    let (name, state) = get_pid_status(status);
    Task { pid: pid.clone(), name, state, cmdline: get_cmdline(cmdline) }
}

/// The tasks of the processes whose status could be read, in the order
/// given; each entry holds a pid, its status text (`None` where it could
/// not be read) and its raw command line.
pub fn get_tasks(procs: &Vec<(String, Option<Vec<u8>>, Vec<u8>)>) -> (r: Vec<Task>)
    ensures
        r@.len() == readable(procs@).len(),
        forall|k: int|
            0 <= k < r@.len() ==> {
                let p = #[trigger] readable(procs@)[k];
                &&& r@[k].pid == p.0
                &&& r@[k].name@ == field_text(status_value(lines(p.1->0@), name_key()))
                &&& r@[k].state@ == field_text(status_value(lines(p.1->0@), state_key()))
                &&& r@[k].cmdline@ == cmdline_text(p.2@)
            },
{
    let mut r: Vec<Task> = Vec::new();
    let mut i: usize = 0;
    while i < procs.len()
        invariant
            i <= procs@.len(),
            r@.len() == readable(procs@.subrange(0, i as int)).len(),
            forall|k: int|
                0 <= k < r@.len() ==> {
                    let p = #[trigger] readable(procs@.subrange(0, i as int))[k];
                    &&& r@[k].pid == p.0
                    &&& r@[k].name@ == field_text(status_value(lines(p.1->0@), name_key()))
                    &&& r@[k].state@ == field_text(status_value(lines(p.1->0@), state_key()))
                    &&& r@[k].cmdline@ == cmdline_text(p.2@)
                },
        decreases procs@.len() - i,
    {
        let ghost pre = procs@.subrange(0, i as int);
        let ghost next = procs@.subrange(0, i + 1);
        assert(next.drop_last() =~= pre);
        let (pid, status, cmdline) = &procs[i];
        if let Some(st) = status {
            r.push(get_task_info(pid, st.as_slice(), cmdline.as_slice()));
            assert forall|k: int| 0 <= k < r@.len() implies #[trigger] readable(next)[k]
                == if k < r@.len() - 1 { readable(pre)[k] } else { procs@[i as int] } by {}
        }
        i += 1;
    }
    assert(procs@.subrange(0, i as int) =~= procs@);
    r
}

/// The entries whose status could be read, in order.
pub open spec fn readable(procs: Seq<(String, Option<Vec<u8>>, Vec<u8>)>) -> Seq<
    (String, Option<Vec<u8>>, Vec<u8>),
>
    decreases procs.len(),
{
    if procs.len() == 0 {
        Seq::empty()
    } else if procs.last().1 is Some {
        readable(procs.drop_last()).push(procs.last())
    } else {
        readable(procs.drop_last())
    }
}

} // verus!
