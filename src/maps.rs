use vstd::prelude::*;
use vstd::utf8::{decode_utf8, valid_utf8};

use crate::model::MemoryMap;
use crate::text::utf8_string;

verus! {

/// ASCII whitespace, as the region table separates its fields.
pub open spec fn is_blank(b: u8) -> bool {
    b == 0x20u8 || b == 0x09u8 || b == 0x0au8 || b == 0x0cu8 || b == 0x0du8
}

/// The whitespace-separated words of `s` from `pos` on; `cur` is the start of
/// the word being read at `pos`, or negative between words.
pub open spec fn words_from(s: Seq<u8>, pos: int, cur: int) -> Seq<Seq<u8>>
    decreases s.len() - pos,
{
    if pos >= s.len() {
        if 0 <= cur { seq![s.subrange(cur, s.len() as int)] } else { seq![] }
    } else if is_blank(s[pos]) {
        if 0 <= cur {
            seq![s.subrange(cur, pos)] + words_from(s, pos + 1, -1)
        } else {
            words_from(s, pos + 1, -1)
        }
    } else {
        words_from(s, pos + 1, if 0 <= cur { cur } else { pos })
    }
}

pub open spec fn words(s: Seq<u8>) -> Seq<Seq<u8>> {
    words_from(s, 0, -1)
}

/// The lines of `s` from `pos` on, the current one starting at `start`. A
/// final newline ends the last line and opens no empty one.
pub open spec fn lines_from(s: Seq<u8>, pos: int, start: int) -> Seq<Seq<u8>>
    decreases s.len() - pos,
{
    if pos >= s.len() {
        if start < s.len() { seq![s.subrange(start, s.len() as int)] } else { seq![] }
    } else if s[pos] == 0x0au8 {
        seq![s.subrange(start, pos)] + lines_from(s, pos + 1, pos + 1)
    } else {
        lines_from(s, pos + 1, start)
    }
}

pub open spec fn lines(s: Seq<u8>) -> Seq<Seq<u8>> {
    lines_from(s, 0, 0)
}

pub open spec fn is_hex_digit(b: u8) -> bool {
    (0x30u8 <= b <= 0x39u8) || (0x61u8 <= b <= 0x66u8) || (0x41u8 <= b <= 0x46u8)
}

pub open spec fn hex_digit_value(b: u8) -> nat {
    if 0x30u8 <= b <= 0x39u8 {
        (b - 0x30u8) as nat
    } else if 0x61u8 <= b <= 0x66u8 {
        (b - 0x61u8 + 10) as nat
    } else {
        (b - 0x41u8 + 10) as nat
    }
}

/// The number that the hexadecimal digits `s` write.
pub open spec fn hex_value(s: Seq<u8>) -> nat
    decreases s.len(),
{
    if s.len() == 0 {
        0
    } else {
        hex_value(s.drop_last()) * 16 + hex_digit_value(s.last())
    }
}

pub open spec fn all_hex(s: Seq<u8>) -> bool {
    forall|i: int| 0 <= i < s.len() ==> is_hex_digit(#[trigger] s[i])
}

/// A non-empty run of hex digits whose value fits in an address.
pub open spec fn parse_hex(s: Seq<u8>) -> Option<nat> {
    if s.len() > 0 && all_hex(s) && hex_value(s) <= usize::MAX {
        Some(hex_value(s))
    } else {
        None
    }
}

/// Index of the first `-` in `s` at or after `pos`, or the length of `s`.
pub open spec fn dash_from(s: Seq<u8>, pos: int) -> int
    decreases s.len() - pos,
{
    if pos >= s.len() || s[pos] == 0x2du8 {
        pos
    } else {
        dash_from(s, pos + 1)
    }
}

/// The text before the first `-` of an address range.
pub open spec fn range_start(r: Seq<u8>) -> Seq<u8> {
    r.subrange(0, dash_from(r, 0))
}

/// The text after the first `-` of an address range, if it has one.
pub open spec fn range_end(r: Seq<u8>) -> Option<Seq<u8>> {
    let d = dash_from(r, 0);
    if d < r.len() { Some(r.subrange(d + 1, r.len() as int)) } else { None }
}

/// One region of a parsed table, as plain values.
pub struct RegionEntry {
    pub start: nat,
    pub end: nat,
    pub perms: Seq<char>,
    pub name: Seq<char>,
}

/// The region that a line of the table `start-end perms offset dev inode [name]`
/// describes, or `None` for a line that does not parse: a bad or reversed
/// address range, a missing field, or a text field that is not UTF-8.
pub open spec fn parse_line(line: Seq<u8>) -> Option<RegionEntry> {
    let w = words(line);
    if w.len() < 5 {
        None
    } else {
        let name = if w.len() > 5 { w[5] } else { Seq::empty() };
        match (parse_hex(range_start(w[0])), range_end(w[0])) {
            (Some(start), Some(end_text)) => match parse_hex(end_text) {
                Some(end) => if start < end && valid_utf8(w[1]) && valid_utf8(name) {
                    Some(RegionEntry { start, end, perms: decode_utf8(w[1]), name: decode_utf8(name) })
                } else {
                    None
                },
                None => None,
            },
            _ => None,
        }
    }
}

/// The regions of the lines that parse, in the order of the lines.
pub open spec fn parse_lines(ls: Seq<Seq<u8>>) -> Seq<RegionEntry>
    decreases ls.len(),
{
    if ls.len() == 0 {
        Seq::empty()
    } else {
        match parse_line(ls.last()) {
            Some(r) => parse_lines(ls.drop_last()).push(r),
            None => parse_lines(ls.drop_last()),
        }
    }
}

/// The regions of a whole table.
pub open spec fn parse_table(text: Seq<u8>) -> Seq<RegionEntry> {
    parse_lines(lines(text))
}


fn is_blank_byte(b: u8) -> (r: bool)
    ensures
        r == is_blank(b),
{
    b == 0x20u8 || b == 0x09u8 || b == 0x0au8 || b == 0x0cu8 || b == 0x0du8
}

/// The words of `s`, as the ranges of `s` that hold them.
fn word_bounds(s: &[u8]) -> (r: Vec<(usize, usize)>)
    ensures
        r@.len() == words(s@).len(),
        forall|k: int|
            0 <= k < r@.len() ==> {
                &&& (#[trigger] r@[k]).0 <= r@[k].1 <= s@.len()
                &&& s@.subrange(r@[k].0 as int, r@[k].1 as int) == words(s@)[k]
            },
{
    let mut r: Vec<(usize, usize)> = Vec::new();
    let mut cur: usize = 0;
    let mut in_word = false;
    let mut i: usize = 0;
    let ghost mut acc: Seq<Seq<u8>> = seq![];
    assert(acc + words_from(s@, 0, -1) =~= words(s@));
    while i < s.len()
        invariant
            i <= s@.len(),
            cur <= i,
            acc + words_from(s@, i as int, if in_word { cur as int } else { -1 }) == words(s@),
            r@.len() == acc.len(),
            forall|k: int|
                0 <= k < r@.len() ==> {
                    &&& (#[trigger] r@[k]).0 <= r@[k].1 <= s@.len()
                    &&& s@.subrange(r@[k].0 as int, r@[k].1 as int) == acc[k]
                },
        decreases s.len() - i,
    {
        if is_blank_byte(s[i]) {
            if in_word {
                let ghost w = s@.subrange(cur as int, i as int);
                assert(acc + (seq![w] + words_from(s@, i + 1, -1)) =~= acc.push(w) + words_from(
                    s@,
                    i + 1,
                    -1,
                ));
                r.push((cur, i));
                proof {
                    acc = acc.push(w);
                }
                in_word = false;
            }
        } else if !in_word {
            cur = i;
            in_word = true;
        }
        i += 1;
    }
    if in_word {
        let ghost w = s@.subrange(cur as int, s@.len() as int);
        assert(acc + seq![w] =~= acc.push(w));
        r.push((cur, s.len()));
        proof {
            acc = acc.push(w);
        }
    } else {
        assert(acc + seq![] =~= acc);
    }
    r
}

/// Index of the first `-` in `s`, or its length.
fn find_dash(s: &[u8]) -> (r: usize)
    ensures
        r as int == dash_from(s@, 0),
        r <= s@.len(),
{
    let mut i: usize = 0;
    while i < s.len() && s[i] != 0x2du8
        invariant
            i <= s@.len(),
            dash_from(s@, i as int) == dash_from(s@, 0),
        decreases s.len() - i,
    {
        i += 1;
    }
    i
}

fn hex_digit(b: u8) -> (r: Option<usize>)
    ensures
        r is Some <==> is_hex_digit(b),
        r is Some ==> r->0 as nat == hex_digit_value(b) && r->0 < 16,
{
    if 0x30u8 <= b && b <= 0x39u8 {
        Some((b - 0x30u8) as usize)
    } else if 0x61u8 <= b && b <= 0x66u8 {
        Some((b - 0x61u8 + 10) as usize)
    } else if 0x41u8 <= b && b <= 0x46u8 {
        Some((b - 0x41u8 + 10) as usize)
    } else {
        None
    }
}

proof fn lemma_hex_value_grows(s: Seq<u8>, i: int)
    requires
        0 <= i <= s.len(),
    ensures
        hex_value(s.subrange(0, i)) <= hex_value(s),
    decreases s.len(),
{
    if i < s.len() {
        assert(s.drop_last() =~= s.subrange(0, s.len() - 1));
        lemma_hex_value_grows(s.drop_last(), i);
        assert(s.drop_last().subrange(0, i) =~= s.subrange(0, i));
    } else {
        assert(s.subrange(0, i) =~= s);
    }
}

/// Reads a hex number that fits in a `usize`.
pub fn parse_hex_usize(s: &[u8]) -> (r: Option<usize>)
    ensures
        r is Some <==> parse_hex(s@) is Some,
        r is Some ==> r->0 as nat == parse_hex(s@)->0,
{
    if s.len() == 0 {
        return None;
    }
    let mut acc: usize = 0;
    let mut i: usize = 0;
    while i < s.len()
        invariant
            i <= s@.len(),
            acc as nat == hex_value(s@.subrange(0, i as int)),
            all_hex(s@.subrange(0, i as int)),
        decreases s.len() - i,
    {
        let d = match hex_digit(s[i]) {
            Some(d) => d,
            None => {
                assert(!all_hex(s@));
                return None;
            },
        };
        let ghost pre = s@.subrange(0, i + 1);
        assert(pre.drop_last() =~= s@.subrange(0, i as int));
        if acc > (usize::MAX - d) / 16 {
            assert(acc * 16 + d > usize::MAX) by (nonlinear_arith)
                requires
                    acc > (usize::MAX - d) / 16,
                    d < 16,
            ;
            proof {
                lemma_hex_value_grows(s@, i + 1);
            }
            return None;
        }
        assert(acc * 16 + d <= usize::MAX) by (nonlinear_arith)
            requires
                acc <= (usize::MAX - d) / 16,
                d < 16,
        ;
        acc = acc * 16 + d;
        i += 1;
        assert(all_hex(s@.subrange(0, i as int))) by {
            assert forall|j: int| 0 <= j < i implies is_hex_digit(#[trigger] s@.subrange(0, i as int)[j]) by {
                if j < i - 1 {
                    assert(s@.subrange(0, i as int)[j] == s@.subrange(0, i - 1)[j]);
                }
            }
        }
    }
    assert(s@.subrange(0, i as int) =~= s@);
    Some(acc)
}

/// What a list of region records says, record by record.
pub open spec fn entries(ms: Seq<MemoryMap>) -> Seq<RegionEntry> {
    ms.map_values(|m: MemoryMap| m.entry())
}

/// The region that one line of a region table describes, searched by
/// default; `None` where the line does not parse.
pub fn parse_map_line(line: &[u8]) -> (r: Option<MemoryMap>)
    ensures
        match r {
            Some(m) => parse_line(line@) == Some(m.entry()) && m.should_search,
            None => parse_line(line@) is None,
        },
{
    let w = word_bounds(line);
    if w.len() < 5 {
        return None;
    }
    let range = &line[w[0].0..w[0].1];
    let d = find_dash(range);
    let start = match parse_hex_usize(&range[0..d]) {
        Some(v) => v,
        None => return None,
    };
    if d >= range.len() {
        return None;
    }
    let end = match parse_hex_usize(&range[d + 1..range.len()]) {
        Some(v) => v,
        None => return None,
    };
    if start >= end {
        return None;
    }
    let perms = match utf8_string(&line[w[1].0..w[1].1]) {
        Some(p) => p,
        None => return None,
    };
    let name_bytes = if w.len() > 5 {
        &line[w[5].0..w[5].1]
    } else {
        &line[0..0]
    };
    let name = match utf8_string(name_bytes) {
        Some(n) => n,
        None => return None,
    };
    assert(line@.subrange(0, 0) =~= Seq::<u8>::empty());
    Some(MemoryMap { start, end, perms, name, should_search: true })
}

/// The regions of a region table, one per line that parses, in the order of
/// the lines; lines that do not parse are skipped.
pub fn parse_map_table(text: &[u8]) -> (r: Vec<MemoryMap>)
    ensures
        entries(r@) == parse_table(text@),
        forall|k: int| 0 <= k < r@.len() ==> (#[trigger] r@[k]).should_search,
{
    let mut r: Vec<MemoryMap> = Vec::new();
    let mut start: usize = 0;
    let mut i: usize = 0;
    let ghost mut done: Seq<Seq<u8>> = seq![];
    assert(done + lines_from(text@, 0, 0) =~= lines(text@));
    assert(entries(r@) =~= parse_lines(done));
    while i < text.len()
        invariant
            start <= i <= text@.len(),
            done + lines_from(text@, i as int, start as int) == lines(text@),
            entries(r@) == parse_lines(done),
            forall|k: int| 0 <= k < r@.len() ==> (#[trigger] r@[k]).should_search,
        decreases text.len() - i,
    {
        if text[i] == 0x0au8 {
            let ghost l = text@.subrange(start as int, i as int);
            assert(done + (seq![l] + lines_from(text@, i + 1, i + 1)) =~= done.push(l)
                + lines_from(text@, i + 1, i + 1));
            assert(done.push(l).drop_last() =~= done);
            if let Some(m) = parse_map_line(&text[start..i]) {
                assert(entries(r@.push(m)) =~= entries(r@).push(m.entry()));
                r.push(m);
            }
            proof {
                done = done.push(l);
            }
            start = i + 1;
        }
        i += 1;
    }
    if start < text.len() {
        let ghost l = text@.subrange(start as int, text@.len() as int);
        assert(done + seq![l] =~= done.push(l));
        assert(done.push(l).drop_last() =~= done);
        if let Some(m) = parse_map_line(&text[start..text.len()]) {
            assert(entries(r@.push(m)) =~= entries(r@).push(m.entry()));
            r.push(m);
        }
        proof {
            done = done.push(l);
        }
    } else {
        assert(done + seq![] =~= done);
    }
    r
}

/// A line of the table that describes a region.
pub open spec fn line_parses(l: Seq<u8>) -> bool {
    parse_line(l) is Some
}

/// A line that parses gives a non-empty region whose bounds are the values of
/// the two hex numbers of its address range.
pub proof fn lemma_parsed_line_bounds(line: Seq<u8>)
    requires
        line_parses(line),
    ensures
        parse_line(line)->0.start < parse_line(line)->0.end,
        parse_line(line)->0.start == hex_value(range_start(words(line)[0])),
        range_end(words(line)[0]) is Some,
        parse_line(line)->0.end == hex_value(range_end(words(line)[0])->0),
{
}

/// The regions of a table are those of the lines that parse, one each and
/// in the order of the lines; the others leave no trace, wherever they stand.
pub proof fn lemma_parse_keeps_parsing_lines(ls: Seq<Seq<u8>>)
    ensures
        parse_lines(ls) == ls.filter(|l: Seq<u8>| line_parses(l)).map_values(
            |l: Seq<u8>| parse_line(l)->0,
        ),
        parse_lines(ls).len() == ls.filter(|l: Seq<u8>| line_parses(l)).len(),
    decreases ls.len(),
{
    let f = |l: Seq<u8>| line_parses(l);
    let g = |l: Seq<u8>| parse_line(l)->0;
    if ls.len() == 0 {
        assert(ls.filter(f) =~= Seq::<Seq<u8>>::empty());
        assert(ls.filter(f).map_values(g) =~= Seq::<RegionEntry>::empty());
    } else {
        lemma_parse_keeps_parsing_lines(ls.drop_last());
        reveal(Seq::filter);
        assert(ls.filter(f) == {
            let sub = ls.drop_last().filter(f);
            if f(ls.last()) { sub.push(ls.last()) } else { sub }
        });
        if f(ls.last()) {
            assert(ls.drop_last().filter(f).push(ls.last()).map_values(g) =~= ls.drop_last().filter(
                f,
            ).map_values(g).push(g(ls.last())));
        }
    }
}

/// Parsing the lines of two tables one after the other gives the regions of
/// the first, then those of the second.
pub proof fn lemma_parse_lines_append(a: Seq<Seq<u8>>, b: Seq<Seq<u8>>)
    ensures
        parse_lines(a + b) == parse_lines(a) + parse_lines(b),
    decreases b.len(),
{
    if b.len() == 0 {
        assert(a + b =~= a);
        assert(parse_lines(a) + parse_lines(b) =~= parse_lines(a));
    } else {
        lemma_parse_lines_append(a, b.drop_last());
        assert((a + b).drop_last() =~= a + b.drop_last());
        assert((a + b).last() == b.last());
        if let Some(r) = parse_line(b.last()) {
            assert(parse_lines(a) + parse_lines(b.drop_last()).push(r) =~= (parse_lines(a)
                + parse_lines(b.drop_last())).push(r));
        }
    }
}

/// A line that does not parse changes nothing, wherever it stands.
pub proof fn lemma_bad_line_skipped(a: Seq<Seq<u8>>, bad: Seq<u8>, b: Seq<Seq<u8>>)
    requires
        !line_parses(bad),
    ensures
        parse_lines(a + seq![bad] + b) == parse_lines(a + b),
{
    lemma_parse_lines_append(a + seq![bad], b);
    lemma_parse_lines_append(a, b);
    assert((a + seq![bad]).drop_last() =~= a);
}

} // verus!
