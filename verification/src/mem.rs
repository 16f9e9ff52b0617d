//! The memory collector: reads the sizes of `/proc/meminfo`.

use vstd::prelude::*;
use vstd::string::*;
use crate::mario_core::Collector;
use crate::text::{
    decimal, is_separator, is_whitespace, law_decimal_reads_back, lemma_decimal_digits,
    lemma_digit_not_separator, lemma_non_whitespace_after_run, lemma_prefix_excludes,
    lemma_separator_after_run, chars_of, field_at, find_separator, has_prefix, non_whitespace_from, parse_u64_range,
    skip_whitespace, spec_parse_u64, starts_with,
};

verus! {

/// Collects memory statistics.
pub struct MemCollector {
    pub name: String,
}

/// One sample of memory statistics, in kB as `/proc/meminfo` gives them.
#[derive(Debug, PartialEq, Eq, Structural)]
pub struct MemStat {
    pub totalkb: u64,
    pub freekb: u64,
    pub bufferkb: u64,
    pub cachedkb: u64,
    pub avaliablekb: u64,
}

/// The statistics before any line is read: all zero.
pub open spec fn zero_mem_stat() -> MemStat {
    MemStat { totalkb: 0, freekb: 0, bufferkb: 0, cachedkb: 0, avaliablekb: 0 }
}

impl Default for MemStat {
    fn default() -> (s: Self)
        ensures
            s == zero_mem_stat(),
    {
        MemStat { totalkb: 0, freekb: 0, bufferkb: 0, cachedkb: 0, avaliablekb: 0 }
    }
}

impl MemCollector {
    /// A collector named `mem`.
    pub fn new() -> (c: Self)
        ensures
            c.name@ == "mem"@,
    {
        MemCollector { name: String::from_str("mem") }
    }
}

impl Collector for MemCollector {
    open spec fn collector_name(&self) -> Seq<char> {
        self.name@
    }

    fn get_name(&self) -> (name: String) {
        self.name.clone()
    }
}

/// The value written after `prefix` on `line`: leading whitespace skipped,
/// then up to the next space (or, with `any_whitespace`, any whitespace).
pub open spec fn value_text(line: Seq<char>, prefix: Seq<char>, any_whitespace: bool) -> Seq<char> {
    field_at(line, non_whitespace_from(line, prefix.len() as int), any_whitespace)
}

/// The number written after `prefix` on `line`, if it is one.
pub open spec fn value_after(line: Seq<char>, prefix: Seq<char>, any_whitespace: bool) -> Option<u64> {
    spec_parse_u64(value_text(line, prefix, any_whitespace))
}

/// A line that starts with `prefix` can be read when a number follows it.
pub open spec fn readable_under(line: Seq<char>, prefix: Seq<char>, any_whitespace: bool) -> bool {
    has_prefix(line, prefix) ==> value_after(line, prefix, any_whitespace) is Some
}

/// Whether a line of `/proc/meminfo` can be read: each of the five keys that
/// the collector reads is followed by a number. The total's number ends at any
/// whitespace, the others' at a space.
pub open spec fn meminfo_line_readable(line: Seq<char>) -> bool {
    &&& readable_under(line, "MemTotal:"@, true)
    &&& readable_under(line, "MemFree:"@, false)
    &&& readable_under(line, "Buffers:"@, false)
    &&& readable_under(line, "Cached:"@, false)
    &&& readable_under(line, "MemAvailable:"@, false)
}

/// `old` with the value on `line` taken in, where `line` starts with `prefix`.
pub open spec fn take_in(old: u64, line: Seq<char>, prefix: Seq<char>, any_whitespace: bool) -> u64 {
    if has_prefix(line, prefix) {
        value_after(line, prefix, any_whitespace).unwrap()
    } else {
        old
    }
}

/// What reading one line of `/proc/meminfo` does to the statistics: the field
/// of the key that starts the line takes the number after it; a line of any
/// other key leaves them as they were.
pub open spec fn apply_meminfo_line(s: MemStat, line: Seq<char>) -> MemStat {
    MemStat {
        totalkb: take_in(s.totalkb, line, "MemTotal:"@, true),
        freekb: take_in(s.freekb, line, "MemFree:"@, false),
        bufferkb: take_in(s.bufferkb, line, "Buffers:"@, false),
        cachedkb: take_in(s.cachedkb, line, "Cached:"@, false),
        avaliablekb: take_in(s.avaliablekb, line, "MemAvailable:"@, false),
    }
}

/// The statistics read from the lines of `/proc/meminfo`, in order, starting
/// from all zero.
pub open spec fn spec_meminfo(lines: Seq<String>) -> MemStat
    decreases lines.len(),
{
    if lines.len() == 0 {
        zero_mem_stat()
    } else {
        apply_meminfo_line(spec_meminfo(lines.drop_last()), lines.last()@)
    }
}

/// A line that starts with none of the five keys leaves the statistics as
/// they were.
pub proof fn law_other_lines_change_nothing(s: MemStat, line: Seq<char>)
    requires
        !has_prefix(line, "MemTotal:"@),
        !has_prefix(line, "MemFree:"@),
        !has_prefix(line, "Buffers:"@),
        !has_prefix(line, "Cached:"@),
        !has_prefix(line, "MemAvailable:"@),
    ensures
        apply_meminfo_line(s, line) == s,
{
}

/// A line made of `key`, whitespace, the decimal writing of `v`, and then
/// nothing or a space and anything, starts with `key` and carries `v` after it.
proof fn lemma_value_after_key(key: Seq<char>, pad: Seq<char>, v: u64, tail: Seq<char>, any_whitespace: bool)
    requires
        forall|i: int| 0 <= i < pad.len() ==> is_whitespace(#[trigger] pad[i]),
        tail.len() == 0 || tail[0] == ' ',
    ensures
        has_prefix(key + pad + decimal(v as nat) + tail, key),
        value_after(key + pad + decimal(v as nat) + tail, key, any_whitespace) == Some(v),
{
    let d = decimal(v as nat);
    let line = key + pad + d + tail;
    assert(line.subrange(0, key.len() as int) =~= key);
    lemma_decimal_digits(v as nat);
    law_decimal_reads_back(v);
    let a: int = key.len() as int;
    let b: int = a + pad.len() as int;
    let e: int = b + d.len() as int;
    assert forall|k: int| a <= k < b implies is_whitespace(#[trigger] line[k]) by {
        assert(line[k] == pad[k - a]);
    }
    assert(line[b] == d[0]);
    lemma_digit_not_separator(d[0], any_whitespace);
    lemma_non_whitespace_after_run(line, a, b);
    assert forall|k: int| b <= k < e implies !is_separator(#[trigger] line[k], any_whitespace) by {
        assert(line[k] == d[k - b]);
        lemma_digit_not_separator(d[k - b], any_whitespace);
    }
    if tail.len() > 0 {
        assert(line[e] == tail[0]);
    }
    lemma_separator_after_run(line, b, e, any_whitespace);
    assert(value_text(line, key, any_whitespace) =~= d);
}

/// What `/proc/meminfo` is read for: a line that gives one of the five keys,
/// then whitespace, then a number `v` (then nothing, or a space and anything)
/// can be read, and reading it sets the field of that key to exactly `v` and
/// leaves the other four as they were.
pub proof fn law_meminfo_line_sets_its_field(s: MemStat, pad: Seq<char>, v: u64, tail: Seq<char>)
    requires
        forall|i: int| 0 <= i < pad.len() ==> is_whitespace(#[trigger] pad[i]),
        tail.len() == 0 || tail[0] == ' ',
    ensures
        ({
            let line = "MemTotal:"@ + pad + decimal(v as nat) + tail;
            meminfo_line_readable(line) && apply_meminfo_line(s, line) == MemStat { totalkb: v, ..s }
        }),
        ({
            let line = "MemFree:"@ + pad + decimal(v as nat) + tail;
            meminfo_line_readable(line) && apply_meminfo_line(s, line) == MemStat { freekb: v, ..s }
        }),
        ({
            let line = "Buffers:"@ + pad + decimal(v as nat) + tail;
            meminfo_line_readable(line) && apply_meminfo_line(s, line) == MemStat { bufferkb: v, ..s }
        }),
        ({
            let line = "Cached:"@ + pad + decimal(v as nat) + tail;
            meminfo_line_readable(line) && apply_meminfo_line(s, line) == MemStat { cachedkb: v, ..s }
        }),
        ({
            let line = "MemAvailable:"@ + pad + decimal(v as nat) + tail;
            meminfo_line_readable(line) && apply_meminfo_line(s, line) == MemStat { avaliablekb: v, ..s }
        }),
{
    reveal_strlit("MemTotal:");
    reveal_strlit("MemFree:");
    reveal_strlit("Buffers:");
    reveal_strlit("Cached:");
    reveal_strlit("MemAvailable:");
    let t = "MemTotal:"@;
    let f = "MemFree:"@;
    let bu = "Buffers:"@;
    let c = "Cached:"@;
    let av = "MemAvailable:"@;
    let d = decimal(v as nat);

    let l = t + pad + d + tail;
    lemma_value_after_key(t, pad, v, tail, true);
    lemma_prefix_excludes(l, t, f, 3);
    lemma_prefix_excludes(l, t, bu, 0);
    lemma_prefix_excludes(l, t, c, 0);
    lemma_prefix_excludes(l, t, av, 3);

    let l = f + pad + d + tail;
    lemma_value_after_key(f, pad, v, tail, false);
    lemma_prefix_excludes(l, f, t, 3);
    lemma_prefix_excludes(l, f, bu, 0);
    lemma_prefix_excludes(l, f, c, 0);
    lemma_prefix_excludes(l, f, av, 3);

    let l = bu + pad + d + tail;
    lemma_value_after_key(bu, pad, v, tail, false);
    lemma_prefix_excludes(l, bu, t, 0);
    lemma_prefix_excludes(l, bu, f, 0);
    lemma_prefix_excludes(l, bu, c, 0);
    lemma_prefix_excludes(l, bu, av, 0);

    let l = c + pad + d + tail;
    lemma_value_after_key(c, pad, v, tail, false);
    lemma_prefix_excludes(l, c, t, 0);
    lemma_prefix_excludes(l, c, f, 0);
    lemma_prefix_excludes(l, c, bu, 0);
    lemma_prefix_excludes(l, c, av, 0);

    let l = av + pad + d + tail;
    lemma_value_after_key(av, pad, v, tail, false);
    lemma_prefix_excludes(l, av, t, 3);
    lemma_prefix_excludes(l, av, f, 3);
    lemma_prefix_excludes(l, av, bu, 0);
    lemma_prefix_excludes(l, av, c, 0);
}

/// Whether every line can be read.
pub open spec fn meminfo_readable(lines: Seq<String>) -> bool {
    forall|i: int| 0 <= i < lines.len() ==> meminfo_line_readable(#[trigger] lines[i]@)
}

/// The number after `prefix` on the line `cs`, which starts with it.
fn read_value(cs: &Vec<char>, prefix: &str, any_whitespace: bool) -> (r: Option<u64>)
    requires
        has_prefix(cs@, prefix@),
    ensures
        r == value_after(cs@, prefix@, any_whitespace),
{
    let start = skip_whitespace(cs, prefix.unicode_len());
    let end = find_separator(cs, start, any_whitespace);
    parse_u64_range(cs, start, end)
}

/// `old`, or the number after `prefix` where `cs` starts with it; `None`
/// where it starts with it and no number follows.
fn take_in_checked(old: u64, cs: &Vec<char>, prefix: &str, any_whitespace: bool) -> (r: Option<u64>)
    ensures
        r is Some <==> readable_under(cs@, prefix@, any_whitespace),
        r is Some ==> r->0 == take_in(old, cs@, prefix@, any_whitespace),
{
    if starts_with(cs, prefix) {
        read_value(cs, prefix, any_whitespace)
    } else {
        Some(old)
    }
}

impl MemStat {
    /// Whether `line` can be read by `read_line` (see `meminfo_line_readable`).
    pub fn line_readable(line: &str) -> (b: bool)
        ensures
            b == meminfo_line_readable(line@),
    {
        let cs = chars_of(line);
        take_in_checked(0, &cs, "MemTotal:", true).is_some()
            && take_in_checked(0, &cs, "MemFree:", false).is_some()
            && take_in_checked(0, &cs, "Buffers:", false).is_some()
            && take_in_checked(0, &cs, "Cached:", false).is_some()
            && take_in_checked(0, &cs, "MemAvailable:", false).is_some()
    }

    /// Takes in one line of `/proc/meminfo`.
    pub fn read_line(&mut self, line: &str)
        requires
            meminfo_line_readable(line@),
        ensures
            *final(self) == apply_meminfo_line(*old(self), line@),
    {
        let cs = chars_of(line);
        self.totalkb = take_in_checked(self.totalkb, &cs, "MemTotal:", true).unwrap();
        self.freekb = take_in_checked(self.freekb, &cs, "MemFree:", false).unwrap();
        self.bufferkb = take_in_checked(self.bufferkb, &cs, "Buffers:", false).unwrap();
        self.cachedkb = take_in_checked(self.cachedkb, &cs, "Cached:", false).unwrap();
        self.avaliablekb = take_in_checked(self.avaliablekb, &cs, "MemAvailable:", false).unwrap();
    }

    /// The statistics of `/proc/meminfo`, read line by line from all zero.
    pub fn from_meminfo_lines(lines: &Vec<String>) -> (s: MemStat)
        requires
            meminfo_readable(lines@),
        ensures
            s == spec_meminfo(lines@),
    {
        let mut s = MemStat { totalkb: 0, freekb: 0, bufferkb: 0, cachedkb: 0, avaliablekb: 0 };
        let mut i: usize = 0;
        while i < lines.len()
            invariant
                i <= lines@.len(),
                meminfo_readable(lines@),
                s == spec_meminfo(lines@.take(i as int)),
            decreases lines@.len() - i,
        {
            assert(meminfo_line_readable(lines@[i as int]@));
            s.read_line(lines[i].as_str());
            assert(lines@.take(i + 1).drop_last() =~= lines@.take(i as int));
            i = i + 1;
        }
        assert(lines@.take(i as int) =~= lines@);
        s
    }
}

} // verus!
