//! The CPU collector: reads the aggregate CPU times out of `/proc/stat` and
//! counts the processors listed in `/proc/cpuinfo`.

use vstd::prelude::*;
use vstd::string::*;
use crate::mario_core::Collector;
use crate::text::{
    decimal, is_separator, lemma_decimal_digits, law_decimal_reads_back, lemma_digit_not_separator,
    lemma_separator_after_run, lemma_spaces_from_grows_back, lemma_spaces_in_suffix, chars_of, count_spaces, field_at, find_separator, has_prefix, parse_u64_range, separator_from,
    lemma_space_ahead, spaces_from, spec_parse_u64, starts_with,
};

verus! {

/// Collects CPU statistics under the name `cpu`.
pub struct CPUCollector {
    pub name: String,
}

/// One sample of CPU statistics.
#[derive(Debug)]
pub struct CPUStat {
    pub usr: u64,
    pub nice: u64,
    pub number_of_cpus: u32,
}

impl Default for CPUStat {
    fn default() -> (s: Self)
        ensures
            s.usr == 0 && s.nice == 0 && s.number_of_cpus == 0,
    {
        CPUStat { usr: 0, nice: 0, number_of_cpus: 0 }
    }
}

impl CPUCollector {
    /// A collector named `cpu`.
    pub fn new() -> (c: Self)
        ensures
            c.name@ == "cpu"@,
    {
        CPUCollector { name: String::from_str("cpu") }
    }
}

impl Collector for CPUCollector {
    open spec fn collector_name(&self) -> Seq<char> {
        self.name@
    }

    fn get_name(&self) -> (name: String) {
        self.name.clone()
    }
}

/// Whether `line` is the aggregate line of `/proc/stat`, the one that starts
/// with `cpu ` (the per-CPU lines carry a number after `cpu`).
pub open spec fn is_cpu_total_line(line: Seq<char>) -> bool {
    has_prefix(line, "cpu "@)
}

/// The index of the first aggregate line at or after `i`, or the number of lines.
pub open spec fn cpu_total_line_from(lines: Seq<String>, i: int) -> int
    decreases lines.len() - i,
{
    if i < 0 || i >= lines.len() {
        lines.len() as int
    } else if is_cpu_total_line(lines[i]@) {
        i
    } else {
        cpu_total_line_from(lines, i + 1)
    }
}

/// Where the numbers of the aggregate line start: after `cpu` and the two
/// characters that follow it.
pub open spec fn cpu_fields_start() -> int {
    5
}

/// The end of the first field of the aggregate line (user time).
pub open spec fn usr_field_end(line: Seq<char>) -> int {
    separator_from(line, cpu_fields_start(), false)
}

/// The user time written on the aggregate line.
pub open spec fn usr_field(line: Seq<char>) -> Seq<char> {
    field_at(line, cpu_fields_start(), false)
}

/// The nice time written on the aggregate line: the field after the user time.
pub open spec fn nice_field(line: Seq<char>) -> Seq<char> {
    field_at(line, usr_field_end(line) + 1, false)
}

/// What an aggregate line must hold to be read: at least one character after
/// `cpu `, the first of them ASCII, nine space-separated fields from there on,
/// and the first two of them numbers.
pub open spec fn cpu_total_line_readable(line: Seq<char>) -> bool {
    &&& line.len() >= 5
    &&& (line[4] as u32) < 128
    &&& spaces_from(line, cpu_fields_start()) >= 8
    &&& spec_parse_u64(usr_field(line)) is Some
    &&& spec_parse_u64(nice_field(line)) is Some
}

/// Whether the lines of `/proc/stat` can be read: the first aggregate line,
/// if there is one, is readable.
pub open spec fn proc_stat_readable(lines: Seq<String>) -> bool {
    let k = cpu_total_line_from(lines, 0);
    k < lines.len() ==> cpu_total_line_readable(lines[k]@)
}

/// The user and nice times of `/proc/stat`, from its first aggregate line;
/// `(0, 0)` when it has none.
pub open spec fn spec_cpu_times(lines: Seq<String>) -> (u64, u64) {
    let k = cpu_total_line_from(lines, 0);
    if k < lines.len() {
        (
            spec_parse_u64(usr_field(lines[k]@)).unwrap(),
            spec_parse_u64(nice_field(lines[k]@)).unwrap(),
        )
    } else {
        (0, 0)
    }
}

/// The number of lines, from index `i` on, that introduce a processor
/// (those that start with `processor` and a tab and a colon).
pub open spec fn processors_from(lines: Seq<String>, i: int) -> nat
    decreases lines.len() - i,
{
    if i < 0 || i >= lines.len() {
        0
    } else {
        (if has_prefix(lines[i]@, "processor\t:"@) { 1nat } else { 0nat }) + processors_from(lines, i + 1)
    }
}

/// The number of processors that `/proc/cpuinfo` lists.
pub open spec fn spec_count_processors(lines: Seq<String>) -> nat {
    processors_from(lines, 0)
}

proof fn lemma_processors_bound(lines: Seq<String>, i: int)
    requires
        0 <= i <= lines.len(),
    ensures
        processors_from(lines, i) <= lines.len() - i,
    decreases lines.len() - i,
{
    if i < lines.len() {
        lemma_processors_bound(lines, i + 1);
    }
}

/// No more processors are counted than there are lines, so a file of at
/// most `u32::MAX` lines can always be counted.
pub proof fn law_processors_at_most_lines(lines: Seq<String>)
    ensures
        spec_count_processors(lines) <= lines.len(),
{
    lemma_processors_bound(lines, 0);
}

proof fn lemma_first_aggregate_at(lines: Seq<String>, i: int, k: int)
    requires
        0 <= i <= k < lines.len(),
        is_cpu_total_line(lines[k]@),
        forall|j: int| 0 <= j < k ==> !is_cpu_total_line(#[trigger] lines[j]@),
    ensures
        cpu_total_line_from(lines, i) == k,
    decreases k - i,
{
    if i < k {
        lemma_first_aggregate_at(lines, i + 1, k);
    }
}

/// What `/proc/stat` is read for: where the first line that starts with
/// `cpu ` reads `cpu`, two spaces, the user time, a space, the nice time, a
/// space and at least six more spaces' worth of fields, the times returned
/// are exactly those two numbers, whatever their size.
pub proof fn law_cpu_times_are_the_first_two_fields(
    lines: Seq<String>,
    k: int,
    usr: u64,
    nice: u64,
    rest: Seq<char>,
)
    requires
        0 <= k < lines.len(),
        forall|j: int| 0 <= j < k ==> !has_prefix(#[trigger] lines[j]@, "cpu "@),
        lines[k]@ == "cpu  "@ + decimal(usr as nat) + " "@ + decimal(nice as nat) + " "@ + rest,
        spaces_from(rest, 0) >= 6,
    ensures
        proc_stat_readable(lines),
        spec_cpu_times(lines) == (usr, nice),
{
    reveal_strlit("cpu  ");
    reveal_strlit("cpu ");
    reveal_strlit(" ");
    let a = "cpu  "@;
    let d1 = decimal(usr as nat);
    let d2 = decimal(nice as nat);
    let sp = " "@;
    let p = a + d1 + sp + d2 + sp;
    let line = lines[k]@;
    assert(line =~= p + rest);
    lemma_decimal_digits(usr as nat);
    lemma_decimal_digits(nice as nat);
    law_decimal_reads_back(usr);
    law_decimal_reads_back(nice);
    // the line is the first aggregate line
    assert(line.subrange(0, 4) =~= "cpu "@);
    lemma_first_aggregate_at(lines, 0, k);
    // the user time
    let e1: int = 5 + d1.len() as int;
    assert forall|j: int| 5 <= j < e1 implies !is_separator(#[trigger] line[j], false) by {
        assert(line[j] == d1[j - 5]);
        lemma_digit_not_separator(d1[j - 5], false);
    }
    assert(line[e1] == ' ');
    lemma_separator_after_run(line, 5, e1, false);
    assert(usr_field(line) =~= d1);
    // the nice time
    let s2: int = e1 + 1;
    let e2: int = s2 + d2.len() as int;
    assert forall|j: int| s2 <= j < e2 implies !is_separator(#[trigger] line[j], false) by {
        assert(line[j] == d2[j - s2]);
        lemma_digit_not_separator(d2[j - s2], false);
    }
    assert(line[e2] == ' ');
    lemma_separator_after_run(line, s2, e2, false);
    assert(nice_field(line) =~= d2);
    // the spaces
    lemma_spaces_from_grows_back(line, 5, e1);
    lemma_spaces_from_grows_back(line, s2, e2);
    lemma_spaces_in_suffix(p, rest, 0);
    assert(p.len() == e2 + 1);
    assert(spaces_from(line, e1) == 1 + spaces_from(line, s2));
    assert(spaces_from(line, e2) == 1 + spaces_from(line, e2 + 1));
}

proof fn lemma_processors_push(lines: Seq<String>, l: String, i: int)
    requires
        0 <= i <= lines.len(),
    ensures
        processors_from(lines.push(l), i) == processors_from(lines, i) + (if has_prefix(
            l@,
            "processor\t:"@,
        ) {
            1nat
        } else {
            0nat
        }),
    decreases lines.len() - i,
{
    if i < lines.len() {
        lemma_processors_push(lines, l, i + 1);
        assert(lines.push(l)[i] == lines[i]);
    } else {
        assert(lines.push(l)[i] == l);
        assert(processors_from(lines.push(l), i + 1) == 0);
        assert(processors_from(lines, i) == 0);
    }
}

/// What `/proc/cpuinfo` is read for: no lines list no processor, and one more
/// line adds one to the count exactly when it starts with `processor`, a tab
/// and a colon, whatever follows; any other line adds nothing.
pub proof fn law_each_processor_line_counts_once(lines: Seq<String>, l: String)
    ensures
        spec_count_processors(Seq::<String>::empty()) == 0,
        spec_count_processors(lines.push(l)) == spec_count_processors(lines) + (if has_prefix(
            l@,
            "processor\t:"@,
        ) {
            1nat
        } else {
            0nat
        }),
{
    lemma_processors_push(lines, l, 0);
}

/// Whether the aggregate line `line` can be read (see `cpu_total_line_readable`).
pub fn cpu_line_readable(line: &str) -> (b: bool)
    ensures
        b == cpu_total_line_readable(line@),
{
    let cs = chars_of(line);
    if cs.len() < 5 || (cs[4] as u32) >= 128 {
        return false;
    }
    if count_spaces(&cs, 5) < 8 {
        return false;
    }
    let end0 = find_separator(&cs, 5, false);
    proof {
        lemma_space_ahead(cs@, 5);
    }
    if parse_u64_range(&cs, 5, end0).is_none() {
        return false;
    }
    let end1 = find_separator(&cs, end0 + 1, false);
    parse_u64_range(&cs, end0 + 1, end1).is_some()
}

/// Whether the lines of `/proc/stat` can be read by `cpu_times`.
pub fn proc_stat_lines_readable(lines: &Vec<String>) -> (b: bool)
    ensures
        b == proc_stat_readable(lines@),
{
    let mut i: usize = 0;
    while i < lines.len()
        invariant
            i <= lines@.len(),
            cpu_total_line_from(lines@, i as int) == cpu_total_line_from(lines@, 0),
        decreases lines@.len() - i,
    {
        let cs = chars_of(lines[i].as_str());
        if starts_with(&cs, "cpu ") {
            return cpu_line_readable(lines[i].as_str());
        }
        i = i + 1;
    }
    true
}

/// The user and nice times from the lines of `/proc/stat`: the first two
/// fields of the first line that starts with `cpu `, or `(0, 0)` without one.
pub fn cpu_times(lines: &Vec<String>) -> (r: (u64, u64))
    requires
        proc_stat_readable(lines@),
    ensures
        r == spec_cpu_times(lines@),
{
    let mut i: usize = 0;
    while i < lines.len()
        invariant
            i <= lines@.len(),
            cpu_total_line_from(lines@, i as int) == cpu_total_line_from(lines@, 0),
            proc_stat_readable(lines@),
        decreases lines@.len() - i,
    {
        let cs = chars_of(lines[i].as_str());
        if starts_with(&cs, "cpu ") {
            let end0 = find_separator(&cs, 5, false);
            let usr = parse_u64_range(&cs, 5, end0).unwrap();
            proof {
                lemma_space_ahead(cs@, 5);
            }
            let end1 = find_separator(&cs, end0 + 1, false);
            let nice = parse_u64_range(&cs, end0 + 1, end1).unwrap();
            return (usr, nice);
        }
        i = i + 1;
    }
    (0, 0)
}

/// The number of processors listed in `/proc/cpuinfo`: the lines that start
/// with `processor` followed by a tab and a colon.
pub fn count_processors(lines: &Vec<String>) -> (n: u32)
    requires
        spec_count_processors(lines@) <= u32::MAX,
    ensures
        n == spec_count_processors(lines@),
{
    let mut i: usize = lines.len();
    let mut n: u32 = 0;
    while i > 0
        invariant
            i <= lines@.len(),
            n == processors_from(lines@, i as int),
            spec_count_processors(lines@) <= u32::MAX,
        decreases i,
    {
        i = i - 1;
        let cs = chars_of(lines[i].as_str());
        proof {
            lemma_processors_prefix_sum(lines@, 0, i as int);
        }
        if starts_with(&cs, "processor\t:") {
            n = n + 1;
        }
    }
    n
}

proof fn lemma_processors_prefix_sum(lines: Seq<String>, i: int, j: int)
    requires
        0 <= i <= j <= lines.len(),
    ensures
        processors_from(lines, i) >= processors_from(lines, j),
    decreases j - i,
{
    if i < j {
        lemma_processors_prefix_sum(lines, i + 1, j);
    }
}

/// The statistics that one collection gives: the times from the lines of
/// `/proc/stat` and the number of processors from those of `/proc/cpuinfo`.
pub fn cpu_stat(proc_stat: &Vec<String>, cpuinfo: &Vec<String>) -> (s: CPUStat)
    requires
        proc_stat_readable(proc_stat@),
        spec_count_processors(cpuinfo@) <= u32::MAX,
    ensures
        s.usr == spec_cpu_times(proc_stat@).0,
        s.nice == spec_cpu_times(proc_stat@).1,
        s.number_of_cpus == spec_count_processors(cpuinfo@),
{
    let (usr, nice) = cpu_times(proc_stat);
    let number_of_cpus = count_processors(cpuinfo);
    CPUStat { usr, nice, number_of_cpus }
}

} // verus!
