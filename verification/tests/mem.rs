use mario::mario_core::Collector;
use mario::mem::{MemCollector, MemStat};

fn lines(text: &str) -> Vec<String> {
    text.lines().map(|l| l.to_string()).collect()
}

const MEMINFO: &str = "MemTotal:       16316372 kB\n\
MemFree:          811216 kB\n\
MemAvailable:    9417208 kB\n\
Buffers:          574328 kB\n\
Cached:          8112244 kB\n\
SwapCached:        11820 kB\n\
Active:          9092920 kB\n";

#[test]
fn mem_collector_is_named_mem() {
    assert_eq!(MemCollector::new().get_name(), "mem");
}

#[test]
fn meminfo_is_read() {
    let l = lines(MEMINFO);
    assert!(l.iter().all(|x| MemStat::line_readable(x)));
    let s = MemStat::from_meminfo_lines(&l);
    assert_eq!(
        s,
        MemStat { totalkb: 16316372, freekb: 811216, bufferkb: 574328, cachedkb: 8112244, avaliablekb: 9417208 }
    );
}

#[test]
fn the_last_line_of_a_key_wins_and_other_keys_are_ignored() {
    let l = lines("Cached: 5 kB\nSwapCached: 7 kB\nCached: 9 kB\nHugePages_Total: 3\n");
    let s = MemStat::from_meminfo_lines(&l);
    assert_eq!(s, MemStat { totalkb: 0, freekb: 0, bufferkb: 0, cachedkb: 9, avaliablekb: 0 });
    assert_eq!(MemStat::from_meminfo_lines(&Vec::new()), MemStat::default());
}

#[test]
fn the_total_ends_at_any_whitespace_the_others_at_a_space() {
    assert!(MemStat::line_readable("MemTotal:\t42\tkB"));
    let mut s = MemStat::default();
    s.read_line("MemTotal:\t42\tkB");
    assert_eq!(s.totalkb, 42);
    assert!(!MemStat::line_readable("MemFree:\t42\tkB"));
    assert!(MemStat::line_readable("MemFree:\t42 kB"));
    s.read_line("MemFree:\t42 kB");
    assert_eq!(s.freekb, 42);
}

#[test]
fn lines_that_cannot_be_read() {
    assert!(!MemStat::line_readable("MemTotal:"));
    assert!(!MemStat::line_readable("MemTotal: kB"));
    assert!(!MemStat::line_readable("Buffers: -1 kB"));
    assert!(!MemStat::line_readable("MemAvailable: 99999999999999999999 kB"));
    assert!(MemStat::line_readable("Anything: at all"));
    assert!(MemStat::line_readable(""));
}
