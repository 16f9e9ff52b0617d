use mario::cpu::{count_processors, cpu_line_readable, cpu_stat, cpu_times, proc_stat_lines_readable, CPUCollector, CPUStat};
use mario::mario_core::Collector;

fn lines(text: &str) -> Vec<String> {
    text.lines().map(|l| l.to_string()).collect()
}

const PROC_STAT: &str = "cpu  10132153 290696 3084719 46828483 16683 0 25195 0 175628 0\n\
cpu0 1393280 32966 572056 13343292 6130 0 17875 0 23933 0\n\
intr 1462898 0 0\n";

#[test]
fn cpu_collector_is_named_cpu() {
    let c = CPUCollector::new();
    assert_eq!(c.name, "cpu");
    assert_eq!(c.get_name(), "cpu");
}

#[test]
fn cpu_times_come_from_the_aggregate_line() {
    let l = lines(PROC_STAT);
    assert!(proc_stat_lines_readable(&l));
    assert_eq!(cpu_times(&l), (10132153, 290696));
}

#[test]
fn only_the_first_aggregate_line_counts() {
    let l = lines("cpu  1 2 3 4 5 6 7 8 9\ncpu  7 8 3 4 5 6 7 8 9\n");
    assert_eq!(cpu_times(&l), (1, 2));
}

#[test]
fn without_an_aggregate_line_the_times_are_zero() {
    let l = lines("cpu0 1 2 3 4 5 6 7 8 9\nintr 5\n");
    assert!(proc_stat_lines_readable(&l));
    assert_eq!(cpu_times(&l), (0, 0));
    assert_eq!(cpu_times(&Vec::new()), (0, 0));
}

#[test]
fn aggregate_lines_that_cannot_be_read() {
    // fewer than nine fields
    assert!(!cpu_line_readable("cpu  1 2 3 4 5 6 7 8"));
    // nothing after "cpu "
    assert!(!cpu_line_readable("cpu "));
    // a first field that is no number
    assert!(!cpu_line_readable("cpu  x 2 3 4 5 6 7 8 9"));
    // a second field that is no number
    assert!(!cpu_line_readable("cpu  1 -2 3 4 5 6 7 8 9"));
    // a character after "cpu " that is not one byte long
    assert!(!cpu_line_readable("cpu é1 2 3 4 5 6 7 8 9"));
    assert!(cpu_line_readable("cpu  1 2 3 4 5 6 7 8 9"));
    assert!(cpu_line_readable("cpu  +1 2 3 4 5 6 7 8 9"));
    assert!(!proc_stat_lines_readable(&lines("intr 1\ncpu  1 2\n")));
}

#[test]
fn a_single_space_after_cpu_moves_the_fields() {
    // the fields are read from the sixth character on, as /proc/stat writes two spaces
    let l = lines("cpu 12 34 5 6 7 8 9 10 11 12\n");
    assert!(proc_stat_lines_readable(&l));
    assert_eq!(cpu_times(&l), (2, 34));
}

#[test]
fn processors_are_counted_by_their_lines() {
    let l = lines("processor\t: 0\nmodel name\t: x\n\nprocessor\t: 1\nprocessor : 2\nprocessor\t: 3\n");
    assert_eq!(count_processors(&l), 3);
    assert_eq!(count_processors(&Vec::new()), 0);
}

#[test]
fn cpu_stat_combines_both_files() {
    let s: CPUStat = cpu_stat(&lines(PROC_STAT), &lines("processor\t: 0\nprocessor\t: 1\n"));
    assert_eq!(s.usr, 10132153);
    assert_eq!(s.nice, 290696);
    assert_eq!(s.number_of_cpus, 2);
    let d = CPUStat::default();
    assert_eq!((d.usr, d.nice, d.number_of_cpus), (0, 0, 0));
}
