use mario::cpu::CPUCollector;
use mario::mario_core::Collector;
use mario::mem::MemCollector;
use mario::registry::Registry;

fn cpu_named(name: &str) -> Box<dyn Collector> {
    Box::new(CPUCollector { name: name.to_string() })
}

#[test]
fn test_registry() {
    let mut r: Registry<Box<dyn Collector>> = Registry::new();
    let collector = CPUCollector::new();
    r.register(Box::new(collector));
    assert_eq!(r.collectors().len(), 1);
}

#[test]
fn test_default_registry() {
    let mut registry: Registry<Box<dyn Collector>> = Registry::new();
    registry.register(Box::new(CPUCollector::new()));
    assert_eq!(registry.collectors().len(), 1);

    registry.unregister(Box::new(CPUCollector::new()));
    assert_eq!(registry.collectors().len(), 0);
}

#[test]
fn registering_a_taken_name_keeps_the_first() {
    let mut r: Registry<Box<dyn Collector>> = Registry::new();
    r.register(cpu_named("cpu"));
    r.register(Box::new(MemCollector { name: "cpu".to_string() }));
    r.register(cpu_named("disk"));
    let mut names = r.collectors();
    names.sort();
    assert_eq!(names, vec!["cpu".to_string(), "disk".to_string()]);
    assert_eq!(r.len(), 2);
}

#[test]
fn unregistering_an_unknown_name_changes_nothing() {
    let mut r: Registry<Box<dyn Collector>> = Registry::new();
    r.register(Box::new(MemCollector::new()));
    r.unregister(cpu_named("other"));
    assert_eq!(r.collectors(), vec!["mem".to_string()]);
}

#[test]
fn unregister_undoes_register() {
    let mut r: Registry<Box<dyn Collector>> = Registry::new();
    r.register(cpu_named("a"));
    r.register(cpu_named("b"));
    r.unregister(cpu_named("a"));
    assert_eq!(r.collectors(), vec!["b".to_string()]);
    r.register(cpu_named("a"));
    r.unregister(Box::new(MemCollector { name: "a".to_string() }));
    assert_eq!(r.collectors(), vec!["b".to_string()]);
}

#[test]
fn registry_describes_itself() {
    let mut r: Registry<Box<dyn Collector>> = Registry::new();
    assert_eq!(r.describe(), "Registry (0 collectors)");
    r.register(Box::new(CPUCollector::new()));
    r.register(Box::new(MemCollector::new()));
    assert_eq!(r.describe(), "Registry (2 collectors)");
}

#[test]
fn a_registry_of_one_kind() {
    let mut r: Registry<CPUCollector> = Registry::new();
    r.register(CPUCollector::new());
    assert_eq!(r.collectors(), vec!["cpu".to_string()]);
}

#[test]
fn the_last_call_for_a_name_decides() {
    let mut r: Registry<Box<dyn Collector>> = Registry::new();
    r.register(cpu_named("a"));
    r.register(cpu_named("b"));
    r.unregister(cpu_named("a"));
    r.register(cpu_named("a"));
    r.unregister(cpu_named("b"));
    r.register(cpu_named("c"));
    r.unregister(cpu_named("c"));
    r.unregister(cpu_named("d"));
    assert_eq!(r.collectors(), vec!["a".to_string()]);
    assert_eq!(r.len(), 1);
}
