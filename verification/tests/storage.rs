use mario::storage::{belongs_to_container, container_key, container_of, pauses_after};

#[test]
fn keys_are_written_as_the_writer_formats_them() {
    for i in [0u64, 19, 20, 740, 999] {
        let id = container_of(i);
        assert_eq!(id, (i - i % 20) / 20);
        assert_eq!(container_key(1625897002, id), format!("{}@container{:04}", 1625897002u64, id));
    }
    assert_eq!(container_key(5, 12345), "5@container12345");
}

#[test]
fn the_reader_picks_its_container() {
    let k = container_key(1625897010, 37);
    assert_eq!(k, "1625897010@container0037");
    assert!(belongs_to_container(&k, 37));
    assert!(!belongs_to_container(&k, 36));
    assert!(!belongs_to_container(&container_key(1, 10037), 37));
    assert!(!belongs_to_container(&container_key(1, 37), 10037));
    assert!(belongs_to_container("xcontainer0037", 37));
}

#[test]
fn the_writer_pauses_every_fifty_samples() {
    assert!(pauses_after(0));
    assert!(!pauses_after(49));
    assert!(pauses_after(50));
    assert!(pauses_after(950));
}
