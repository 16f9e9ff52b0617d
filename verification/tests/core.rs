use mario::mario_core::get_current_timestamp;

#[test]
fn the_timestamp_is_in_seconds_since_the_epoch() {
    let t = get_current_timestamp().unwrap();
    let std_now = std::time::SystemTime::now().duration_since(std::time::UNIX_EPOCH).unwrap().as_secs();
    assert!(t <= std_now && std_now - t <= 5);
    assert!(t > 1_600_000_000);
}
