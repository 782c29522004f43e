use media_controller::volume::{
    get_brightness, get_microphone_mute, get_volume, get_volume_mute, volume_increment_allowed,
};

#[test]
fn volume_line_yields_percentage() {
    assert_eq!(get_volume("Volume: 0.52"), Some(52));
    assert_eq!(get_volume("Volume: 0.52\n"), Some(52));
    assert_eq!(get_volume("Volume: 1.0"), Some(100));
    assert_eq!(get_volume("Volume: 0.0"), Some(0));
}

#[test]
fn muted_volume_line_still_yields_percentage() {
    assert_eq!(get_volume("Volume: 0.40 [MUTED]"), Some(40));
}

#[test]
fn third_decimal_rounds_half_up() {
    assert_eq!(get_volume("Volume: 0.525"), Some(53));
    assert_eq!(get_volume("Volume: 0.524"), Some(52));
}

#[test]
fn huge_volume_clamps_to_a_byte() {
    assert_eq!(get_volume("Volume: 9.99"), Some(255));
}

#[test]
fn malformed_volume_lines_yield_nothing() {
    assert_eq!(get_volume("Volume:"), None);
    assert_eq!(get_volume("Volume: abc"), None);
    assert_eq!(get_volume("Volume: 1.2.3"), None);
    assert_eq!(get_volume("Volume:  0.5"), None);
    assert_eq!(get_volume(""), None);
}

#[test]
fn mute_flags_come_from_the_status_text() {
    assert!(get_volume_mute("Volume: 0.40 [MUTED]"));
    assert!(!get_volume_mute("Volume: 0.40"));
    assert!(get_microphone_mute("Volume: 1.00 [MUTED]\n"));
    assert!(!get_microphone_mute(""));
}

#[test]
fn brightness_file_content_is_trimmed_and_parsed() {
    assert_eq!(get_brightness("42\n"), Some(42));
    assert_eq!(get_brightness("  100  "), Some(100));
    assert_eq!(get_brightness("300"), None);
    assert_eq!(get_brightness("4a2"), None);
    assert_eq!(get_brightness(""), None);
}

#[test]
fn volume_increase_stops_at_the_top() {
    assert!(volume_increment_allowed(5, 95));
    assert!(!volume_increment_allowed(5, 100));
    assert!(volume_increment_allowed(-5, 100));
    assert!(volume_increment_allowed(0, 100));
}
