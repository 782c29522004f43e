use media_controller::action::{Action, ActionCommand};
use media_controller::color::Color;

#[test]
fn audio_actions_are_volume_kind() {
    assert!(Action::VolumeToggleMute.is_volume_kind());
    assert!(Action::MicrophoneToggleMute.is_volume_kind());
    assert!(Action::VolumeUp(5).is_volume_kind());
    assert!(Action::VolumeDown(5).is_volume_kind());
    assert!(!Action::BrightnessUp(5).is_volume_kind());
    assert!(!Action::BrightnessDown(5).is_volume_kind());
}

#[test]
fn actions_dispatch_to_signed_commands() {
    assert_eq!(Action::VolumeUp(5).command(), ActionCommand::AdjustVolume(5));
    assert_eq!(Action::VolumeDown(5).command(), ActionCommand::AdjustVolume(-5));
    assert_eq!(Action::BrightnessUp(10).command(), ActionCommand::AdjustBrightness(10));
    assert_eq!(Action::BrightnessDown(10).command(), ActionCommand::AdjustBrightness(-10));
    assert_eq!(Action::VolumeToggleMute.command(), ActionCommand::ToggleVolumeMute);
    assert_eq!(Action::MicrophoneToggleMute.command(), ActionCommand::ToggleMicrophoneMute);
}

#[test]
fn hex_colors_parse_channel_by_channel() {
    assert_eq!(Color::from_hex("#AABBCC"), Some(Color { r: 170, g: 187, b: 204, a: 255 }));
    assert_eq!(Color::from_hex("#aabbcc"), Some(Color { r: 170, g: 187, b: 204, a: 255 }));
    assert_eq!(Color::from_hex("#00000000"), Some(Color { r: 0, g: 0, b: 0, a: 0 }));
    assert_eq!(Color::from_hex("#FF001020"), Some(Color { r: 255, g: 0, b: 16, a: 32 }));
}

#[test]
fn malformed_hex_colors_are_rejected() {
    assert_eq!(Color::from_hex("red"), None);
    assert_eq!(Color::from_hex("#12345"), None);
    assert_eq!(Color::from_hex("112233"), None);
    assert_eq!(Color::from_hex("#GG0000"), None);
    assert_eq!(Color::from_hex(""), None);
}

#[test]
fn color_round_trips_through_its_hex_string() {
    let c = Color::new(255, 0, 16, 32);
    assert_eq!(c.hex_string(), "#FF001020");
    assert_eq!(Color::from_hex(&c.hex_string()), Some(c));
    assert_eq!(Color::default().hex_string(), "#000000FF");
}
