use media_controller::action::Action;
use media_controller::cli::{Cli, MediaController};
use media_controller::color::Color;

fn args(words: &[&str]) -> Vec<String> {
    words.iter().map(|w| w.to_string()).collect()
}

#[test]
fn bare_action_gets_defaults() {
    let c = MediaController::from_args(&args(&["v", "mute"])).unwrap();
    assert_eq!(c.action, Action::VolumeToggleMute);
    assert_eq!(c.width, 300);
    assert_eq!(c.height, 20);
    assert_eq!(c.bottom, 100);
    assert_eq!(c.duration_ms, 2000);
    assert_eq!(c.color, Color { r: 0, g: 0, b: 0, a: 255 });
    assert_eq!(c.font_description, "Monospace 13");
    assert_eq!(c.filled, '\u{2588}');
    assert_eq!(c.half_filled, '\u{258c}');
    assert_eq!(c.empty, ' ');
}

#[test]
fn microphone_mute_action() {
    let c = MediaController::from_args(&args(&["m", "mute"])).unwrap();
    assert_eq!(c.action, Action::MicrophoneToggleMute);
}

#[test]
fn delta_actions_carry_their_magnitude() {
    let c = MediaController::from_args(&args(&["v", "up", "5"])).unwrap();
    assert_eq!(c.action, Action::VolumeUp(5));
    let c = MediaController::from_args(&args(&["v", "down", "10"])).unwrap();
    assert_eq!(c.action, Action::VolumeDown(10));
    let c = MediaController::from_args(&args(&["b", "up", "15"])).unwrap();
    assert_eq!(c.action, Action::BrightnessUp(15));
    let c = MediaController::from_args(&args(&["b", "down", "20"])).unwrap();
    assert_eq!(c.action, Action::BrightnessDown(20));
}

#[test]
fn options_override_defaults() {
    let c = MediaController::from_args(
        &args(&["--width=400", "--height=30", "--bottom=50", "b", "up", "10"]),
    )
    .unwrap();
    assert_eq!(c.width, 400);
    assert_eq!(c.height, 30);
    assert_eq!(c.bottom, 50);
    assert_eq!(c.action, Action::BrightnessUp(10));
}

#[test]
fn duration_is_parsed_to_milliseconds() {
    let c = MediaController::from_args(&args(&["--duration=1.5", "v", "mute"])).unwrap();
    assert_eq!(c.duration_ms, 1500);
    let c = MediaController::from_args(&args(&["--duration=3", "v", "mute"])).unwrap();
    assert_eq!(c.duration_ms, 3000);
    let c = MediaController::from_args(&args(&["--duration=0.25", "v", "mute"])).unwrap();
    assert_eq!(c.duration_ms, 250);
}

#[test]
fn color_option_takes_hex_with_optional_quotes() {
    let c = MediaController::from_args(&args(&["--color=#FF000080", "v", "mute"])).unwrap();
    assert_eq!(c.color, Color { r: 255, g: 0, b: 0, a: 128 });
    let c = MediaController::from_args(&args(&["--color=\"#00FF00\"", "v", "mute"])).unwrap();
    assert_eq!(c.color, Color { r: 0, g: 255, b: 0, a: 255 });
}

#[test]
fn font_description_strips_quotes() {
    let c =
        MediaController::from_args(&args(&["--font-description=\"Sans 10\"", "v", "mute"]))
            .unwrap();
    assert_eq!(c.font_description, "Sans 10");
}

#[test]
fn bar_characters_must_be_single() {
    let c = MediaController::from_args(&args(&["--filled=*", "v", "mute"])).unwrap();
    assert_eq!(c.filled, '*');
    assert!(MediaController::from_args(&args(&["--filled=ab", "v", "mute"])).is_none());
}

#[test]
fn malformed_command_lines_are_rejected() {
    assert!(MediaController::from_args(&args(&[])).is_none());
    assert!(MediaController::from_args(&args(&["x"])).is_none());
    assert!(MediaController::from_args(&args(&["v", "sideways"])).is_none());
    assert!(MediaController::from_args(&args(&["v", "up", "300"])).is_none());
    assert!(MediaController::from_args(&args(&["v", "up", "ten"])).is_none());
    assert!(MediaController::from_args(&args(&["--width=abc", "v", "mute"])).is_none());
    assert!(MediaController::from_args(&args(&["--width", "v", "mute"])).is_none());
    assert!(MediaController::from_args(&args(&["--sideways=1", "v", "mute"])).is_none());
    assert!(MediaController::from_args(&args(&["--color=#12345", "v", "mute"])).is_none());
}

#[test]
fn trait_entry_point_matches_inherent_parser() {
    let through_trait: Option<MediaController> = Cli::from_args(&args(&["v", "up", "5"]));
    assert_eq!(through_trait.unwrap().action, Action::VolumeUp(5));
}

#[test]
fn default_trait_gives_default_configuration() {
    let c = MediaController::default();
    assert_eq!(c.width, 300);
    assert_eq!(c.duration_ms, 2000);
    assert_eq!(c.action, Action::VolumeToggleMute);
}
