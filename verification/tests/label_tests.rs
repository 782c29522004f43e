use media_controller::action::Action;
use media_controller::label::{get_formatted_value, label_for, progress_bar};

#[test]
fn bar_at_even_tenth_has_empty_middle() {
    assert_eq!(progress_bar(50, '#', '+', '.'), "#####.....  50%");
}

#[test]
fn bar_in_lower_half_of_tenth_is_half_filled() {
    assert_eq!(progress_bar(55, '#', '+', '.'), "#####+....  55%");
    assert_eq!(progress_bar(51, '#', '+', '.'), "#####+....  51%");
}

#[test]
fn bar_in_upper_half_of_tenth_has_empty_middle() {
    assert_eq!(progress_bar(56, '#', '+', '.'), "#####.....  56%");
    assert_eq!(progress_bar(59, '#', '+', '.'), "#####.....  59%");
}

#[test]
fn bar_at_zero_is_all_empty() {
    assert_eq!(progress_bar(0, '#', '+', '.'), "..........   0%");
}

#[test]
fn bar_at_hundred_is_all_filled() {
    assert_eq!(progress_bar(100, '#', '+', '.'), "########## 100%");
}

#[test]
fn bar_with_block_characters() {
    assert_eq!(
        progress_bar(25, '\u{2588}', '\u{258c}', ' '),
        "\u{2588}\u{2588}\u{258c}         25%"
    );
}

#[test]
fn microphone_labels_show_mute_state() {
    let a = Action::MicrophoneToggleMute;
    assert_eq!(label_for(a, true, false, 50, 50, '#', '+', '.'), "MIC OFF");
    assert_eq!(label_for(a, false, false, 50, 50, '#', '+', '.'), "MIC ON");
}

#[test]
fn muted_volume_shows_fixed_text() {
    let a = Action::VolumeUp(5);
    assert_eq!(label_for(a, false, true, 50, 50, '#', '+', '.'), "MUTED");
}

#[test]
fn volume_label_shows_volume_bar() {
    let a = Action::VolumeDown(5);
    assert_eq!(label_for(a, false, false, 70, 30, '#', '+', '.'), "VOL: #######...  70%");
}

#[test]
fn brightness_label_shows_brightness_bar() {
    let a = Action::BrightnessUp(5);
    assert_eq!(label_for(a, false, false, 70, 30, '#', '+', '.'), "BRT: ###.......  30%");
}

#[test]
fn formatted_value_carries_sign_after_percent() {
    assert_eq!(get_formatted_value(5), "5%+");
    assert_eq!(get_formatted_value(-3), "3%-");
    assert_eq!(get_formatted_value(0), "0%+");
    assert_eq!(get_formatted_value(127), "127%+");
    assert_eq!(get_formatted_value(-127), "127%-");
}
