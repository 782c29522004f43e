//! Building the status label the overlay shows: a ten-slot progress bar with
//! a right-aligned percentage, or one of the fixed mute texts.

use crate::action::Action;
use crate::text::{dec_rep, push_char, push_decimal, push_repeat, repeat_char};
use vstd::prelude::*;
use vstd::string::StringExecFns;

verus! {

/// How many fully filled slots the bar shows for a percentage.
pub open spec fn bar_fill_count(pct: u8) -> nat {
    (pct / 10) as nat
}

/// The middle slot of the bar: absent at a full hundred, half filled in the
/// lower half of a started tenth, empty otherwise.
pub open spec fn bar_middle(pct: u8, half_full: char, empty: char) -> Seq<char> {
    if pct == 100 {
        Seq::empty()
    } else if 1 <= pct % 10 <= 5 {
        seq![half_full]
    } else {
        seq![empty]
    }
}

/// How many empty slots follow the middle slot.
pub open spec fn bar_empty_count(pct: u8) -> nat {
    if pct / 10 >= 9 {
        0
    } else {
        (9 - pct / 10) as nat
    }
}

/// How many spaces right-align the percentage in a four-column field.
pub open spec fn bar_pad_count(pct: u8) -> nat {
    if dec_rep(pct as nat).len() >= 4 {
        0
    } else {
        (4 - dec_rep(pct as nat).len()) as nat
    }
}

/// The whole progress bar: filled slots, the middle slot, empty slots, then
/// the percentage right-aligned in four columns and a percent sign.
pub open spec fn spec_progress_bar(pct: u8, full: char, half_full: char, empty: char) -> Seq<
    char,
> {
    repeat_char(full, bar_fill_count(pct)) + bar_middle(pct, half_full, empty) + repeat_char(
        empty,
        bar_empty_count(pct),
    ) + repeat_char(' ', bar_pad_count(pct)) + dec_rep(pct as nat) + seq!['%']
}

/// The length of a number's decimal representation, for values up to three
/// digits.
pub proof fn lemma_dec_rep_len(n: nat)
    ensures
        n < 10 ==> dec_rep(n).len() == 1,
        10 <= n < 100 ==> dec_rep(n).len() == 2,
        100 <= n < 1000 ==> dec_rep(n).len() == 3,
    decreases n,
{
    if n >= 10 {
        lemma_dec_rep_len(n / 10);
    }
}

/// Renders the ten-slot progress bar for a percentage.
pub fn progress_bar(percentage: u8, full: char, half_full: char, empty: char) -> (r: String)
    requires
        percentage <= 100,
    ensures
        r@ == spec_progress_bar(percentage, full, half_full, empty),
{
    let filled: usize = (percentage / 10) as usize;
    let mut s = String::new();
    push_repeat(&mut s, full, filled);
    if percentage != 100 {
        let rem = percentage % 10;
        if 1 <= rem && rem <= 5 {
            push_char(&mut s, half_full);
        } else {
            push_char(&mut s, empty);
        }
    }
    let empties: usize = if filled >= 9 {
        0
    } else {
        9 - filled
    };
    push_repeat(&mut s, empty, empties);
    let digits: usize = if percentage < 10 {
        1
    } else if percentage < 100 {
        2
    } else {
        3
    };
    proof {
        lemma_dec_rep_len(percentage as nat);
    }
    push_repeat(&mut s, ' ', 4 - digits);
    push_decimal(&mut s, percentage as u32);
    push_char(&mut s, '%');
    proof {
        assert(s@ =~= spec_progress_bar(percentage, full, half_full, empty));
    }
    s
}

/// The label for an action, given the device state the executor reported:
/// the microphone toggle shows its mute state, brightness actions show a
/// brightness bar, a muted volume shows a fixed text, and every other volume
/// action shows a volume bar.
pub open spec fn spec_label(
    action: Action,
    mic_muted: bool,
    volume_muted: bool,
    volume: u8,
    brightness: u8,
    full: char,
    half_full: char,
    empty: char,
) -> Seq<char> {
    if action is MicrophoneToggleMute {
        if mic_muted {
            "MIC OFF"@
        } else {
            "MIC ON"@
        }
    } else if action is BrightnessUp || action is BrightnessDown {
        "BRT: "@ + spec_progress_bar(brightness, full, half_full, empty)
    } else if volume_muted {
        "MUTED"@
    } else {
        "VOL: "@ + spec_progress_bar(volume, full, half_full, empty)
    }
}

/// Renders the label for an action from the device state the executor
/// reported.
pub fn label_for(
    action: Action,
    mic_muted: bool,
    volume_muted: bool,
    volume: u8,
    brightness: u8,
    full: char,
    half_full: char,
    empty: char,
) -> (r: String)
    requires
        volume <= 100,
        brightness <= 100,
    ensures
        r@ == spec_label(action, mic_muted, volume_muted, volume, brightness, full, half_full, empty),
{
    if matches!(action, Action::MicrophoneToggleMute) {
        if mic_muted {
            return String::from_str("MIC OFF");
        } else {
            return String::from_str("MIC ON");
        }
    }
    if !action.is_volume_kind() {
        let mut s = String::from_str("BRT: ");
        let bar = progress_bar(brightness, full, half_full, empty);
        s.append(bar.as_str());
        return s;
    }
    if volume_muted {
        return String::from_str("MUTED");
    }
    let mut s = String::from_str("VOL: ");
    let bar = progress_bar(volume, full, half_full, empty);
    s.append(bar.as_str());
    s
}

/// The magnitude of a signed step, as the executor's command line wants it:
/// the digits, a percent sign, then the direction.
pub open spec fn spec_formatted_value(value: i8) -> Seq<char> {
    let m = if value < 0 {
        -(value as int)
    } else {
        value as int
    };
    dec_rep(m as nat) + seq!['%'] + seq![if value < 0 { '-' } else { '+' }]
}

/// Formats a signed step for the executor's command line.
pub fn get_formatted_value(value: i8) -> (r: String)
    requires
        value != i8::MIN,
    ensures
        r@ == spec_formatted_value(value),
{
    let m: u32 = if value < 0 {
        (-(value as i32)) as u32
    } else {
        value as u32
    };
    let mut s = String::new();
    push_decimal(&mut s, m);
    push_char(&mut s, '%');
    if value < 0 {
        push_char(&mut s, '-');
    } else {
        push_char(&mut s, '+');
    }
    proof {
        assert(s@ =~= spec_formatted_value(value));
    }
    s
}

} // verus!
