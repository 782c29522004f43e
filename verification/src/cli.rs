//! The command line grammar: leading `--option=value` settings, then the
//! action words.  The binary hands the raw arguments in; everything they
//! mean is decided here.

use crate::action::Action;
use crate::color::{spec_from_hex, Color};
use crate::text::{
    find_char, find_from, parse_scaled, parse_u32, parse_u8, spec_parse_u32, spec_parse_u8,
    spec_scaled_value, str_eq, trim, trim_spec, TrimClass,
};
use vstd::prelude::*;
use vstd::string::{StrSliceExecFns, StringExecFns};

verus! {

/// The overlay's configuration: the action to perform and the display
/// parameters.  The window lifetime is held in whole milliseconds.
pub struct MediaController {
    pub action: Action,
    pub color: Color,
    pub font_description: String,
    pub width: u32,
    pub height: u32,
    pub bottom: u32,
    pub duration_ms: u32,
    pub filled: char,
    pub half_filled: char,
    pub empty: char,
}

/// Ghost image of a configuration.
pub ghost struct MediaControllerView {
    pub action: Action,
    pub color: Color,
    pub font_description: Seq<char>,
    pub width: u32,
    pub height: u32,
    pub bottom: u32,
    pub duration_ms: u32,
    pub filled: char,
    pub half_filled: char,
    pub empty: char,
}

impl View for MediaController {
    type V = MediaControllerView;

    open spec fn view(&self) -> MediaControllerView {
        MediaControllerView {
            action: self.action,
            color: self.color,
            font_description: self.font_description@,
            width: self.width,
            height: self.height,
            bottom: self.bottom,
            duration_ms: self.duration_ms,
            filled: self.filled,
            half_filled: self.half_filled,
            empty: self.empty,
        }
    }
}

/// The configuration used when no option overrides it.
pub open spec fn spec_default_controller() -> MediaControllerView {
    MediaControllerView {
        action: Action::VolumeToggleMute,
        color: Color { r: 0, g: 0, b: 0, a: 255 },
        font_description: "Monospace 13"@,
        width: 300,
        height: 20,
        bottom: 100,
        duration_ms: 2000,
        filled: '\u{2588}',
        half_filled: '\u{258c}',
        empty: ' ',
    }
}

impl Default for MediaController {
    /// The default configuration: toggle the volume mute, opaque black, a
    /// monospace font, a two-second lifetime, and block characters for the
    /// bar.
    fn default() -> (c: Self)
        ensures
            c@ == spec_default_controller(),
    {
        MediaController {
            action: Action::VolumeToggleMute,
            color: Color { r: 0, g: 0, b: 0, a: 255 },
            font_description: String::from_str("Monospace 13"),
            width: 300,
            height: 20,
            bottom: 100,
            duration_ms: 2000,
            filled: '\u{2588}',
            half_filled: '\u{258c}',
            empty: ' ',
        }
    }
}

/// Whether an argument is an option setting rather than an action word.
pub open spec fn starts_with_dashes(a: Seq<char>) -> bool {
    a.len() >= 2 && a[0] == '-' && a[1] == '-'
}

fn arg_is_option(a: &str) -> (r: bool)
    ensures
        r == starts_with_dashes(a@),
{
    let n = a.unicode_len();
    n >= 2 && a.get_char(0) == '-' && a.get_char(1) == '-'
}

/// What one `--name=value` argument does to the configuration: it sets the
/// named display parameter when the value parses, and rejects the whole
/// command line otherwise.  Quote marks are stripped from the font and the
/// color; the bar characters must be exactly one character; an argument
/// without `=` or with an unknown name rejects too.
pub open spec fn spec_apply_option(cur: MediaControllerView, arg: Seq<char>) -> Option<
    MediaControllerView,
>
    recommends
        starts_with_dashes(arg),
{
    let eq = find_from(arg, '=', 0);
    if eq == arg.len() {
        None
    } else {
        let name = arg.subrange(2, eq);
        let value = arg.subrange(eq + 1, arg.len() as int);
        if name == "width"@ {
            match spec_parse_u32(value) {
                Some(v) => Some(MediaControllerView { width: v, ..cur }),
                None => None,
            }
        } else if name == "height"@ {
            match spec_parse_u32(value) {
                Some(v) => Some(MediaControllerView { height: v, ..cur }),
                None => None,
            }
        } else if name == "bottom"@ {
            match spec_parse_u32(value) {
                Some(v) => Some(MediaControllerView { bottom: v, ..cur }),
                None => None,
            }
        } else if name == "font-description"@ {
            Some(
                MediaControllerView {
                    font_description: trim_spec(TrimClass::Quote, value),
                    ..cur
                },
            )
        } else if name == "color"@ {
            match spec_from_hex(trim_spec(TrimClass::Quote, value)) {
                Some(c) => Some(MediaControllerView { color: c, ..cur }),
                None => None,
            }
        } else if name == "duration"@ {
            match spec_scaled_value(value, 3) {
                Some(v) => Some(
                    MediaControllerView {
                        duration_ms: if v > u32::MAX {
                            u32::MAX
                        } else {
                            v as u32
                        },
                        ..cur
                    },
                ),
                None => None,
            }
        } else if name == "filled"@ {
            if value.len() == 1 {
                Some(MediaControllerView { filled: value[0], ..cur })
            } else {
                None
            }
        } else if name == "half-filled"@ {
            if value.len() == 1 {
                Some(MediaControllerView { half_filled: value[0], ..cur })
            } else {
                None
            }
        } else if name == "empty"@ {
            if value.len() == 1 {
                Some(MediaControllerView { empty: value[0], ..cur })
            } else {
                None
            }
        } else {
            None
        }
    }
}

/// The action the trailing words name: two words toggle a mute, three words
/// carry a direction and a step size.
pub open spec fn spec_parse_action(rest: Seq<Seq<char>>) -> Option<Action> {
    if rest.len() == 2 {
        if rest[0] == "v"@ && rest[1] == "mute"@ {
            Some(Action::VolumeToggleMute)
        } else if rest[0] == "m"@ && rest[1] == "mute"@ {
            Some(Action::MicrophoneToggleMute)
        } else {
            None
        }
    } else if rest.len() == 3 {
        match spec_parse_u8(rest[2]) {
            None => None,
            Some(v) => if rest[0] == "v"@ && rest[1] == "up"@ {
                Some(Action::VolumeUp(v))
            } else if rest[0] == "v"@ && rest[1] == "down"@ {
                Some(Action::VolumeDown(v))
            } else if rest[0] == "b"@ && rest[1] == "up"@ {
                Some(Action::BrightnessUp(v))
            } else if rest[0] == "b"@ && rest[1] == "down"@ {
                Some(Action::BrightnessDown(v))
            } else {
                None
            },
        }
    } else {
        None
    }
}

/// The configuration the arguments from position `i` on denote, options
/// first, starting from `cur`.
pub open spec fn spec_from_args_at(
    args: Seq<Seq<char>>,
    i: int,
    cur: MediaControllerView,
) -> Option<MediaControllerView>
    decreases args.len() - i,
        when 0 <= i <= args.len()
{
    if i >= args.len() || !starts_with_dashes(args[i]) {
        match spec_parse_action(args.subrange(i, args.len() as int)) {
            Some(a) => Some(MediaControllerView { action: a, ..cur }),
            None => None,
        }
    } else {
        match spec_apply_option(cur, args[i]) {
            Some(c2) => spec_from_args_at(args, i + 1, c2),
            None => None,
        }
    }
}

/// The configuration a whole command line denotes: leading `--name=value`
/// options applied to the defaults, then the action words; anything else
/// denotes nothing.
pub open spec fn spec_from_args(args: Seq<Seq<char>>) -> Option<MediaControllerView> {
    spec_from_args_at(args, 0, spec_default_controller())
}

fn apply_option(cur: MediaController, arg: &str) -> (r: Option<MediaController>)
    requires
        starts_with_dashes(arg@),
    ensures
        r is Some <==> spec_apply_option(cur@, arg@) is Some,
        r matches Some(c) ==> Some(c@) == spec_apply_option(cur@, arg@),
{
    let n = arg.unicode_len();
    let eq = find_char(arg, '=', 0);
    if eq == n {
        return None;
    }
    proof {
        if eq < 2 {
            assert(arg@[eq as int] == '=');
        }
    }
    let name = arg.substring_char(2, eq);
    let value = arg.substring_char(eq + 1, n);
    let mut c = cur;
    if str_eq(name, "width") {
        match parse_u32(value) {
            Some(v) => {
                c.width = v;
                Some(c)
            },
            None => None,
        }
    } else if str_eq(name, "height") {
        match parse_u32(value) {
            Some(v) => {
                c.height = v;
                Some(c)
            },
            None => None,
        }
    } else if str_eq(name, "bottom") {
        match parse_u32(value) {
            Some(v) => {
                c.bottom = v;
                Some(c)
            },
            None => None,
        }
    } else if str_eq(name, "font-description") {
        c.font_description = String::from_str(trim(value, TrimClass::Quote));
        Some(c)
    } else if str_eq(name, "color") {
        match Color::from_hex(trim(value, TrimClass::Quote)) {
            Some(col) => {
                c.color = col;
                Some(c)
            },
            None => None,
        }
    } else if str_eq(name, "duration") {
        match parse_scaled(value, 3, u32::MAX) {
            Some(v) => {
                c.duration_ms = v;
                Some(c)
            },
            None => None,
        }
    } else if str_eq(name, "filled") {
        if value.unicode_len() == 1 {
            c.filled = value.get_char(0);
            Some(c)
        } else {
            None
        }
    } else if str_eq(name, "half-filled") {
        if value.unicode_len() == 1 {
            c.half_filled = value.get_char(0);
            Some(c)
        } else {
            None
        }
    } else if str_eq(name, "empty") {
        if value.unicode_len() == 1 {
            c.empty = value.get_char(0);
            Some(c)
        } else {
            None
        }
    } else {
        None
    }
}

impl MediaController {
    /// Parses a whole command line (without the program name).
    pub fn from_args(args: &Vec<String>) -> (r: Option<MediaController>)
        ensures
            r is Some <==> spec_from_args(args.deep_view()) is Some,
            r matches Some(c) ==> Some(c@) == spec_from_args(args.deep_view()),
    {
        let ghost argsv = args.deep_view();
        let mut cur = MediaController::default();
        let mut i: usize = 0;
        while i < args.len() && arg_is_option(args[i].as_str())
            invariant
                argsv == args.deep_view(),
                argsv.len() == args@.len(),
                forall|j: int| 0 <= j < argsv.len() ==> #[trigger] argsv[j] == args@[j]@,
                i <= args.len(),
                spec_from_args(argsv) == spec_from_args_at(argsv, i as int, cur@),
            decreases args.len() - i,
        {
            cur = match apply_option(cur, args[i].as_str()) {
                Some(c2) => c2,
                None => {
                    return None;
                },
            };
            i = i + 1;
        }
        // from here on the remaining words name the action
        let ghost rest = argsv.subrange(i as int, argsv.len() as int);
        proof {
            assert(i >= args.len() || !starts_with_dashes(argsv[i as int]));
        }
        let remaining = args.len() - i;
        let action: Action = if remaining == 2 {
            proof {
                assert(rest[0] == args@[i as int]@);
                assert(rest[1] == args@[i as int + 1]@);
            }
            if str_eq(args[i].as_str(), "v") && str_eq(args[i + 1].as_str(), "mute") {
                Action::VolumeToggleMute
            } else if str_eq(args[i].as_str(), "m") && str_eq(args[i + 1].as_str(), "mute") {
                Action::MicrophoneToggleMute
            } else {
                return None;
            }
        } else if remaining == 3 {
            proof {
                assert(rest[0] == args@[i as int]@);
                assert(rest[1] == args@[i as int + 1]@);
                assert(rest[2] == args@[i as int + 2]@);
            }
            let v = match parse_u8(args[i + 2].as_str()) {
                Some(v) => v,
                None => {
                    return None;
                },
            };
            if str_eq(args[i].as_str(), "v") && str_eq(args[i + 1].as_str(), "up") {
                Action::VolumeUp(v)
            } else if str_eq(args[i].as_str(), "v") && str_eq(args[i + 1].as_str(), "down") {
                Action::VolumeDown(v)
            } else if str_eq(args[i].as_str(), "b") && str_eq(args[i + 1].as_str(), "up") {
                Action::BrightnessUp(v)
            } else if str_eq(args[i].as_str(), "b") && str_eq(args[i + 1].as_str(), "down") {
                Action::BrightnessDown(v)
            } else {
                return None;
            }
        } else {
            return None;
        };
        cur.action = action;
        Some(cur)
    }
}

/// What a command-line front end provides: building a configuration from
/// the arguments.
pub trait Cli where Self: Sized {
    fn from_args(args: &Vec<String>) -> Option<Self>;
}

impl Cli for MediaController {
    fn from_args(args: &Vec<String>) -> Option<Self> {
        MediaController::from_args(args)
    }
}

} // verus!
