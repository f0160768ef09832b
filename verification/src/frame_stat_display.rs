use vstd::prelude::*;

use vstd::string::StringExecFns;

use crate::frame_monitor::{averageable, elapsed, FrameMonitor};
use crate::timing::{mean_of, total};

verus! {

/// What the frame statistics overlay shows.
#[derive(Debug, PartialEq, Eq, Structural)]
pub enum DisplayMode {
    Off,
    Fps,
    FrameStatistics,
    HardwareInfo,
}

/// The mode that follows `mode` when the overlay is toggled.
pub open spec fn next_mode(mode: DisplayMode) -> DisplayMode {
    match mode {
        DisplayMode::Off => DisplayMode::Fps,
        DisplayMode::Fps => DisplayMode::FrameStatistics,
        DisplayMode::FrameStatistics => DisplayMode::HardwareInfo,
        DisplayMode::HardwareInfo => DisplayMode::Off,
    }
}

/// Toggling the overlay four times brings it back to the mode it showed, after passing
/// through every other mode.
pub proof fn law_toggle_cycles(mode: DisplayMode)
    ensures
        next_mode(next_mode(next_mode(next_mode(mode)))) == mode,
        next_mode(mode) != mode,
        next_mode(next_mode(mode)) != mode,
        next_mode(next_mode(next_mode(mode))) != mode,
{
}

/// How long the overlay keeps a text before it writes it anew: half a second, in nanoseconds.
pub const REFRESH_INTERVAL_NANOS: u64 = 500_000_000;

/// What a draw of the overlay does.
#[derive(Debug, PartialEq, Eq, Structural)]
pub enum StatDrawing {
    /// The overlay is switched off: nothing is drawn.
    Hidden,
    /// The current text is drawn as it is.
    Draw,
    /// The text is written anew from the monitor, then drawn.
    RefreshAndDraw,
}

/// The state of the frame statistics overlay: what it shows, and when its text was last
/// written from a monitor that knew the frame rate.
pub struct FrameStatDisplay {
    last_update: Option<u64>,
    display_mode: DisplayMode,
}

impl FrameStatDisplay {
    /// What the overlay shows.
    pub closed spec fn mode(&self) -> DisplayMode {
        self.display_mode
    }

    /// When the text was last written with a known frame rate, in nanoseconds.
    pub closed spec fn last_update_spec(&self) -> Option<u64> {
        self.last_update
    }

    /// The text is due to be written anew at `now`: it never was, or half a second has
    /// passed since.
    pub open spec fn refresh_due(&self, now: u64) -> bool {
        match self.last_update_spec() {
            Some(t) => elapsed(t, now) >= REFRESH_INTERVAL_NANOS,
            None => true,
        }
    }

    /// An overlay showing the frame rate, with no text written yet.
    pub fn new() -> (r: Self)
        ensures
            r.mode() == DisplayMode::Fps,
            r.last_update_spec().is_none(),
    {
        Self { last_update: None, display_mode: DisplayMode::Fps }
    }

    /// What the overlay shows now.
    pub fn get_display_mode(&self) -> (r: &DisplayMode)
        ensures
            *r == self.mode(),
    {
        &self.display_mode
    }

    /// Shows `mode` from now on; the text is written anew at the next draw.
    pub fn set_display_mode(&mut self, mode: DisplayMode)
        ensures
            final(self).mode() == mode,
            final(self).last_update_spec().is_none(),
    {
        self.display_mode = mode;
        self.last_update = None;
    }

    /// Moves on to the next mode: none, frame rate, frame statistics, hardware information,
    /// and round again; the text is written anew at the next draw.
    pub fn toggle_display_mode(&mut self)
        ensures
            final(self).mode() == next_mode(old(self).mode()),
            final(self).last_update_spec().is_none(),
    {
        match self.display_mode {
            DisplayMode::Off => self.display_mode = DisplayMode::Fps,
            DisplayMode::Fps => self.display_mode = DisplayMode::FrameStatistics,
            DisplayMode::FrameStatistics => self.display_mode = DisplayMode::HardwareInfo,
            DisplayMode::HardwareInfo => self.display_mode = DisplayMode::Off,
        }
        self.last_update = None;
    }

    /// Decides what a draw at `now` does: nothing while the overlay is off; else the text is
    /// written anew where it never was, or was last written at least half a second ago. A
    /// text written while the monitor knows the frame rate counts as an update.
    pub fn draw(&mut self, now: u64, monitor: &FrameMonitor) -> (r: StatDrawing)
        requires
            old(self).mode() != DisplayMode::Off && old(self).refresh_due(now) ==> averageable(
                monitor.draws(),
            ),
        ensures
            final(self).mode() == old(self).mode(),
            r == if old(self).mode() == DisplayMode::Off {
                StatDrawing::Hidden
            } else if old(self).last_update_spec() matches Some(t) && elapsed(t, now)
                < REFRESH_INTERVAL_NANOS {
                StatDrawing::Draw
            } else {
                StatDrawing::RefreshAndDraw
            },
            final(self).last_update_spec() == if r == StatDrawing::RefreshAndDraw
                && monitor.draws().times().len() > 0 {
                Some(now)
            } else {
                old(self).last_update_spec()
            },
    {
        if self.display_mode == DisplayMode::Off {
            return StatDrawing::Hidden;
        }
        let refresh = match self.last_update {
            Some(time) => now.saturating_sub(time) >= REFRESH_INTERVAL_NANOS,
            None => true,
        };
        if refresh {
            self.set_text(now, monitor);
            StatDrawing::RefreshAndDraw
        } else {
            StatDrawing::Draw
        }
    }

    /// Notes that the text was written at `now`, where the monitor knows the frame rate.
    fn set_text(&mut self, now: u64, monitor: &FrameMonitor)
        requires
            averageable(monitor.draws()),
        ensures
            final(self).mode() == old(self).mode(),
            final(self).last_update_spec() == if monitor.draws().times().len() > 0 {
                Some(now)
            } else {
                old(self).last_update_spec()
            },
    {
        if monitor.get_time_between_draws().is_some() {
            self.last_update = Some(now);
        }
    }
}

/// The text that the overlay shows in `mode`, from the frame rate line, the frame statistics
/// and the hardware information.
pub open spec fn stat_text_spec(mode: DisplayMode, fps: Seq<char>, frame: Seq<char>, info: Seq<
    char,
>) -> Seq<char> {
    match mode {
        DisplayMode::Off => Seq::<char>::empty(),
        DisplayMode::Fps => fps,
        DisplayMode::FrameStatistics => fps + "\n"@ + frame,
        DisplayMode::HardwareInfo => fps + "\n"@ + frame + "\n\n"@ + info,
    }
}

/// The text that the overlay shows in `mode`: nothing; the frame rate; the frame rate and the
/// frame statistics; or both and the hardware information after an empty line.
pub fn stat_text(mode: &DisplayMode, fps: &str, frame: &str, info: &str) -> (r: String)
    ensures
        r@ == stat_text_spec(*mode, fps@, frame@, info@),
{
    let mut s = String::new();
    match mode {
        DisplayMode::Off => {},
        DisplayMode::Fps => {
            s.append(fps);
        },
        DisplayMode::FrameStatistics => {
            s.append(fps);
            s.append("\n");
            s.append(frame);
        },
        DisplayMode::HardwareInfo => {
            s.append(fps);
            s.append("\n");
            s.append(frame);
            s.append("\n\n");
            s.append(info);
        },
    }
    s
}

/// The digit `d`, from 0 to 9, as a character.
pub open spec fn digit_char(d: int) -> char {
    seq!['0', '1', '2', '3', '4', '5', '6', '7', '8', '9'][d]
}

/// The decimal digits of `n`, without leading zeros.
pub open spec fn decimal(n: nat) -> Seq<char>
    decreases n,
{
    if n < 10 {
        seq![digit_char(n as int)]
    } else {
        decimal(n / 10).push(digit_char((n % 10) as int))
    }
}

/// The number a digit character stands for: its distance from `'0'`.
pub open spec fn digit_value(ch: char) -> int {
    ch as int - '0' as int
}

/// The number a string of decimal digits stands for, read in base 10.
pub open spec fn digits_value(s: Seq<char>) -> int
    decreases s.len(),
{
    if s.len() == 0 {
        0
    } else {
        digits_value(s.drop_last()) * 10 + digit_value(s.last())
    }
}

/// Ten to the power `k`.
pub open spec fn pow10(k: nat) -> int
    decreases k,
{
    if k == 0 {
        1
    } else {
        10 * pow10((k - 1) as nat)
    }
}

/// The character of digit `d` is the `d`-th after `'0'`: it stands for `d`.
pub proof fn law_digit_char_stands_for_its_digit(d: int)
    requires
        0 <= d < 10,
    ensures
        digit_char(d) as int == '0' as int + d,
        digit_value(digit_char(d)) == d,
{
    assert(seq!['0', '1', '2', '3', '4', '5', '6', '7', '8', '9'][d] as int == '0' as int + d) by {
        assert('1' as int == 49);
    }
}

/// The decimal text of `n` is made of digit characters, read back in base 10 gives `n`, and
/// has exactly as many characters as `n` has digits: `n` lies between `10^(len - 1)` and
/// `10^len`, or the text is `"0"` for zero.
pub proof fn law_decimal_reads_back(n: nat)
    ensures
        forall|i: int|
            0 <= i < decimal(n).len() ==> '0' <= #[trigger] decimal(n)[i] && decimal(n)[i] <= '9',
        digits_value(decimal(n)) == n,
        decimal(n).len() >= 1,
        n == 0 ==> decimal(n) == seq!['0'],
        n > 0 ==> pow10((decimal(n).len() - 1) as nat) <= n < pow10(decimal(n).len() as nat),
    decreases n,
{
    if n < 10 {
        law_digit_char_stands_for_its_digit(n as int);
        let s = decimal(n);
        assert(s.drop_last() =~= Seq::<char>::empty());
        assert(digits_value(s.drop_last()) == 0);
        assert(pow10(0) == 1);
        assert(pow10(1) == 10) by {
            assert(pow10(0) == 1);
        }
    } else {
        let q = n / 10;
        let r = n % 10;
        law_decimal_reads_back(q);
        law_digit_char_stands_for_its_digit(r as int);
        let prefix = decimal(q);
        let s = decimal(n);
        assert(s == prefix.push(digit_char(r as int)));
        assert(s.drop_last() =~= prefix);
        assert(q * 10 + r == n);
        let len = prefix.len();
        assert(pow10(len) == 10 * pow10((len - 1) as nat));
        assert(pow10((len + 1) as nat) == 10 * pow10(len));
        assert forall|i: int| 0 <= i < s.len() implies '0' <= #[trigger] s[i] && s[i] <= '9' by {
            if i < len {
                assert(s[i] == prefix[i]);
            }
        }
    }
}

/// The digit `d` as a one-character string.
fn digit_str(d: u64) -> (r: &'static str)
    requires
        d < 10,
    ensures
        r@ == seq![digit_char(d as int)],
{
    match d {
        0 => {
            proof {
                reveal_strlit("0");
            }
            "0"
        },
        1 => {
            proof {
                reveal_strlit("1");
            }
            "1"
        },
        2 => {
            proof {
                reveal_strlit("2");
            }
            "2"
        },
        3 => {
            proof {
                reveal_strlit("3");
            }
            "3"
        },
        4 => {
            proof {
                reveal_strlit("4");
            }
            "4"
        },
        5 => {
            proof {
                reveal_strlit("5");
            }
            "5"
        },
        6 => {
            proof {
                reveal_strlit("6");
            }
            "6"
        },
        7 => {
            proof {
                reveal_strlit("7");
            }
            "7"
        },
        8 => {
            proof {
                reveal_strlit("8");
            }
            "8"
        },
        _ => {
            proof {
                reveal_strlit("9");
            }
            "9"
        },
    }
}

/// Appends the decimal digits of `n` to `s`.
fn push_decimal(s: &mut String, n: u64)
    ensures
        final(s)@ == old(s)@ + decimal(n as nat),
    decreases n,
{
    if n >= 10 {
        push_decimal(s, n / 10);
    }
    s.append(digit_str(n % 10));
    proof {
        if n >= 10 {
            assert(decimal(n as nat) == decimal((n / 10) as nat).push(digit_char((n % 10) as int)));
        }
    }
}

/// A mean duration in nanoseconds as the overlay writes it: whole milliseconds and `ms`, or
/// `-` where nothing was measured.
pub open spec fn time_text(time: Option<u64>) -> Seq<char> {
    match time {
        Some(nanos) => decimal((nanos / 1_000_000) as nat) + "ms"@,
        None => "-"@,
    }
}

/// Appends `time_text(time)` to `s`.
fn push_time(s: &mut String, time: Option<u64>)
    ensures
        final(s)@ == old(s)@ + time_text(time),
{
    match time {
        Some(nanos) => {
            push_decimal(s, nanos / 1_000_000);
            s.append("ms");
        },
        None => {
            s.append("-");
        },
    }
}

/// The frame statistics the overlay shows: the mean times of acquiring and discarding a
/// surface, of rendering and of submitting a frame, one per line.
pub fn get_frame_info_string(monitor: &FrameMonitor) -> (r: String)
    requires
        averageable(monitor.acquisitions()),
        averageable(monitor.discards()),
        averageable(monitor.renders()),
        averageable(monitor.submits()),
    ensures
        r@ == "Acquire surface: "@ + time_text(mean_of(monitor.acquisitions().times()))
            + "\nDiscard surface: "@ + time_text(mean_of(monitor.discards().times()))
            + "\nRender time: "@ + time_text(mean_of(monitor.renders().times()))
            + "\nSubmit frame time: "@ + time_text(mean_of(monitor.submits().times())),
{
    let mut s = String::new();
    s.append("Acquire surface: ");
    push_time(&mut s, monitor.get_surface_acquisition_time());
    s.append("\nDiscard surface: ");
    push_time(&mut s, monitor.get_surface_discard_time());
    s.append("\nRender time: ");
    push_time(&mut s, monitor.get_render_time());
    s.append("\nSubmit frame time: ");
    push_time(&mut s, monitor.get_submit_time());
    s
}

} // verus!
