//! The terminal front end: reading typed commands, and the lines of text
//! drawn for the tracks, the messages and the input mode.
pub mod state;

use crate::state::Mode;
use crate::text::push_char;
use crate::track::Track;
use crate::ui::state::spec_readable;
use vstd::prelude::*;

verus! {

/// How a piece of text is drawn.
#[derive(Debug, Clone, Copy, PartialEq, Eq, Structural)]
pub enum ViewAttribute {
    Bold,
}

/// A piece of text to draw, and how.
pub struct TextView {
    pub string: String,
    pub attributes: Vec<ViewAttribute>,
}

impl TextView {
    /// Plain text.
    pub fn from_string(string: String) -> (v: Self)
        ensures
            v.string == string,
            v.attributes@.len() == 0,
    {
        TextView { string, attributes: Vec::new() }
    }

    pub fn set_bold(&mut self)
        ensures
            final(self).string == old(self).string,
            final(self).attributes@ == old(self).attributes@.push(ViewAttribute::Bold),
    {
        self.attributes.push(ViewAttribute::Bold);
    }
}

/// The character of a decimal digit.
pub open spec fn digit_char(d: int) -> char {
    (48 + d) as char
}

/// The decimal digits of `n`, most significant first, without leading
/// zeros (zero is `0`).
pub open spec fn decimal(n: nat) -> Seq<char>
    decreases n,
{
    if n < 10 {
        seq![digit_char(n as int)]
    } else {
        decimal(n / 10).push(digit_char((n % 10) as int))
    }
}

/// `n` written in decimal.
pub fn decimal_string(n: usize) -> (s: String)
    ensures
        s@ == decimal(n as nat),
{
    let mut digits: Vec<char> = Vec::new();
    let mut m: usize = n;
    loop
        invariant_except_break
            m == 0 ==> digits@.len() == 0,
            decimal(n as nat) == decimal(m as nat) + digits@.reverse(),
        ensures
            decimal(n as nat) == digits@.reverse(),
        decreases m,
    {
        let d = m % 10;
        let c = ((48 + d) as u8) as char;
        proof {
            assert(c == digit_char(d as int));
            assert(digits@.push(c).reverse() =~= seq![c] + digits@.reverse());
        }
        digits.push(c);
        m = m / 10;
        if m == 0 {
            break;
        }
    }
    let mut s = String::new();
    let mut i: usize = digits.len();
    while i > 0
        invariant
            i <= digits@.len(),
            s@ == digits@.subrange(i as int, digits@.len() as int).reverse(),
        decreases i,
    {
        i = i - 1;
        proof {
            assert(digits@.subrange(i as int, digits@.len() as int).reverse() =~= digits@.subrange(
                i + 1,
                digits@.len() as int,
            ).reverse().push(digits@[i as int]));
        }
        push_char(&mut s, digits[i]);
    }
    proof {
        assert(digits@.subrange(0, digits@.len() as int) =~= digits@);
    }
    s
}

/// The sample rate that the track labels count seconds in.
pub const SECONDS_RATE: usize = 44_100;

/// The label of a track: `T ` then, with a sample, `s[` the seconds played,
/// `/`, the seconds of the sample, `] ` and the volume mark; without one,
/// `-`. Seconds are counted in whole frames at 44.1 kHz.
pub open spec fn track_label<T>(track: Track<T>, volume: Seq<char>) -> Seq<char> {
    "T "@ + match track.sample {
        Some(s) => "s["@ + decimal((s.position / s.stream.channels / SECONDS_RATE) as nat) + "/"@
            + decimal((s.stream.samples@.len() / (s.stream.channels as nat) / (SECONDS_RATE as nat)) as nat) + "] "@
            + volume,
        None => "-"@,
    }
}

/// The view of a track; `volume` is the mark of its sample's loudness.
pub fn draw_track<T>(track: &Track<T>, volume: &str) -> (v: TextView)
    requires
        track.sample matches Some(s) ==> s.stream.channels > 0,
    ensures
        v.string@ == track_label(*track, volume@),
        v.attributes@.len() == 0,
{
    let mut string = String::from_str("T ");
    match &track.sample {
        Some(sample) => {
            let mut sample_string = String::from_str("s[");
            let total_length = decimal_string(sample.stream.samples.len() / sample.stream.channels / SECONDS_RATE);
            let pos = decimal_string(sample.position / sample.stream.channels / SECONDS_RATE);
            sample_string.append(pos.as_str());
            sample_string.append("/");
            sample_string.append(total_length.as_str());
            sample_string.append("] ");
            sample_string.append(volume);
            string.append(sample_string.as_str());
        },
        None => {
            string.append("-");
        },
    }
    proof {
        reveal_strlit("T ");
        reveal_strlit("s[");
        reveal_strlit("/");
        reveal_strlit("] ");
        reveal_strlit("-");
    }
    TextView::from_string(string)
}

/// `error: ` and the message.
pub fn draw_error_message(message: &str) -> (v: TextView)
    ensures
        v.string@ == "error: "@ + message@,
        v.attributes@.len() == 0,
{
    let mut string = String::from_str("error: ");
    string.append(message);
    TextView::from_string(string)
}

/// `> ` and the message.
pub fn draw_user_message(message: &str) -> (v: TextView)
    ensures
        v.string@ == "> "@ + message@,
        v.attributes@.len() == 0,
{
    let mut string = String::from_str("> ");
    string.append(message);
    TextView::from_string(string)
}

/// `normal ` or `:` for the mode, then the keys typed, each code cut to its
/// low byte as a character.
pub fn draw_input_mode(buffer: &Vec<i32>, mode: &Mode) -> (v: TextView)
    ensures
        v.string@ == match *mode {
            Mode::Normal => "normal "@,
            Mode::Input => ":"@,
        } + spec_readable(buffer@),
        v.attributes@.len() == 0,
{
    let mut string = match mode {
        Mode::Normal => String::from_str("normal "),
        Mode::Input => String::from_str(":"),
    };
    let ghost start = string@;
    let mut i: usize = 0;
    while i < buffer.len()
        invariant
            i <= buffer@.len(),
            string@ == start + spec_readable(buffer@.take(i as int)),
        decreases buffer@.len() - i,
    {
        proof {
            assert(spec_readable(buffer@.take(i + 1)) =~= spec_readable(buffer@.take(i as int)).push(
                (buffer@[i as int] as u8) as char,
            ));
        }
        push_char(&mut string, (buffer[i] as u8) as char);
        i = i + 1;
    }
    proof {
        assert(buffer@.take(buffer@.len() as int) =~= buffer@);
    }
    TextView::from_string(string)
}

} // verus!
