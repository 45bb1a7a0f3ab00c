//! The program's arguments.
use vstd::prelude::*;

verus! {

/// What the program was asked to do on its command line.
#[derive(Debug)]
pub struct Config {
    /// The CAN interface to listen on, such as `can0`.
    pub interface_name: String,
    /// The file that lists the frames to expect.
    pub expected_msgs_file: String,
    /// How many frames to receive before comparing.
    pub capture_frame_count: usize,
}

/// The value of a decimal digit; `None` for any other character.
pub open spec fn digit_of(c: char) -> Option<nat> {
    if c == '0' {
        Some(0)
    } else if c == '1' {
        Some(1)
    } else if c == '2' {
        Some(2)
    } else if c == '3' {
        Some(3)
    } else if c == '4' {
        Some(4)
    } else if c == '5' {
        Some(5)
    } else if c == '6' {
        Some(6)
    } else if c == '7' {
        Some(7)
    } else if c == '8' {
        Some(8)
    } else if c == '9' {
        Some(9)
    } else {
        None
    }
}

/// Every character is a decimal digit.
pub open spec fn all_digits(text: Seq<char>) -> bool {
    forall|i: int| 0 <= i < text.len() ==> digit_of(#[trigger] text[i]) is Some
}

/// The number that a run of decimal digits denotes.
pub open spec fn digits_value(digits: Seq<char>) -> nat
    decreases digits.len(),
{
    if digits.len() == 0 {
        0
    } else {
        digits_value(digits.drop_last()) * 10 + match digit_of(digits.last()) {
            Some(d) => d,
            None => 0,
        }
    }
}

/// The text without the one plus sign that may lead it.
pub open spec fn unsigned_part(text: Seq<char>) -> Seq<char> {
    if text.len() > 0 && text[0] == '+' {
        text.drop_first()
    } else {
        text
    }
}

/// A frame count as written on the command line: an optional plus sign,
/// then one or more decimal digits and nothing else, denoting a number
/// that fits the machine word.
pub open spec fn parse_count_spec(text: Seq<char>) -> Option<usize> {
    let digits = unsigned_part(text);
    if digits.len() > 0 && all_digits(digits) && digits_value(digits) <= usize::MAX {
        Some(digits_value(digits) as usize)
    } else {
        None
    }
}

/// What is reported when fewer arguments are given than are needed;
/// `given` counts the program's own name.
pub open spec fn missing_argument_message(given: nat) -> Seq<char> {
    if given <= 1 {
        "No CAN interface name specified."@
    } else if given == 2 {
        "No file containing expected messages given."@
    } else {
        ""@
    }
}

/// A longer run of digits denotes no less than any of its prefixes.
proof fn lemma_value_monotone(digits: Seq<char>, len: int)
    requires
        0 <= len <= digits.len(),
    ensures
        digits_value(digits.take(len)) <= digits_value(digits),
    decreases digits.len() - len,
{
    if len < digits.len() {
        lemma_value_monotone(digits, len + 1);
        assert(digits.take(len + 1).drop_last() =~= digits.take(len));
    } else {
        assert(digits.take(len) =~= digits);
    }
}

fn digit_value(c: char) -> (d: Option<usize>)
    ensures
        match d {
            Some(v) => digit_of(c) == Some(v as nat),
            None => digit_of(c) is None,
        },
{
    if c == '0' {
        Some(0)
    } else if c == '1' {
        Some(1)
    } else if c == '2' {
        Some(2)
    } else if c == '3' {
        Some(3)
    } else if c == '4' {
        Some(4)
    } else if c == '5' {
        Some(5)
    } else if c == '6' {
        Some(6)
    } else if c == '7' {
        Some(7)
    } else if c == '8' {
        Some(8)
    } else if c == '9' {
        Some(9)
    } else {
        None
    }
}

/// Reads a frame count; `None` where the text is not one.
pub fn parse_count(text: &str) -> (count: Option<usize>)
    ensures
        count == parse_count_spec(text@),
{
    let len = text.unicode_len();
    let start: usize = if len > 0 && text.get_char(0) == '+' {
        1
    } else {
        0
    };
    let ghost digits = unsigned_part(text@);
    if start == len {
        return None;
    }
    let mut value: usize = 0;
    let mut i: usize = start;
    while i < len
        invariant
            start <= i <= len,
            len == text@.len(),
            digits == unsigned_part(text@),
            digits.len() == len - start,
            forall|j: int| 0 <= j < digits.len() ==> digits[j] == text@[j + start],
            forall|j: int| 0 <= j < i - start ==> digit_of(#[trigger] digits[j]) is Some,
            value == digits_value(digits.take(i - start)),
        decreases len - i,
    {
        let c = text.get_char(i);
        assert(digits[i - start] == c);
        assert(digits.take(i - start + 1).drop_last() =~= digits.take(i - start));
        match digit_value(c) {
            None => {
                return None;
            },
            Some(d) => {
                if value > (usize::MAX - d) / 10 {
                    proof {
                        lemma_value_monotone(digits, i - start + 1);
                    }
                    return None;
                }
                value = value * 10 + d;
            },
        }
        i += 1;
    }
    assert(digits.take(len - start) =~= digits);
    Some(value)
}

impl Config {
    /// Reads the configuration from the program's arguments, the first of
    /// which is the program's own name: then the interface, the file of
    /// expected frames and the frame count. Further arguments are ignored.
    pub fn from_args(args: Vec<String>) -> (config: Result<Config, &'static str>)
        requires
            args.len() >= 4 ==> parse_count_spec(args[3]@) is Some,
        ensures
            match config {
                Ok(config) => {
                    &&& args.len() >= 4
                    &&& config.interface_name@ == args[1]@
                    &&& config.expected_msgs_file@ == args[2]@
                    &&& Some(config.capture_frame_count) == parse_count_spec(args[3]@)
                },
                Err(message) => {
                    &&& args.len() < 4
                    &&& message@ == missing_argument_message(args.len() as nat)
                },
            },
    {
        if args.len() < 2 {
            return Err("No CAN interface name specified.");
        }
        if args.len() < 3 {
            return Err("No file containing expected messages given.");
        }
        if args.len() < 4 {
            return Err("");
        }
        match parse_count(args[3].as_str()) {
            Some(count) => Ok(
                Config {
                    interface_name: args[1].clone(),
                    expected_msgs_file: args[2].clone(),
                    capture_frame_count: count,
                },
            ),
            None => unreached(),
        }
    }
}

} // verus!
