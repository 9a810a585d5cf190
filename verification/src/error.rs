//! The errors of this crate.

use vstd::prelude::*;
use vstd::string::to_string_from_display_ensures;
use vstd::string::StringExecFns;

verus! {

/// `std::io::Error`: carried in an error of this crate, never looked into.
#[verifier::external_type_specification]
#[verifier::external_body]
pub struct ExIoError(std::io::Error);

/// Errors potentially returned by this crate.
#[derive(Debug)]
#[allow(inconsistent_fields)]
pub enum Error {
    /// The input has ended.
    EOF,
    /// A payload of `input` bytes does not fit a frame, whose length field is a `u32`.
    FrameTooBig { input: usize },
    /// A time of `input` seconds does not fit a frame, whose seconds field is a `u32`.
    FrameTooLong { input: u64 },
    /// Reading from the input failed.
    Read { source: std::io::Error },
    /// Writing to the output failed.
    Write { source: std::io::Error },
}

/// The decimal digit for `d`, which is below ten.
pub open spec fn digit(d: nat) -> char
    recommends
        d < 10,
{
    seq!['0', '1', '2', '3', '4', '5', '6', '7', '8', '9'][d as int]
}

/// `n` in decimal digits, without leading zeros.
pub open spec fn decimal(n: nat) -> Seq<char>
    decreases n,
{
    if n < 10 {
        seq![digit(n)]
    } else {
        decimal(n / 10).push(digit(n % 10))
    }
}

fn digit_text(d: u64) -> (text: &'static str)
    requires
        d < 10,
    ensures
        text@ == seq![digit(d as nat)],
{
    let text = match d {
        0 => "0",
        1 => "1",
        2 => "2",
        3 => "3",
        4 => "4",
        5 => "5",
        6 => "6",
        7 => "7",
        8 => "8",
        _ => "9",
    };
    proof {
        reveal_strlit("0");
        reveal_strlit("1");
        reveal_strlit("2");
        reveal_strlit("3");
        reveal_strlit("4");
        reveal_strlit("5");
        reveal_strlit("6");
        reveal_strlit("7");
        reveal_strlit("8");
        reveal_strlit("9");
        assert(text@ =~= seq![digit(d as nat)]);
    }
    text
}

/// Writes `n` in decimal digits.
pub fn decimal_text(n: u64) -> (text: String)
    ensures
        text@ == decimal(n as nat),
    decreases n,
{
    if n < 10 {
        String::from_str(digit_text(n))
    } else {
        let mut text = decimal_text(n / 10);
        text.append(digit_text(n % 10));
        text
    }
}

impl Error {
    /// Whether `text` is the message of the error: a fixed sentence for
    /// each kind, with the refused number in it in decimal digits, or the
    /// underlying error as it is displayed.
    pub open spec fn says(self, text: Seq<char>) -> bool {
        match self {
            Error::EOF => text == "eof"@,
            Error::FrameTooBig { input } => text == "failed to create ttyrec frame: got "@
                + decimal(input as nat)
                + " bytes of data, but ttyrec frames can be at most 4294967295 bytes"@,
            Error::FrameTooLong { input } => text == "failed to create ttyrec frame: got "@
                + decimal(input as nat) + " seconds, but ttyrecs can be at most 4294967295 seconds"@,
            Error::Read { source } => exists|cause: String|
                {
                    &&& #[trigger] to_string_from_display_ensures::<std::io::Error>(&source, cause)
                    &&& text == "failed to read from input: "@ + cause@
                },
            Error::Write { source } => exists|cause: String|
                {
                    &&& #[trigger] to_string_from_display_ensures::<std::io::Error>(&source, cause)
                    &&& text == "failed to write to output: "@ + cause@
                },
        }
    }

    /// The message of the error.
    pub fn message(&self) -> (text: String)
        ensures
            self.says(text@),
    {
        match self {
            Error::EOF => String::from_str("eof"),
            Error::FrameTooBig { input } => {
                let got = decimal_text(*input as u64);
                let mut text = String::from_str("failed to create ttyrec frame: got ");
                text.append(got.as_str());
                text.append(" bytes of data, but ttyrec frames can be at most 4294967295 bytes");
                text
            },
            Error::FrameTooLong { input } => {
                let got = decimal_text(*input);
                let mut text = String::from_str("failed to create ttyrec frame: got ");
                text.append(got.as_str());
                text.append(" seconds, but ttyrecs can be at most 4294967295 seconds");
                text
            },
            Error::Read { source } => {
                let cause = source.to_string();
                let mut text = String::from_str("failed to read from input: ");
                text.append(cause.as_str());
                text
            },
            Error::Write { source } => {
                let cause = source.to_string();
                let mut text = String::from_str("failed to write to output: ");
                text.append(cause.as_str());
                text
            },
        }
    }
}

} // verus!
