//! The errors of voice-activity chunking, and the messages they show.

use vstd::prelude::*;
use crate::text::{concat, push_char};

verus! {

/// What can go wrong while chunking audio by voice activity.
#[derive(Debug)]
pub enum Error {
    VadSessionCreationFailed(String),
    UnsupportedSampleRate(u32),
    InvalidConfig(String),
    VadProcessingFailed(String),
}

/// The decimal digit for `d`.
pub open spec fn digit_char(d: nat) -> char {
    ('0' as nat + d) as char
}

/// The decimal notation of `n`.
pub open spec fn decimal(n: nat) -> Seq<char>
    decreases n,
{
    if n < 10 {
        seq![digit_char(n)]
    } else {
        decimal(n / 10).push(digit_char(n % 10))
    }
}

/// The decimal notation of `n`, as `to_string` writes it.
pub fn decimal_text(n: u64) -> (r: String)
    ensures
        r@ == decimal(n as nat),
{
    let mut digits: Vec<char> = Vec::new();
    let mut m = n;
    let ghost mut suffix: Seq<char> = Seq::empty();
    loop
        invariant_except_break
            decimal(n as nat) == decimal(m as nat) + suffix,
            digits@ == suffix.reverse(),
            m <= n,
        ensures
            decimal(n as nat) == suffix,
            digits@ == suffix.reverse(),
        decreases m,
    {
        let d = (m % 10) as u8;
        let c = (d + 48) as char;
        proof {
            assert(c == digit_char((m % 10) as nat));
        }
        if m < 10 {
            digits.push(c);
            proof {
                let old_suffix = suffix;
                suffix = seq![c] + suffix;
                assert(decimal(m as nat) =~= seq![c]);
                assert(seq![c] + old_suffix =~= suffix);
                assert(suffix.reverse() =~= digits@) by {
                    assert(forall|i: int| 0 <= i < suffix.len() ==> suffix.reverse()[i] == digits@[i]);
                }
            }
            break;
        }
        digits.push(c);
        proof {
            let old_suffix = suffix;
            suffix = seq![c] + suffix;
            assert(decimal(m as nat) == decimal((m / 10) as nat).push(c));
            assert(decimal((m / 10) as nat).push(c) + old_suffix =~= decimal((m / 10) as nat) + suffix);
            assert(suffix.reverse() =~= digits@) by {
                assert(forall|i: int| 0 <= i < suffix.len() ==> suffix.reverse()[i] == digits@[i]);
            }
        }
        m = m / 10;
    }
    let mut r = String::new();
    let mut i = digits.len();
    while i > 0
        invariant
            i <= digits@.len(),
            digits@ == suffix.reverse(),
            decimal(n as nat) == suffix,
            r@ == suffix.take(digits@.len() - i),
        decreases i,
    {
        push_char(&mut r, digits[i - 1]);
        proof {
            assert(suffix.take(digits@.len() - i + 1) =~= suffix.take(digits@.len() - i).push(digits@[i - 1]));
        }
        i -= 1;
    }
    proof {
        assert(suffix.take(digits@.len() as int) =~= suffix);
    }
    r
}

/// The message an error shows.
pub open spec fn error_message(e: Error) -> Seq<char> {
    match e {
        Error::VadSessionCreationFailed(m) => "Failed to create VAD session: "@ + m@,
        Error::UnsupportedSampleRate(rate) => "Unsupported sample rate: expected 16000 Hz, got "@ + decimal(
            rate as nat,
        ) + " Hz"@,
        Error::InvalidConfig(m) => "Invalid VAD config: "@ + m@,
        Error::VadProcessingFailed(m) => "Failed to process audio: "@ + m@,
    }
}

impl Error {
    /// The message the error shows.
    pub fn message(&self) -> (r: String)
        ensures
            r@ == error_message(*self),
    {
        match self {
            Error::VadSessionCreationFailed(m) => concat("Failed to create VAD session: ", m.as_str()),
            Error::UnsupportedSampleRate(rate) => {
                let digits = decimal_text(*rate as u64);
                let head = concat("Unsupported sample rate: expected 16000 Hz, got ", digits.as_str());
                concat(head.as_str(), " Hz")
            },
            Error::InvalidConfig(m) => concat("Invalid VAD config: ", m.as_str()),
            Error::VadProcessingFailed(m) => concat("Failed to process audio: ", m.as_str()),
        }
    }
}

} // verus!
