use vstd::prelude::*;

verus! {

/// The failures of the card-protocol layer. Every error is a plain value;
/// a human-readable description is available through [`IdError::describe`].
#[derive(Clone, Copy, Debug, PartialEq, Eq, Structural)]
pub enum IdError {
    /// The card's reset signature matched no known chip family.
    UnknownCardType,
    /// A response's trailing status word differed from the success code;
    /// the offending status word is carried for diagnostics.
    UnexpectedStatus(u16),
    /// A response was too short, or otherwise impossible for the step
    /// that received it.
    MalformedResponse,
    /// A tag/length record ran past the buffer boundary.
    MalformedTlv,
}

/// The character, as a one-character string, of one hexadecimal digit.
pub open spec fn spec_hex_digit(n: u8) -> Seq<char> {
    if n == 0 { "0"@ } else if n == 1 { "1"@ } else if n == 2 { "2"@ }
    else if n == 3 { "3"@ } else if n == 4 { "4"@ } else if n == 5 { "5"@ }
    else if n == 6 { "6"@ } else if n == 7 { "7"@ } else if n == 8 { "8"@ }
    else if n == 9 { "9"@ } else if n == 10 { "a"@ } else if n == 11 { "b"@ }
    else if n == 12 { "c"@ } else if n == 13 { "d"@ } else if n == 14 { "e"@ }
    else { "f"@ }
}

/// The four hexadecimal digits of a status word, most significant first.
pub open spec fn spec_hex_status(code: u16) -> Seq<char> {
    spec_hex_digit(((code / 0x1000) % 16) as u8) + spec_hex_digit(((code / 0x100) % 16) as u8)
        + spec_hex_digit(((code / 0x10) % 16) as u8) + spec_hex_digit((code % 16) as u8)
}

/// The description of each error value.
pub open spec fn spec_describe(e: IdError) -> Seq<char> {
    match e {
        IdError::UnknownCardType => "Unknown card type"@,
        IdError::UnexpectedStatus(code) => "Reader returned error code 0x"@ + spec_hex_status(
            code,
        ),
        IdError::MalformedResponse => "Malformed response from card"@,
        IdError::MalformedTlv => "Malformed TLV data"@,
    }
}

fn hex_digit(n: u8) -> (c: &'static str)
    requires
        n < 16,
    ensures
        c@ == spec_hex_digit(n),
{
    if n == 0 { "0" } else if n == 1 { "1" } else if n == 2 { "2" }
    else if n == 3 { "3" } else if n == 4 { "4" } else if n == 5 { "5" }
    else if n == 6 { "6" } else if n == 7 { "7" } else if n == 8 { "8" }
    else if n == 9 { "9" } else if n == 10 { "a" } else if n == 11 { "b" }
    else if n == 12 { "c" } else if n == 13 { "d" } else if n == 14 { "e" }
    else { "f" }
}

impl IdError {
    /// The human-readable description of this error.
    pub fn describe(&self) -> (r: String)
        ensures
            r@ == spec_describe(*self),
    {
        match self {
            IdError::UnknownCardType => "Unknown card type".to_owned(),
            IdError::UnexpectedStatus(code) => {
                let code: u16 = *code;
                let mut s = "Reader returned error code 0x".to_owned();
                s.append(hex_digit(((code / 0x1000) % 16) as u8));
                s.append(hex_digit(((code / 0x100) % 16) as u8));
                s.append(hex_digit(((code / 0x10) % 16) as u8));
                s.append(hex_digit((code % 16) as u8));
                assert(s@ =~= spec_describe(IdError::UnexpectedStatus(code)));
                s
            },
            IdError::MalformedResponse => "Malformed response from card".to_owned(),
            IdError::MalformedTlv => "Malformed TLV data".to_owned(),
        }
    }
}

} // verus!
