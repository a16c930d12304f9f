//! Failure classification for one protocol operation.
//!
//! Every failure is terminal for the operation that produced it and is
//! surfaced as a diagnostic string; the previous good snapshot is kept.

use vstd::prelude::*;
use vstd::string::StringExecFns;

verus! {

/// Spec-level model of a `ClientError`: same variants over sequences.
pub enum ErrorModel {
    Transport(Seq<char>),
    Protocol(Seq<char>),
    Remote { code: int, message: Seq<char> },
    Decode(Seq<char>),
}


/// Why one fetch, discovery or destroy operation failed.
#[derive(Debug, PartialEq, Eq)]
pub enum ClientError {
    /// The transport could not complete the exchange (connection failure,
    /// non-success HTTP status). Carries the transport's own diagnostic.
    Transport(String),
    /// The response is not a single well-formed envelope (not valid envelope
    /// JSON, a batch, or a missing/mistyped envelope field).
    Protocol(String),
    /// A well-formed error envelope from the remote, with its code and text.
    Remote { code: i64, message: String },
    /// The success payload does not match the shape the caller requested.
    Decode(String),
}

pub open spec fn spec_digit_char(d: nat) -> char {
    if d == 0 {
        '0'
    } else if d == 1 {
        '1'
    } else if d == 2 {
        '2'
    } else if d == 3 {
        '3'
    } else if d == 4 {
        '4'
    } else if d == 5 {
        '5'
    } else if d == 6 {
        '6'
    } else if d == 7 {
        '7'
    } else if d == 8 {
        '8'
    } else {
        '9'
    }
}

/// Decimal rendering of an unsigned integer, most significant digit first.
pub open spec fn spec_udecimal(n: nat) -> Seq<char>
    decreases n,
{
    if n < 10 {
        seq![spec_digit_char(n)]
    } else {
        spec_udecimal(n / 10) + seq![spec_digit_char(n % 10)]
    }
}

/// Decimal rendering of a signed integer.
pub open spec fn spec_idecimal(i: int) -> Seq<char> {
    if i < 0 {
        seq!['-'] + spec_udecimal((-i) as nat)
    } else {
        spec_udecimal(i as nat)
    }
}

fn digit_string(d: u64) -> (s: String)
    requires
        d < 10,
    ensures
        s@ == seq![spec_digit_char(d as nat)],
{
    let s = if d == 0 {
        "0"
    } else if d == 1 {
        "1"
    } else if d == 2 {
        "2"
    } else if d == 3 {
        "3"
    } else if d == 4 {
        "4"
    } else if d == 5 {
        "5"
    } else if d == 6 {
        "6"
    } else if d == 7 {
        "7"
    } else if d == 8 {
        "8"
    } else {
        "9"
    };
    proof {
        reveal_strlit("0");
        reveal_strlit("1");
        reveal_strlit("2");
        reveal_strlit("3");
        reveal_strlit("4");
        reveal_strlit("5");
        reveal_strlit("6");
        reveal_strlit("7");
        reveal_strlit("8");
        reveal_strlit("9");
        assert(s@ =~= seq![spec_digit_char(d as nat)]);
    }
    s.to_owned()
}

/// Render an unsigned integer in decimal.
pub fn u64_decimal(n: u64) -> (s: String)
    ensures
        s@ == spec_udecimal(n as nat),
    decreases n,
{
    if n < 10 {
        digit_string(n)
    } else {
        let mut s = u64_decimal(n / 10);
        let d = digit_string(n % 10);
        let r = s.concat(d.as_str());
        assert(r@ =~= spec_udecimal(n as nat));
        r
    }
}

/// Render a signed integer in decimal, with a leading minus when negative.
pub fn i64_decimal(i: i64) -> (s: String)
    ensures
        s@ == spec_idecimal(i as int),
{
    if i >= 0 {
        u64_decimal(i as u64)
    } else {
        let mag: u64 = if i == i64::MIN {
            9223372036854775808u64
        } else {
            (-i) as u64
        };
        assert(mag as nat == (-(i as int)) as nat);
        let s = "-".to_owned();
        let r = s.concat(u64_decimal(mag).as_str());
        proof {
            reveal_strlit("-");
            assert(r@ =~= spec_idecimal(i as int));
        }
        r
    }
}

impl View for ClientError {
    type V = ErrorModel;

    open spec fn view(&self) -> ErrorModel {
        match self {
            ClientError::Transport(m) => ErrorModel::Transport(m@),
            ClientError::Protocol(m) => ErrorModel::Protocol(m@),
            ClientError::Remote { code, message } => ErrorModel::Remote {
                code: *code as int,
                message: message@,
            },
            ClientError::Decode(m) => ErrorModel::Decode(m@),
        }
    }
}

/// How an executable fallible result relates to its spec-level model.
pub open spec fn res_model<T>(r: Result<T, ClientError>) -> Result<T, ErrorModel> {
    match r {
        Ok(v) => Ok(v),
        Err(e) => Err(e@),
    }
}

/// The one-line diagnostic text of an error.
pub open spec fn spec_describe(e: ErrorModel) -> Seq<char> {
    match e {
        ErrorModel::Transport(m) => "transport error: "@ + m,
        ErrorModel::Protocol(m) => "protocol error: "@ + m,
        ErrorModel::Remote { code, message } => "remote error "@ + spec_idecimal(code) + ": "@
            + message,
        ErrorModel::Decode(m) => "decode error: "@ + m,
    }
}

impl ClientError {
    /// One line of human-readable diagnostic text.
    pub fn describe(&self) -> (s: String)
        ensures
            s@ == spec_describe(self@),
    {
        match self {
            ClientError::Transport(m) => "transport error: ".to_owned().concat(m.as_str()),
            ClientError::Protocol(m) => "protocol error: ".to_owned().concat(m.as_str()),
            ClientError::Remote { code, message } => {
                let head = "remote error ".to_owned().concat(i64_decimal(*code).as_str());
                let r = head.concat(": ").concat(message.as_str());
                proof {
                    assert(r@ =~= spec_describe(self@));
                }
                r
            },
            ClientError::Decode(m) => "decode error: ".to_owned().concat(m.as_str()),
        }
    }
}

} // verus!
