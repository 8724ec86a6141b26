//! Preparing and classifying HTTP update calls: the Basic-Authentication
//! header value for an entry's credentials, and the classification of a
//! call's outcome. Any 2xx status is success; any other status, and any
//! transport failure, is a failure with a diagnostic message.

use vstd::prelude::*;

verus! {

/// The standard, padded base64 encoding of the UTF-8 bytes of `s`; a
/// function of `s` alone.
pub uninterp spec fn base64_of(s: Seq<char>) -> Seq<char>;

/// Relies on base64's Engine::encode with the STANDARD engine: the padded
/// standard-alphabet base64 encoding of the UTF-8 bytes of the input,
/// a function of the input alone; an empty input encodes to an empty
/// string.
#[verifier::external_body]
fn base64_encode(s: &str) -> (r: String)
    ensures
        r@ == base64_of(s@),
        s@.len() == 0 ==> r@.len() == 0,
{
    base64::Engine::encode(&base64::engine::general_purpose::STANDARD, s.as_bytes())
}

/// The credential pair as sent: username and password joined by a colon.
/// The colon is the separator of the Basic scheme; credentials that
/// themselves contain a colon are the caller's responsibility.
pub open spec fn spec_credential(username: Seq<char>, password: Seq<char>) -> Seq<char> {
    username + ":"@ + password
}

/// The value of the Authorization header for the given credentials.
pub open spec fn spec_basic_auth(username: Seq<char>, password: Seq<char>) -> Seq<char> {
    "Basic "@ + base64_of(spec_credential(username, password))
}

/// Builds the Basic-Authentication header value for the credentials:
/// `Basic` followed by the base64 form of `username:password`.
pub fn basic_auth_header_value(username: &str, password: &str) -> (r: String)
    ensures
        r@ == spec_basic_auth(username@, password@),
{
    let mut cred = String::from_str(username);
    cred.append(":");
    cred.append(password);
    let encoded = base64_encode(cred.as_str());
    let mut r = String::from_str("Basic ");
    r.append(encoded.as_str());
    r
}

/// The decimal digit `d` as a character.
pub open spec fn spec_digit_char(d: int) -> char {
    if d == 0 {
        '0'
    } else if d == 1 {
        '1'
    } else if d == 2 {
        '2'
    } else if d == 3 {
        '3'
    } else if d == 4 {
        '4'
    } else if d == 5 {
        '5'
    } else if d == 6 {
        '6'
    } else if d == 7 {
        '7'
    } else if d == 8 {
        '8'
    } else {
        '9'
    }
}

/// The decimal form of a non-negative number, without leading zeros.
pub open spec fn spec_decimal(n: int) -> Seq<char>
    decreases n,
{
    if n < 10 {
        seq![spec_digit_char(n)]
    } else {
        spec_decimal(n / 10).push(spec_digit_char(n % 10))
    }
}

/// Appends one decimal digit to the string.
fn append_digit(out: &mut String, d: u16)
    requires
        d < 10,
    ensures
        final(out)@ == old(out)@.push(spec_digit_char(d as int)),
{
    let ghost before = out@;
    match d {
        0 => out.append("0"),
        1 => out.append("1"),
        2 => out.append("2"),
        3 => out.append("3"),
        4 => out.append("4"),
        5 => out.append("5"),
        6 => out.append("6"),
        7 => out.append("7"),
        8 => out.append("8"),
        _ => out.append("9"),
    }
    proof {
        reveal_strlit("0");
        reveal_strlit("1");
        reveal_strlit("2");
        reveal_strlit("3");
        reveal_strlit("4");
        reveal_strlit("5");
        reveal_strlit("6");
        reveal_strlit("7");
        reveal_strlit("8");
        reveal_strlit("9");
        assert(out@ =~= before.push(spec_digit_char(d as int)));
    }
}

/// Appends the decimal form of `n` to the string.
fn push_decimal(out: &mut String, n: u16)
    ensures
        final(out)@ == old(out)@ + spec_decimal(n as int),
    decreases n,
{
    let ghost before = out@;
    if n < 10 {
        append_digit(out, n);
        proof {
            assert(before + seq![spec_digit_char(n as int)] =~= before.push(
                spec_digit_char(n as int),
            ));
        }
    } else {
        push_decimal(out, n / 10);
        append_digit(out, n % 10);
        proof {
            assert((before + spec_decimal(n as int / 10)).push(spec_digit_char(n as int % 10))
                =~= before + spec_decimal(n as int));
        }
    }
}

/// The decimal form of `n`.
pub fn u16_to_string(n: u16) -> (r: String)
    ensures
        r@ == spec_decimal(n as int),
{
    let mut r = String::new();
    push_decimal(&mut r, n);
    proof {
        assert(Seq::<char>::empty() + spec_decimal(n as int) =~= spec_decimal(n as int));
    }
    r
}

/// The text that describes an update call answered with an unexpected
/// HTTP status.
pub open spec fn spec_status_message(status: int) -> Seq<char> {
    "unexpected HTTP status "@ + spec_decimal(status)
}

/// The outcome of one update call: success with the final URL and the
/// HTTP status, or failure with the URL it is about and a description.
#[derive(Clone, Debug, PartialEq)]
pub enum UpdateOutcome {
    Succeeded { url: String, status: u16 },
    Failed { url: String, message: String },
}

/// Classifies the answer to one update call. `status` is the HTTP status
/// of the response, or `None` when the call failed in transport (DNS,
/// connection, timeout), with `transport_error` describing that failure.
/// Exactly the 2xx statuses are success.
pub fn classify_response(url: String, status: Option<u16>, transport_error: String) -> (r:
    UpdateOutcome)
    ensures
        match status {
            Some(s) => if 200 <= s && s < 300 {
                r matches UpdateOutcome::Succeeded { url: u, status: st } && u@ == url@ && st == s
            } else {
                r matches UpdateOutcome::Failed { url: u, message: m } && u@ == url@ && m@
                    == spec_status_message(s as int)
            },
            None => r matches UpdateOutcome::Failed { url: u, message: m } && u@ == url@ && m@
                == transport_error@,
        },
{
    match status {
        Some(s) => {
            if 200 <= s && s < 300 {
                UpdateOutcome::Succeeded { url, status: s }
            } else {
                let mut message = String::from_str("unexpected HTTP status ");
                let digits = u16_to_string(s);
                message.append(digits.as_str());
                UpdateOutcome::Failed { url, message }
            }
        },
        None => UpdateOutcome::Failed { url, message: transport_error },
    }
}

} // verus!
