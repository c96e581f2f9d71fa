//! The wording of the notices that the server sends, and the decimal
//! rendering of connection ids that some of them carry.

use vstd::prelude::*;
use vstd::string::*;

verus! {

/// The character that stands for the decimal digit `d`.
pub open spec fn digit(d: nat) -> char
    recommends
        d < 10,
{
    ('0' as nat + d) as char
}

/// The decimal numeral of `n`, most significant digit first, without
/// leading zeros.
pub open spec fn decimal(n: nat) -> Seq<char>
    decreases n,
{
    if n < 10 {
        seq![digit(n)]
    } else {
        decimal(n / 10).push(digit(n % 10))
    }
}

/// "`name` logged in": what the other connections are told when a
/// connection claims `name`.
pub open spec fn login_text(name: Seq<char>) -> Seq<char> {
    name + " logged in"@
}

/// "`name` has logged off": the departure notice of a connection that had
/// claimed `name`.
pub open spec fn named_logoff_text(name: Seq<char>) -> Seq<char> {
    name + " has logged off"@
}

/// "Connection id `id` has logged off": the departure notice of a connection
/// that never claimed a name.
pub open spec fn anonymous_logoff_text(id: nat) -> Seq<char> {
    "Connection id "@ + decimal(id) + " has logged off"@
}

/// The departure notice of a connection, by its claimed name where it has one
/// and by its id otherwise.
pub open spec fn logoff_text(id: nat, name: Option<Seq<char>>) -> Seq<char> {
    match name {
        Some(n) => named_logoff_text(n),
        None => anonymous_logoff_text(id),
    }
}

/// "You are connection id `id`": what a connection is told once on accept.
pub open spec fn welcome_text(id: nat) -> Seq<char> {
    "You are connection id "@ + decimal(id)
}

/// "Failed to parse your message `reason`: `payload`": what a connection is
/// told when something it sent could not be decoded.
pub open spec fn parse_failure_text(reason: Seq<char>, payload: Seq<char>) -> Seq<char> {
    "Failed to parse your message "@ + reason + ": "@ + payload
}

/// The one-character string of a decimal digit.
fn digit_str(d: u64) -> (s: &'static str)
    requires
        d < 10,
    ensures
        s@ == seq![digit(d as nat)],
{
    proof {
        reveal_strlit("0");
        reveal_strlit("1");
        reveal_strlit("2");
        reveal_strlit("3");
        reveal_strlit("4");
        reveal_strlit("5");
        reveal_strlit("6");
        reveal_strlit("7");
        reveal_strlit("8");
        reveal_strlit("9");
    }
    let s = if d == 0 {
        "0"
    } else if d == 1 {
        "1"
    } else if d == 2 {
        "2"
    } else if d == 3 {
        "3"
    } else if d == 4 {
        "4"
    } else if d == 5 {
        "5"
    } else if d == 6 {
        "6"
    } else if d == 7 {
        "7"
    } else if d == 8 {
        "8"
    } else {
        "9"
    };
    assert(s@ =~= seq![digit(d as nat)]);
    s
}

/// Renders `n` in decimal.
pub fn render_decimal(n: u64) -> (s: String)
    ensures
        s@ == decimal(n as nat),
    decreases n,
{
    if n < 10 {
        String::from_str(digit_str(n))
    } else {
        let mut s = render_decimal(n / 10);
        s.append(digit_str(n % 10));
        assert(s@ =~= decimal(n as nat));
        s
    }
}

/// Builds the login notice for `name`.
pub fn login_notice(name: &str) -> (s: String)
    ensures
        s@ == login_text(name@),
{
    let mut s = String::from_str(name);
    s.append(" logged in");
    s
}

/// Builds the departure notice of connection `id`, which claimed `name` or
/// nothing.
pub fn logoff_notice(id: u64, name: Option<&String>) -> (s: String)
    ensures
        s@ == logoff_text(
            id as nat,
            match name {
                Some(n) => Some(n@),
                None => None,
            },
        ),
{
    match name {
        Some(n) => {
            let mut s = String::from_str(n.as_str());
            s.append(" has logged off");
            s
        },
        None => {
            let mut s = String::from_str("Connection id ");
            let digits = render_decimal(id);
            s.append(digits.as_str());
            s.append(" has logged off");
            s
        },
    }
}

/// Builds the welcome notice of connection `id`.
pub fn welcome_notice(id: u64) -> (s: String)
    ensures
        s@ == welcome_text(id as nat),
{
    let mut s = String::from_str("You are connection id ");
    let digits = render_decimal(id);
    s.append(digits.as_str());
    s
}

/// Builds the notice that tells a connection that `payload` could not be
/// decoded, for the given `reason`.
pub fn parse_failure_notice(reason: &str, payload: &str) -> (s: String)
    ensures
        s@ == parse_failure_text(reason@, payload@),
{
    let mut s = String::from_str("Failed to parse your message ");
    s.append(reason);
    s.append(": ");
    s.append(payload);
    s
}

} // verus!
