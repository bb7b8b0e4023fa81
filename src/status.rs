use vstd::prelude::*;
use crate::shadow::{find_spec, ShadowEntry, ShadowFile};

verus! {

/// The state of an account's password, derived from the password field.
#[derive(Debug, Clone, Copy, PartialEq, Eq)]
pub enum PasswordState {
    /// The field is `*`, `!` or `!*`: password login is refused.
    Locked,
    /// The field is empty: no password is asked for.
    NoPassword,
    /// Any other value, taken as an opaque hash.
    Passworded,
}

/// Whether a password field is one of the locking sentinels.
pub open spec fn is_lock_sentinel(p: Seq<char>) -> bool {
    p == seq!['*'] || p == seq!['!'] || p == seq!['!', '*']
}

/// The state that a password field denotes.
pub open spec fn classify_spec(p: Seq<char>) -> PasswordState {
    if is_lock_sentinel(p) {
        PasswordState::Locked
    } else if p.len() == 0 {
        PasswordState::NoPassword
    } else {
        PasswordState::Passworded
    }
}

/// The short code under which a state is reported.
pub open spec fn state_code(s: PasswordState) -> Seq<char> {
    match s {
        PasswordState::Locked => seq!['L'],
        PasswordState::NoPassword => seq!['N', 'P'],
        PasswordState::Passworded => seq!['P'],
    }
}

/// Classifies a password field; every value falls in exactly one state.
pub fn classify(passwd: &str) -> (r: PasswordState)
    ensures
        r == classify_spec(passwd@),
{
    let n = passwd.unicode_len();
    if n == 0 {
        return PasswordState::NoPassword;
    }
    let c0 = passwd.get_char(0);
    if n == 1 && (c0 == '*' || c0 == '!') {
        assert(passwd@ =~= seq![c0]);
        return PasswordState::Locked;
    }
    if n == 2 && c0 == '!' && passwd.get_char(1) == '*' {
        assert(passwd@ =~= seq!['!', '*']);
        return PasswordState::Locked;
    }
    assert(!is_lock_sentinel(passwd@)) by {
        if n == 1 {
            assert(passwd@[0] == c0);
        }
    }
    PasswordState::Passworded
}

impl PasswordState {
    /// The short code of this state: `L`, `NP` or `P`.
    pub fn code(&self) -> (r: &'static str)
        ensures
            r@ == state_code(*self),
    {
        proof {
            reveal_strlit("L");
            reveal_strlit("NP");
            reveal_strlit("P");
        }
        match self {
            PasswordState::Locked => "L",
            PasswordState::NoPassword => "NP",
            PasswordState::Passworded => "P",
        }
    }
}

/// The status code of a password field: `L`, `NP` or `P`.
pub fn passwd_lock_type(passwd: &str) -> (r: &'static str)
    ensures
        r@ == state_code(classify_spec(passwd@)),
{
    classify(passwd).code()
}

/// The character of a decimal digit.
pub open spec fn decimal_digit(d: int) -> char {
    seq!['0', '1', '2', '3', '4', '5', '6', '7', '8', '9'][d]
}

/// A natural number written in decimal, without leading zeros.
pub open spec fn nat_text(n: nat) -> Seq<char>
    decreases n,
{
    if n < 10 {
        seq![decimal_digit(n as int)]
    } else {
        nat_text(n / 10).push(decimal_digit(n as int % 10))
    }
}

/// An integer written in decimal, with a leading `-` when negative.
pub open spec fn int_text(i: int) -> Seq<char> {
    if i < 0 {
        seq!['-'] + nat_text((-i) as nat)
    } else {
        nat_text(i as nat)
    }
}

/// The status line of an entry: name, password state, last change, and the
/// minimum, maximum, warning and inactivity day counts, separated by spaces.
pub open spec fn status_text(e: ShadowEntry) -> Seq<char> {
    e.login_name@ + seq![' '] + state_code(classify_spec(e.password_field@)) + seq![' ']
        + int_text(e.last_change as int) + seq![' '] + int_text(e.min_days as int) + seq![' ']
        + int_text(e.max_days as int) + seq![' '] + int_text(e.warn_days as int) + seq![' ']
        + int_text(e.inactive_days as int)
}

/// What is reported for a name that no entry has.
pub open spec fn no_such_user() -> Seq<char> {
    seq!['N', 'o', ' ', 's', 'u', 'c', 'h', ' ', 'u', 's', 'e', 'r']
}

fn digit_text(d: u64) -> (r: &'static str)
    requires
        d < 10,
    ensures
        r@ == seq![decimal_digit(d as int)],
{
    proof {
        reveal_strlit("0");
        reveal_strlit("1");
        reveal_strlit("2");
        reveal_strlit("3");
        reveal_strlit("4");
        reveal_strlit("5");
        reveal_strlit("6");
        reveal_strlit("7");
        reveal_strlit("8");
        reveal_strlit("9");
    }
    match d {
        0 => "0",
        1 => "1",
        2 => "2",
        3 => "3",
        4 => "4",
        5 => "5",
        6 => "6",
        7 => "7",
        8 => "8",
        _ => "9",
    }
}

fn append_nat(out: &mut String, n: u64)
    ensures
        final(out)@ == old(out)@ + nat_text(n as nat),
    decreases n,
{
    if n >= 10 {
        append_nat(out, n / 10);
    }
    out.append(digit_text(n % 10));
    assert(old(out)@ + nat_text(n as nat) =~= final(out)@);
}

/// Appends an integer written in decimal.
pub fn append_int(out: &mut String, v: i64)
    ensures
        final(out)@ == old(out)@ + int_text(v as int),
{
    if v < 0 {
        proof {
            reveal_strlit("-");
        }
        out.append("-");
        let m: u64 = if v == i64::MIN {
            0x8000_0000_0000_0000u64
        } else {
            (-v) as u64
        };
        append_nat(out, m);
        assert(final(out)@ =~= old(out)@ + int_text(v as int));
    } else {
        append_nat(out, v as u64);
    }
}

/// The status line of one entry.
pub fn status_line(e: &ShadowEntry) -> (r: String)
    ensures
        r@ == status_text(*e),
{
    proof {
        reveal_strlit(" ");
    }
    let mut out = String::from_str(e.login_name.as_str());
    out.append(" ");
    out.append(passwd_lock_type(e.password_field.as_str()));
    out.append(" ");
    append_int(&mut out, e.last_change);
    out.append(" ");
    append_int(&mut out, e.min_days);
    out.append(" ");
    append_int(&mut out, e.max_days);
    out.append(" ");
    append_int(&mut out, e.warn_days);
    out.append(" ");
    append_int(&mut out, e.inactive_days);
    assert(out@ =~= status_text(*e));
    out
}

/// The status of account `name` in the store: its status line, or
/// `No such user` when no entry has that name.
pub fn status_report(store: &ShadowFile, name: &str) -> (r: String)
    ensures
        r@ == match find_spec(store.entries@, name@) {
            Some(e) => status_text(e),
            None => no_such_user(),
        },
{
    match store.find_by_name(name) {
        Some(e) => status_line(e),
        None => {
            proof {
                reveal_strlit("No such user");
            }
            String::from_str("No such user")
        },
    }
}

} // verus!
