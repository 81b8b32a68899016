//! The identity of a caller.

use vstd::prelude::*;
use vstd::string::StringExecFns;

verus! {

/// The hexadecimal digit of a number below sixteen.
pub open spec fn hex_digit(n: nat) -> char {
    if n == 0 {
        '0'
    } else if n == 1 {
        '1'
    } else if n == 2 {
        '2'
    } else if n == 3 {
        '3'
    } else if n == 4 {
        '4'
    } else if n == 5 {
        '5'
    } else if n == 6 {
        '6'
    } else if n == 7 {
        '7'
    } else if n == 8 {
        '8'
    } else if n == 9 {
        '9'
    } else if n == 10 {
        'a'
    } else if n == 11 {
        'b'
    } else if n == 12 {
        'c'
    } else if n == 13 {
        'd'
    } else if n == 14 {
        'e'
    } else {
        'f'
    }
}

/// A number written in hexadecimal, without leading zeros.
pub open spec fn number_text(n: nat) -> Seq<char>
    decreases n,
{
    if n < 16 {
        seq![hex_digit(n)]
    } else {
        number_text(n / 16).push(hex_digit(n % 16))
    }
}

/// A number is written with at least one digit, and with more than one from
/// sixteen on.
pub proof fn lemma_number_text_len(n: nat)
    ensures
        number_text(n).len() >= 1,
        n >= 16 ==> number_text(n).len() >= 2,
    decreases n,
{
    if n >= 16 {
        lemma_number_text_len(n / 16);
    }
}

/// Different numbers are written differently.
pub proof fn law_number_text_is_injective(m: nat, n: nat)
    requires
        number_text(m) == number_text(n),
    ensures
        m == n,
    decreases m,
{
    lemma_number_text_len(m);
    lemma_number_text_len(n);
    if m < 16 && n < 16 {
        assert(number_text(m)[0] == hex_digit(m));
        assert(number_text(n)[0] == hex_digit(n));
        assert(hex_digit(m) == hex_digit(n));
    } else if m >= 16 && n >= 16 {
        let a = number_text(m / 16);
        let b = number_text(n / 16);
        assert(number_text(m).drop_last() =~= a);
        assert(number_text(n).drop_last() =~= b);
        assert(number_text(m).last() == hex_digit(m % 16));
        assert(number_text(n).last() == hex_digit(n % 16));
        assert(a == b);
        law_number_text_is_injective(m / 16, n / 16);
        assert(m % 16 == n % 16);
        assert(m == 16 * (m / 16) + m % 16);
        assert(n == 16 * (n / 16) + n % 16);
    } else {
        assert(number_text(m).len() != number_text(n).len());
    }
}

/// The identity of a caller, as the authentication layer hands it over. The
/// store compares identities and reads nothing into them.
#[derive(Debug, PartialEq, Eq, Hash)]
pub struct CallerId(String);

impl View for CallerId {
    type V = Seq<char>;

    closed spec fn view(&self) -> Seq<char> {
        self.0@
    }
}

/// The digit of a number below sixteen, as a string.
fn digit(n: u8) -> (s: &'static str)
    requires
        n < 16,
    ensures
        s@ == seq![hex_digit(n as nat)],
{
    let s = match n {
        0 => "0",
        1 => "1",
        2 => "2",
        3 => "3",
        4 => "4",
        5 => "5",
        6 => "6",
        7 => "7",
        8 => "8",
        9 => "9",
        10 => "a",
        11 => "b",
        12 => "c",
        13 => "d",
        14 => "e",
        _ => "f",
    };
    proof {
        reveal_strlit("0");
        reveal_strlit("1");
        reveal_strlit("2");
        reveal_strlit("3");
        reveal_strlit("4");
        reveal_strlit("5");
        reveal_strlit("6");
        reveal_strlit("7");
        reveal_strlit("8");
        reveal_strlit("9");
        reveal_strlit("a");
        reveal_strlit("b");
        reveal_strlit("c");
        reveal_strlit("d");
        reveal_strlit("e");
        reveal_strlit("f");
        assert(s@ =~= seq![hex_digit(n as nat)]);
    }
    s
}

/// Writes a number behind what `text` holds.
fn write_number(n: u128, text: &mut String)
    ensures
        final(text)@ == old(text)@ + number_text(n as nat),
    decreases n,
{
    if n >= 16 {
        write_number(n / 16, text);
    }
    text.append(digit((n % 16) as u8));
    assert(text@ =~= old(text)@ + number_text(n as nat));
}

impl CallerId {
    /// Wraps an identity.
    pub fn new(id: String) -> (caller: CallerId)
        ensures
            caller@ == id@,
    {
        CallerId(id)
    }

    /// The identity of the user with number `user_id`: the number in
    /// hexadecimal. Different users are different callers.
    pub fn of_user(user_id: u128) -> (caller: CallerId)
        ensures
            caller@ == number_text(user_id as nat),
    {
        let mut text = String::new();
        write_number(user_id, &mut text);
        assert(text@ =~= number_text(user_id as nat));
        CallerId(text)
    }

    /// Lends the identity as a string slice.
    pub fn as_str(&self) -> (s: &str)
        ensures
            s@ == self@,
    {
        self.0.as_str()
    }

    /// Tells whether two identities are the same.
    pub fn same(&self, other: &CallerId) -> (b: bool)
        ensures
            b == (self@ == other@),
    {
        self.0 == other.0
    }
}

impl Clone for CallerId {
    fn clone(&self) -> (copy: CallerId)
        ensures
            copy@ == self@,
    {
        CallerId(self.0.clone())
    }
}

} // verus!
