//! Text made from numbers, and comparison of text.

use vstd::prelude::*;
use vstd::string::*;

verus! {

/// The decimal digit of `d`.
pub open spec fn digit(d: nat) -> char {
    if d == 0 {
        '0'
    } else if d == 1 {
        '1'
    } else if d == 2 {
        '2'
    } else if d == 3 {
        '3'
    } else if d == 4 {
        '4'
    } else if d == 5 {
        '5'
    } else if d == 6 {
        '6'
    } else if d == 7 {
        '7'
    } else if d == 8 {
        '8'
    } else {
        '9'
    }
}

/// `n` in decimal digits, without leading zeros.
pub open spec fn digits(n: nat) -> Seq<char>
    decreases n,
{
    if n < 10 {
        seq![digit(n)]
    } else {
        digits(n / 10).push(digit(n % 10))
    }
}

/// `n` in decimal, with a minus sign where it is negative.
pub open spec fn decimal(n: int) -> Seq<char> {
    if n < 0 {
        seq!['-'] + digits((-n) as nat)
    } else {
        digits(n as nat)
    }
}

/// Whether two pieces of text are the same.
pub fn same_text(a: &str, b: &str) -> (same: bool)
    ensures
        same == (a@ == b@),
{
    a.to_owned() == b.to_owned()
}

/// One piece of text after the other.
pub fn join(a: &str, b: &str) -> (joined: String)
    ensures
        joined@ == a@ + b@,
{
    let mut out = a.to_owned();
    out.append(b);
    out
}

fn digit_text(d: u64) -> (text: &'static str)
    requires
        d < 10,
    ensures
        text@ == seq![digit(d as nat)],
{
    proof {
        reveal_strlit("0");
        reveal_strlit("1");
        reveal_strlit("2");
        reveal_strlit("3");
        reveal_strlit("4");
        reveal_strlit("5");
        reveal_strlit("6");
        reveal_strlit("7");
        reveal_strlit("8");
        reveal_strlit("9");
    }
    let text = if d == 0 {
        "0"
    } else if d == 1 {
        "1"
    } else if d == 2 {
        "2"
    } else if d == 3 {
        "3"
    } else if d == 4 {
        "4"
    } else if d == 5 {
        "5"
    } else if d == 6 {
        "6"
    } else if d == 7 {
        "7"
    } else if d == 8 {
        "8"
    } else {
        "9"
    };
    assert(text@ =~= seq![digit(d as nat)]);
    text
}

fn append_digits(out: &mut String, n: u64)
    ensures
        final(out)@ == old(out)@ + digits(n as nat),
    decreases n,
{
    if n >= 10 {
        append_digits(out, n / 10);
    }
    out.append(digit_text(n % 10));
    assert(out@ =~= old(out)@ + digits(n as nat));
}

/// An unsigned number in decimal.
pub fn decimal_u64(n: u64) -> (text: String)
    ensures
        text@ == decimal(n as int),
{
    let mut out = String::new();
    append_digits(&mut out, n);
    assert(out@ =~= decimal(n as int));
    out
}

/// A signed number in decimal.
pub fn decimal_i64(n: i64) -> (text: String)
    ensures
        text@ == decimal(n as int),
{
    if n < 0 {
        proof {
            reveal_strlit("-");
        }
        let mut out = "-".to_owned();
        assert(out@ =~= seq!['-']);
        append_digits(&mut out, (-(n as i128)) as u64);
        out
    } else {
        decimal_u64(n as u64)
    }
}

/// The lower-case hexadecimal digit of `d`.
pub open spec fn hex_digit(d: nat) -> char {
    if d < 10 {
        digit(d)
    } else if d == 10 {
        'a'
    } else if d == 11 {
        'b'
    } else if d == 12 {
        'c'
    } else if d == 13 {
        'd'
    } else if d == 14 {
        'e'
    } else {
        'f'
    }
}

/// `n` in hexadecimal digits, without leading zeros.
pub open spec fn hex_digits(n: nat) -> Seq<char>
    decreases n,
{
    if n < 16 {
        seq![hex_digit(n)]
    } else {
        hex_digits(n / 16).push(hex_digit(n % 16))
    }
}

/// An address as text.
pub open spec fn pointer_text(address: u64) -> Seq<char> {
    "0x"@ + hex_digits(address as nat)
}

fn hex_digit_text(d: u64) -> (text: &'static str)
    requires
        d < 16,
    ensures
        text@ == seq![hex_digit(d as nat)],
{
    if d < 10 {
        return digit_text(d);
    }
    proof {
        reveal_strlit("a");
        reveal_strlit("b");
        reveal_strlit("c");
        reveal_strlit("d");
        reveal_strlit("e");
        reveal_strlit("f");
    }
    let text = if d == 10 {
        "a"
    } else if d == 11 {
        "b"
    } else if d == 12 {
        "c"
    } else if d == 13 {
        "d"
    } else if d == 14 {
        "e"
    } else {
        "f"
    };
    assert(text@ =~= seq![hex_digit(d as nat)]);
    text
}

fn append_hex_digits(out: &mut String, n: u64)
    ensures
        final(out)@ == old(out)@ + hex_digits(n as nat),
    decreases n,
{
    if n >= 16 {
        append_hex_digits(out, n / 16);
    }
    out.append(hex_digit_text(n % 16));
    assert(out@ =~= old(out)@ + hex_digits(n as nat));
}

/// An address as text.
pub fn pointer(address: u64) -> (text: String)
    ensures
        text@ == pointer_text(address),
{
    let mut out = "0x".to_owned();
    append_hex_digits(&mut out, address);
    out
}

/// The number that a row of decimal digits stands for.
pub open spec fn value_of_digits(s: Seq<char>) -> int
    decreases s.len(),
{
    if s.len() == 0 {
        0
    } else {
        10 * value_of_digits(s.drop_last()) + (s.last() as int - '0' as int)
    }
}

proof fn lemma_digits_read_back(n: nat)
    ensures
        value_of_digits(digits(n)) == n,
        digits(n).len() > 0,
        forall|i: int| 0 <= i < digits(n).len() ==> '0' <= #[trigger] digits(n)[i] <= '9',
        n > 0 ==> digits(n)[0] != '0',
    decreases n,
{
    reveal_with_fuel(value_of_digits, 2);
    if n < 10 {
        assert(digits(n).drop_last() =~= Seq::empty());
        assert(digits(n).last() == digit(n));
    } else {
        lemma_digits_read_back(n / 10);
        assert(digits(n).drop_last() =~= digits(n / 10));
        assert(digits(n).last() == digit(n % 10));
        assert(digits(n)[0] == digits(n / 10)[0]);
    }
}

/// A number's text is its decimal digits, behind a minus sign where it is negative: read back
/// they are the number, and the first of them is no zero but where it is the only one.
pub proof fn lemma_decimal_reads_back(n: i64, text: String)
    requires
        call_ensures(decimal_i64, (n,), text),
    ensures
        text@.len() > 0,
        n >= 0 ==> value_of_digits(text@) == n,
        n < 0 ==> text@[0] == '-' && value_of_digits(text@.skip(1)) == -n,
        forall|i: int|
            (if n < 0 {
                1int
            } else {
                0
            }) <= i < text@.len() ==> '0' <= #[trigger] text@[i] <= '9',
        n > 0 ==> text@[0] != '0',
        n < 0 ==> text@[1] != '0',
        n == 0 ==> text@.len() == 1,
{
    if n < 0 {
        lemma_digits_read_back((-n) as nat);
        assert(text@.skip(1) =~= digits((-n) as nat));
    } else {
        lemma_digits_read_back(n as nat);
    }
}

/// An unsigned number's text is its decimal digits: read back they are the number, and the
/// first of them is no zero but where it is the only one.
pub proof fn lemma_unsigned_decimal_reads_back(n: u64, text: String)
    requires
        call_ensures(decimal_u64, (n,), text),
    ensures
        text@.len() > 0,
        value_of_digits(text@) == n,
        forall|i: int| 0 <= i < text@.len() ==> '0' <= #[trigger] text@[i] <= '9',
        n > 0 ==> text@[0] != '0',
        n == 0 ==> text@.len() == 1,
{
    lemma_digits_read_back(n as nat);
}

/// Numbers that differ have different texts.
pub proof fn lemma_decimals_differ(a: int, b: int)
    ensures
        decimal(a) == decimal(b) ==> a == b,
{
    if a < 0 {
        lemma_digits_read_back((-a) as nat);
        assert(decimal(a).skip(1) =~= digits((-a) as nat));
    } else {
        lemma_digits_read_back(a as nat);
    }
    if b < 0 {
        lemma_digits_read_back((-b) as nat);
        assert(decimal(b).skip(1) =~= digits((-b) as nat));
    } else {
        lemma_digits_read_back(b as nat);
    }
    if decimal(a) == decimal(b) {
        assert(decimal(a)[0] == decimal(b)[0]);
    }
}

/// The number that a row of hexadecimal digits stands for.
pub open spec fn value_of_hex_digits(s: Seq<char>) -> int
    decreases s.len(),
{
    if s.len() == 0 {
        0
    } else {
        16 * value_of_hex_digits(s.drop_last()) + (if s.last() <= '9' {
            s.last() as int - '0' as int
        } else {
            s.last() as int - 'a' as int + 10
        })
    }
}

proof fn lemma_hex_digits_read_back(n: nat)
    ensures
        value_of_hex_digits(hex_digits(n)) == n,
        hex_digits(n).len() > 0,
        forall|i: int|
            0 <= i < hex_digits(n).len() ==> {
                ||| '0' <= #[trigger] hex_digits(n)[i] <= '9'
                ||| 'a' <= hex_digits(n)[i] <= 'f'
            },
        n > 0 ==> hex_digits(n)[0] != '0',
    decreases n,
{
    reveal_with_fuel(value_of_hex_digits, 2);
    if n < 16 {
        assert(hex_digits(n).drop_last() =~= Seq::empty());
        assert(hex_digits(n).last() == hex_digit(n));
    } else {
        lemma_hex_digits_read_back(n / 16);
        assert(hex_digits(n).drop_last() =~= hex_digits(n / 16));
        assert(hex_digits(n).last() == hex_digit(n % 16));
        assert(hex_digits(n)[0] == hex_digits(n / 16)[0]);
    }
}

/// An address is shown as `0x` and its hexadecimal digits: read back they are the address, and
/// the first of them is no zero but where it is the only one.
pub proof fn lemma_pointer_reads_back(address: u64, text: String)
    requires
        call_ensures(pointer, (address,), text),
    ensures
        text@.len() > 2,
        text@.take(2) == seq!['0', 'x'],
        value_of_hex_digits(text@.skip(2)) == address,
        address > 0 ==> text@[2] != '0',
        address == 0 ==> text@.len() == 3,
{
    reveal_strlit("0x");
    lemma_hex_digits_read_back(address as nat);
    assert(text@.skip(2) =~= hex_digits(address as nat));
    assert(text@.take(2) =~= seq!['0', 'x']);
}

/// Joined text starts with the one piece and goes on with the other.
pub proof fn lemma_join(a: &str, b: &str, joined: String)
    requires
        call_ensures(join, (a, b), joined),
    ensures
        joined@.len() == a@.len() + b@.len(),
        joined@.take(a@.len() as int) == a@,
        joined@.skip(a@.len() as int) == b@,
{
    assert(joined@.take(a@.len() as int) =~= a@);
    assert(joined@.skip(a@.len() as int) =~= b@);
}

} // verus!
