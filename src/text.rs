//! Building text: repeated glyphs, two-digit numbers, padding.
use vstd::prelude::*;

verus! {

/// `s` written `n` times.
pub open spec fn repeat(s: Seq<char>, n: nat) -> Seq<char>
    decreases n,
{
    if n == 0 {
        Seq::empty()
    } else {
        repeat(s, (n - 1) as nat) + s
    }
}

pub open spec fn digit_char(d: int) -> char {
    seq!['0', '1', '2', '3', '4', '5', '6', '7', '8', '9'][d]
}

/// A number below 100 written with two digits, zero-padded.
pub open spec fn two_digits(n: int) -> Seq<char> {
    seq![digit_char(n / 10), digit_char(n % 10)]
}

/// `s` followed by spaces up to `width` characters; as is when longer.
pub open spec fn pad_right(s: Seq<char>, width: nat) -> Seq<char> {
    if s.len() >= width {
        s
    } else {
        s + repeat(seq![' '], (width - s.len()) as nat)
    }
}

/// Appends `s` to `out` `n` times.
pub fn push_repeat(out: &mut String, s: &str, n: usize)
    ensures
        final(out)@ == old(out)@ + repeat(s@, n as nat),
{
    let mut i: usize = 0;
    while i < n
        invariant
            i <= n,
            out@ == old(out)@ + repeat(s@, i as nat),
        decreases n - i,
    {
        out.append(s);
        i += 1;
        proof {
            assert(repeat(s@, i as nat) == repeat(s@, (i - 1) as nat) + s@);
            assert(old(out)@ + repeat(s@, i as nat) =~= old(out)@ + repeat(s@, (i - 1) as nat) + s@);
        }
    }
}

/// Appends one decimal digit.
pub fn push_digit(out: &mut String, d: u32)
    requires
        d < 10,
    ensures
        final(out)@ == old(out)@ + seq![digit_char(d as int)],
{
    proof {
        reveal_strlit("0");
        reveal_strlit("1");
        reveal_strlit("2");
        reveal_strlit("3");
        reveal_strlit("4");
        reveal_strlit("5");
        reveal_strlit("6");
        reveal_strlit("7");
        reveal_strlit("8");
        reveal_strlit("9");
    }
    let s = match d {
        0 => "0",
        1 => "1",
        2 => "2",
        3 => "3",
        4 => "4",
        5 => "5",
        6 => "6",
        7 => "7",
        8 => "8",
        _ => "9",
    };
    out.append(s);
    assert(s@ =~= seq![digit_char(d as int)]);
}

/// Appends a number below 100 as two digits.
pub fn push_two_digits(out: &mut String, n: u32)
    requires
        n < 100,
    ensures
        final(out)@ == old(out)@ + two_digits(n as int),
{
    push_digit(out, n / 10);
    push_digit(out, n % 10);
    assert(out@ =~= old(out)@ + two_digits(n as int));
}

/// Appends `s` padded with spaces to `width` characters.
pub fn push_padded(out: &mut String, s: &str, width: usize)
    ensures
        final(out)@ == old(out)@ + pad_right(s@, width as nat),
{
    proof {
        reveal_strlit(" ");
        assert(" "@ =~= seq![' ']);
    }
    let len = s.unicode_len();
    out.append(s);
    if len < width {
        push_repeat(out, " ", width - len);
        assert(out@ =~= old(out)@ + pad_right(s@, width as nat));
    } else {
        assert(out@ =~= old(out)@ + pad_right(s@, width as nat));
    }
}

} // verus!

verus! {

/// Whether two strings hold the same characters.
pub fn text_eq(a: &str, b: &str) -> (r: bool)
    ensures
        r == (a@ == b@),
{
    let n = a.unicode_len();
    if n != b.unicode_len() {
        return false;
    }
    let mut i: usize = 0;
    while i < n
        invariant
            i <= n,
            n == a@.len(),
            n == b@.len(),
            forall|j: int| 0 <= j < i ==> a@[j] == b@[j],
        decreases n - i,
    {
        if a.get_char(i) != b.get_char(i) {
            return false;
        }
        i += 1;
    }
    assert(a@ =~= b@);
    true
}

} // verus!

verus! {

/// Decimal digits of a natural number.
pub open spec fn nat_decimal(n: nat) -> Seq<char>
    decreases n,
{
    if n < 10 {
        seq![digit_char(n as int)]
    } else {
        nat_decimal(n / 10) + seq![digit_char((n % 10) as int)]
    }
}

/// Decimal form of an integer, with a leading `-` when negative.
pub open spec fn decimal(n: int) -> Seq<char> {
    if n < 0 {
        seq!['-'] + nat_decimal((-n) as nat)
    } else {
        nat_decimal(n as nat)
    }
}

fn push_nat_decimal(out: &mut String, n: u64)
    ensures
        final(out)@ == old(out)@ + nat_decimal(n as nat),
    decreases n,
{
    if n < 10 {
        push_digit(out, n as u32);
    } else {
        push_nat_decimal(out, n / 10);
        push_digit(out, (n % 10) as u32);
        assert(out@ =~= old(out)@ + nat_decimal(n as nat));
    }
}

/// Appends an integer in decimal.
pub fn push_decimal(out: &mut String, n: i32)
    ensures
        final(out)@ == old(out)@ + decimal(n as int),
{
    proof {
        reveal_strlit("-");
    }
    if n < 0 {
        out.append("-");
        let m: i64 = -(n as i64);
        push_nat_decimal(out, m as u64);
        assert(out@ =~= old(out)@ + decimal(n as int));
    } else {
        push_nat_decimal(out, n as u64);
    }
}

/// `s` centered in `width` columns; where the padding is odd the extra space
/// goes to the right.
pub open spec fn centered(s: Seq<char>, width: nat) -> Seq<char> {
    if s.len() >= width {
        s
    } else {
        let left = ((width - s.len()) / 2) as nat;
        let right = (width - s.len() - left) as nat;
        repeat(seq![' '], left) + s + repeat(seq![' '], right)
    }
}

/// Appends `s` centered in `width` columns.
pub fn push_centered(out: &mut String, s: &str, width: usize)
    ensures
        final(out)@ == old(out)@ + centered(s@, width as nat),
{
    proof {
        reveal_strlit(" ");
        assert(" "@ =~= seq![' ']);
    }
    let len = s.unicode_len();
    if len >= width {
        out.append(s);
    } else {
        let left = (width - len) / 2;
        let right = width - len - left;
        push_repeat(out, " ", left);
        out.append(s);
        push_repeat(out, " ", right);
        assert(out@ =~= old(out)@ + centered(s@, width as nat));
    }
}

} // verus!

verus! {

/// A natural number in decimal, zero-padded to at least two digits.
pub open spec fn zero_pad2(n: nat) -> Seq<char> {
    if n < 10 {
        seq!['0'] + nat_decimal(n)
    } else {
        nat_decimal(n)
    }
}

pub fn push_zero_pad2(out: &mut String, n: u32)
    ensures
        final(out)@ == old(out)@ + zero_pad2(n as nat),
{
    proof {
        reveal_strlit("0");
    }
    if n < 10 {
        out.append("0");
        push_digit(out, n);
        assert(out@ =~= old(out)@ + zero_pad2(n as nat));
    } else {
        push_nat_decimal(out, n as u64);
    }
}

} // verus!

verus! {

/// Relies on std's `String::push`: the character is appended at the end.
#[verifier::external_body]
pub fn push_char(out: &mut String, c: char)
    ensures
        final(out)@ == old(out)@.push(c),
{
    out.push(c);
}

} // verus!
