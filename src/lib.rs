use vstd::prelude::*;

verus! {

/// Why a sum could not be formatted.
#[derive(PartialEq, Eq, Structural, Debug, Clone, Copy)]
pub enum ErrorKind {
    /// The sum exceeds `usize::MAX`.
    ArithmeticOverflow,
}

/// The character that stands for the decimal digit `d` (`d < 10`).
pub open spec fn digit_char(d: nat) -> char {
    ((48 + d) as u32) as char
}

/// The decimal digits of `n`, most significant first, with no leading zero
/// (zero itself is the single digit `'0'`).
pub open spec fn decimal(n: nat) -> Seq<char>
    decreases n,
{
    if n < 10 {
        seq![digit_char(n)]
    } else {
        decimal(n / 10).push(digit_char(n % 10))
    }
}

/// The number that a decimal digit character stands for.
pub open spec fn digit_value(c: char) -> int {
    (c as int) - 48
}

/// Whether `c` is one of `'0'` to `'9'`.
pub open spec fn is_digit(c: char) -> bool {
    '0' <= c && c <= '9'
}

/// The number that a string of decimal digits denotes, most significant first.
pub open spec fn decimal_value(s: Seq<char>) -> int
    decreases s.len(),
{
    if s.len() == 0 {
        0
    } else {
        decimal_value(s.drop_last()) * 10 + digit_value(s.last())
    }
}

/// What `sum_as_string(a, b)` yields: the digits of `a + b` where it fits in
/// a `usize`, and `ArithmeticOverflow` where it does not.
pub open spec fn sum_text(a: nat, b: nat) -> Result<Seq<char>, ErrorKind> {
    if a + b <= usize::MAX {
        Ok(decimal(a + b))
    } else {
        Err(ErrorKind::ArithmeticOverflow)
    }
}

/// The digits of `n` are at least one, all decimal, read back as `n`, and
/// begin with a nonzero digit when `n` is positive.
proof fn lemma_decimal_shape(n: nat)
    ensures
        decimal(n).len() >= 1,
        forall|i: int| 0 <= i < decimal(n).len() ==> is_digit(#[trigger] decimal(n)[i]),
        decimal_value(decimal(n)) == n,
        n > 0 ==> decimal(n)[0] != '0',
    decreases n,
{
    if n >= 10 {
        lemma_decimal_shape(n / 10);
        let s = decimal(n);
        assert(s.drop_last() =~= decimal(n / 10));
        assert(s[0] == decimal(n / 10)[0]);
        assert(digit_value(digit_char(n % 10)) == n % 10);
        assert(decimal_value(s) == (n / 10) * 10 + n % 10);
        assert((n / 10) * 10 + n % 10 == n);
    } else {
        assert(digit_value(digit_char(n)) == n);
        assert(seq![digit_char(n)].drop_last() =~= Seq::<char>::empty());
        assert(decimal_value(Seq::<char>::empty()) == 0);
    }
}

/// Read back as a number, the digits of a sum that fits in a `usize` give
/// the sum, and they are all decimal digits.
pub proof fn lemma_sum_reads_back(a: usize, b: usize)
    requires
        a + b <= usize::MAX,
    ensures
        sum_text(a as nat, b as nat) is Ok,
        decimal_value(sum_text(a as nat, b as nat)->Ok_0) == a + b,
        forall|i: int|
            0 <= i < sum_text(a as nat, b as nat)->Ok_0.len() ==> is_digit(
                #[trigger] sum_text(a as nat, b as nat)->Ok_0[i],
            ),
{
    lemma_decimal_shape((a + b) as nat);
}

/// The order of the operands does not change the result.
pub proof fn lemma_sum_commutes(a: usize, b: usize)
    ensures
        sum_text(a as nat, b as nat) == sum_text(b as nat, a as nat),
{
}

/// The text of a positive sum never starts with `'0'`.
pub proof fn lemma_no_leading_zero(a: usize, b: usize)
    requires
        a + b > 0,
        a + b <= usize::MAX,
    ensures
        sum_text(a as nat, b as nat)->Ok_0[0] != '0',
{
    lemma_decimal_shape((a + b) as nat);
}

fn digit_str(d: usize) -> (r: &'static str)
    requires
        d < 10,
    ensures
        r@ == seq![digit_char(d as nat)],
{
    if d == 0 {
        proof { reveal_strlit("0"); }
        "0"
    } else if d == 1 {
        proof { reveal_strlit("1"); }
        "1"
    } else if d == 2 {
        proof { reveal_strlit("2"); }
        "2"
    } else if d == 3 {
        proof { reveal_strlit("3"); }
        "3"
    } else if d == 4 {
        proof { reveal_strlit("4"); }
        "4"
    } else if d == 5 {
        proof { reveal_strlit("5"); }
        "5"
    } else if d == 6 {
        proof { reveal_strlit("6"); }
        "6"
    } else if d == 7 {
        proof { reveal_strlit("7"); }
        "7"
    } else if d == 8 {
        proof { reveal_strlit("8"); }
        "8"
    } else {
        proof { reveal_strlit("9"); }
        "9"
    }
}

/// Appends the decimal digits of `n` to `s`.
fn push_decimal(s: &mut String, n: usize)
    ensures
        final(s)@ == old(s)@ + decimal(n as nat),
    decreases n,
{
    if n >= 10 {
        push_decimal(s, n / 10);
    }
    s.append(digit_str(n % 10));
}

/// Formats the sum of two numbers as a decimal string, or reports
/// `ArithmeticOverflow` where the sum exceeds `usize::MAX`.
pub fn sum_as_string(a: usize, b: usize) -> (r: Result<String, ErrorKind>)
    ensures
        r is Ok <==> a + b <= usize::MAX,
        match r {
            Ok(s) => sum_text(a as nat, b as nat) == Ok::<Seq<char>, ErrorKind>(s@),
            Err(e) => sum_text(a as nat, b as nat) == Err::<Seq<char>, ErrorKind>(e),
        },
{
    match a.checked_add(b) {
        Some(n) => {
            let mut s = String::new();
            push_decimal(&mut s, n);
            Ok(s)
        },
        None => Err(ErrorKind::ArithmeticOverflow),
    }
}

} // verus!
