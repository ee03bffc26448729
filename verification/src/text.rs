use vstd::prelude::*;
use vstd::string::StringExecFns;

verus! {

/// The character for one decimal digit.
pub open spec fn digit_char(d: nat) -> char {
    if d == 0 {
        '0'
    } else if d == 1 {
        '1'
    } else if d == 2 {
        '2'
    } else if d == 3 {
        '3'
    } else if d == 4 {
        '4'
    } else if d == 5 {
        '5'
    } else if d == 6 {
        '6'
    } else if d == 7 {
        '7'
    } else if d == 8 {
        '8'
    } else {
        '9'
    }
}

/// The decimal rendering of `n`, most significant digit first, no leading zeros
/// (a single `'0'` for zero itself).
pub open spec fn spec_decimal(n: nat) -> Seq<char>
    decreases n,
{
    if n < 10 {
        seq![digit_char(n)]
    } else {
        spec_decimal(n / 10) + seq![digit_char(n % 10)]
    }
}

fn push_digit(s: &mut String, d: u32)
    requires
        d < 10,
    ensures
        final(s)@ == old(s)@ + seq![digit_char(d as nat)],
{
    proof {
        reveal_strlit("0");
        reveal_strlit("1");
        reveal_strlit("2");
        reveal_strlit("3");
        reveal_strlit("4");
        reveal_strlit("5");
        reveal_strlit("6");
        reveal_strlit("7");
        reveal_strlit("8");
        reveal_strlit("9");
    }
    if d == 0 {
        s.append("0");
        assert(("0")@ =~= seq![digit_char(d as nat)]);
    } else if d == 1 {
        s.append("1");
        assert(("1")@ =~= seq![digit_char(d as nat)]);
    } else if d == 2 {
        s.append("2");
        assert(("2")@ =~= seq![digit_char(d as nat)]);
    } else if d == 3 {
        s.append("3");
        assert(("3")@ =~= seq![digit_char(d as nat)]);
    } else if d == 4 {
        s.append("4");
        assert(("4")@ =~= seq![digit_char(d as nat)]);
    } else if d == 5 {
        s.append("5");
        assert(("5")@ =~= seq![digit_char(d as nat)]);
    } else if d == 6 {
        s.append("6");
        assert(("6")@ =~= seq![digit_char(d as nat)]);
    } else if d == 7 {
        s.append("7");
        assert(("7")@ =~= seq![digit_char(d as nat)]);
    } else if d == 8 {
        s.append("8");
        assert(("8")@ =~= seq![digit_char(d as nat)]);
    } else {
        s.append("9");
        assert(("9")@ =~= seq![digit_char(d as nat)]);
    }
}

/// Appends the decimal rendering of `n` to `s`.
pub fn push_decimal(s: &mut String, n: u32)
    ensures
        final(s)@ == old(s)@ + spec_decimal(n as nat),
    decreases n,
{
    if n < 10 {
        push_digit(s, n);
    } else {
        push_decimal(s, n / 10);
        push_digit(s, n % 10);
        assert(old(s)@ + spec_decimal((n / 10) as nat) + seq![digit_char((n % 10) as nat)] =~= old(
            s,
        )@ + spec_decimal(n as nat));
    }
}

/// The decimal rendering of `n` as an owned string.
pub fn decimal_string(n: u32) -> (s: String)
    ensures
        s@ == spec_decimal(n as nat),
{
    let mut s = String::new();
    push_decimal(&mut s, n);
    proof {
        assert(Seq::<char>::empty() + spec_decimal(n as nat) =~= spec_decimal(n as nat));
    }
    s
}

} // verus!
