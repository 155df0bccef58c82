use vstd::prelude::*;

verus! {

/// An optional string, as characters.
pub open spec fn opt_chars(s: Option<&String>) -> Option<Seq<char>> {
    match s {
        Some(x) => Some(x@),
        None => None,
    }
}

/// The character of a decimal digit.
pub open spec fn digit_char(d: nat) -> char {
    if d == 0 { '0' }
    else if d == 1 { '1' }
    else if d == 2 { '2' }
    else if d == 3 { '3' }
    else if d == 4 { '4' }
    else if d == 5 { '5' }
    else if d == 6 { '6' }
    else if d == 7 { '7' }
    else if d == 8 { '8' }
    else { '9' }
}

/// Decimal notation of a natural number, most significant digit first, without leading zeros.
pub open spec fn decimal(n: nat) -> Seq<char>
    decreases n,
{
    if n < 10 {
        seq![digit_char(n)]
    } else {
        decimal(n / 10).push(digit_char(n % 10))
    }
}

/// Decimal notation of an integer, with a leading `-` when it is negative.
pub open spec fn signed_decimal(x: int) -> Seq<char> {
    if x < 0 {
        seq!['-'] + decimal((-x) as nat)
    } else {
        decimal(x as nat)
    }
}

/// `n` in decimal, with zeros in front up to `width` characters; never cut short.
pub open spec fn zero_padded(n: nat, width: nat) -> Seq<char> {
    let d = decimal(n);
    if d.len() >= width {
        d
    } else {
        Seq::new((width - d.len()) as nat, |_i: int| '0') + d
    }
}

fn digit_str(d: u128) -> (r: &'static str)
    requires
        d < 10,
    ensures
        r@ == seq![digit_char(d as nat)],
{
    proof {
        reveal_strlit("0");
        reveal_strlit("1");
        reveal_strlit("2");
        reveal_strlit("3");
        reveal_strlit("4");
        reveal_strlit("5");
        reveal_strlit("6");
        reveal_strlit("7");
        reveal_strlit("8");
        reveal_strlit("9");
    }
    let r = if d == 0 { "0" }
    else if d == 1 { "1" }
    else if d == 2 { "2" }
    else if d == 3 { "3" }
    else if d == 4 { "4" }
    else if d == 5 { "5" }
    else if d == 6 { "6" }
    else if d == 7 { "7" }
    else if d == 8 { "8" }
    else { "9" };
    assert(r@ =~= seq![digit_char(d as nat)]);
    r
}

/// Writes `n` in decimal.
pub fn to_decimal(n: u128) -> (r: String)
    ensures
        r@ == decimal(n as nat),
    decreases n,
{
    if n < 10 {
        String::from_str(digit_str(n))
    } else {
        let mut s = to_decimal(n / 10);
        s.append(digit_str(n % 10));
        s
    }
}

/// Writes `x` in decimal, with a `-` in front when it is negative.
pub fn to_signed_decimal(x: i128) -> (r: String)
    ensures
        r@ == signed_decimal(x as int),
{
    if x < 0 {
        let magnitude: u128 = ((-(x + 1)) as u128) + 1;
        let digits = to_decimal(magnitude);
        let mut s = String::from_str("-");
        proof {
            reveal_strlit("-");
        }
        s.append(digits.as_str());
        assert(s@ =~= signed_decimal(x as int));
        s
    } else {
        to_decimal(x as u128)
    }
}

/// `time` in decimal, with zeros in front up to `length` characters.
/// A number with more digits than `length` is written whole.
pub fn pad_zeroes(time: usize, length: usize) -> (r: String)
    ensures
        r@ == zero_padded(time as nat, length as nat),
{
    let digits = to_decimal(time as u128);
    let str_length = digits.as_str().unicode_len();
    if str_length >= length {
        return digits;
    }
    let count = length - str_length;
    let mut s = String::new();
    let mut i: usize = 0;
    while i < count
        invariant
            i <= count,
            s@ == Seq::new(i as nat, |_j: int| '0'),
        decreases count - i,
    {
        proof {
            reveal_strlit("0");
        }
        s.append("0");
        i = i + 1;
        assert(s@ =~= Seq::new(i as nat, |_j: int| '0'));
    }
    s.append(digits.as_str());
    assert(s@ =~= zero_padded(time as nat, length as nat));
    s
}

/// Hours, minutes and seconds of a duration given in seconds.
pub open spec fn clock_parts(total: nat) -> (nat, nat, nat) {
    (total / 3600, (total % 3600) / 60, total % 60)
}

/// A duration in seconds as `HH:MM:SS`, each part at least two digits wide.
pub open spec fn clock_text(total: nat) -> Seq<char> {
    let (h, m, s) = clock_parts(total);
    zero_padded(h, 2) + seq![':'] + zero_padded(m, 2) + seq![':'] + zero_padded(s, 2)
}

/// Splits a duration in seconds into hours, minutes and the seconds left over.
pub fn split_time(total_time: usize) -> (r: (usize, usize, usize))
    ensures
        r.0 == total_time / 3600,
        r.1 == (total_time % 3600) / 60,
        r.2 == total_time - r.0 * 3600 - r.1 * 60,
        (r.0 as nat, r.1 as nat, r.2 as nat) == clock_parts(total_time as nat),
{
    let hours = total_time / 3600;
    let minutes = (total_time % 3600) / 60;
    assert(hours * 3600 + minutes * 60 <= total_time) by (nonlinear_arith)
        requires
            hours == total_time / 3600,
            minutes == (total_time % 3600) / 60,
    {
        assert(total_time == 3600 * (total_time / 3600) + total_time % 3600);
        assert(total_time % 3600 == 60 * ((total_time % 3600) / 60) + (total_time % 3600) % 60);
    }
    let seconds = total_time - (hours * 3600) - (minutes * 60);
    assert(seconds == total_time % 60) by (nonlinear_arith)
        requires
            hours == total_time / 3600,
            minutes == (total_time % 3600) / 60,
            seconds == total_time - hours * 3600 - minutes * 60,
    {
        assert(total_time == 3600 * (total_time / 3600) + total_time % 3600);
        assert(total_time % 3600 == 60 * ((total_time % 3600) / 60) + (total_time % 3600) % 60);
    }
    (hours, minutes, seconds)
}

/// Writes a duration in seconds as `HH:MM:SS`.
pub fn format_time(total_time: usize) -> (r: String)
    ensures
        r@ == clock_text(total_time as nat),
{
    proof {
        reveal_strlit(":");
    }
    let (hours, minutes, seconds) = split_time(total_time);
    let mut s = pad_zeroes(hours, 2);
    s.append(":");
    let m = pad_zeroes(minutes, 2);
    s.append(m.as_str());
    s.append(":");
    let sec = pad_zeroes(seconds, 2);
    s.append(sec.as_str());
    s
}

} // verus!
