//! Text helpers shared by the lexer and the reporting code: moving between
//! `String` and sequences of characters, and writing integers in decimal.
use vstd::prelude::*;

verus! {

/// `String::push` appends one character to the end of the string and leaves
/// what was there before untouched.
pub assume_specification[ std::string::String::push ](s: &mut std::string::String, c: char)
    ensures
        final(s)@ == old(s)@.push(c),
;

/// The characters of each string in `lines`.
pub open spec fn line_texts(lines: Seq<String>) -> Seq<Seq<char>> {
    Seq::new(lines.len(), |i: int| lines[i]@)
}

/// The characters of `s`, in order.
pub fn chars_of(s: &str) -> (out: Vec<char>)
    ensures
        out@ == s@,
{
    let mut out: Vec<char> = Vec::new();
    let mut it = s.chars();
    for c in iter: it
        invariant
            out@ == iter.seq().take(iter.index()),
            iter.seq() == s@,
    {
        out.push(c);
    }
    out
}

/// The characters `chars[from..to]` as an owned string.
pub fn string_from_chars(chars: &Vec<char>, from: usize, to: usize) -> (out: String)
    requires
        from <= to <= chars@.len(),
    ensures
        out@ == chars@.subrange(from as int, to as int),
{
    let mut out = String::new();
    let mut i: usize = from;
    while i < to
        invariant
            from <= i <= to <= chars@.len(),
            out@ == chars@.subrange(from as int, i as int),
        decreases to - i,
    {
        out.push(chars[i]);
        i += 1;
        assert(chars@.subrange(from as int, i as int) == chars@.subrange(
            from as int,
            i - 1,
        ).push(chars@[i - 1]));
    }
    out
}

/// The decimal digit that stands for `d`, for `d` below ten.
pub open spec fn digit_char(d: nat) -> char {
    if d == 0 {
        '0'
    } else if d == 1 {
        '1'
    } else if d == 2 {
        '2'
    } else if d == 3 {
        '3'
    } else if d == 4 {
        '4'
    } else if d == 5 {
        '5'
    } else if d == 6 {
        '6'
    } else if d == 7 {
        '7'
    } else if d == 8 {
        '8'
    } else {
        '9'
    }
}

/// `n` written in decimal, most significant digit first, without leading
/// zeros (`0` is written `"0"`).
pub open spec fn decimal(n: nat) -> Seq<char>
    decreases n,
{
    if n < 10 {
        seq![digit_char(n)]
    } else {
        decimal(n / 10).push(digit_char(n % 10))
    }
}

/// `digits` with zeros put in front until it is at least `width` long.
pub open spec fn zero_padded(digits: Seq<char>, width: nat) -> Seq<char>
    decreases width - digits.len(),
{
    if digits.len() >= width {
        digits
    } else {
        zero_padded(seq!['0'] + digits, width)
    }
}

fn digit_of(d: usize) -> (c: char)
    requires
        d < 10,
    ensures
        c == digit_char(d as nat),
{
    if d == 0 {
        '0'
    } else if d == 1 {
        '1'
    } else if d == 2 {
        '2'
    } else if d == 3 {
        '3'
    } else if d == 4 {
        '4'
    } else if d == 5 {
        '5'
    } else if d == 6 {
        '6'
    } else if d == 7 {
        '7'
    } else if d == 8 {
        '8'
    } else {
        '9'
    }
}

/// The digits of `n` in a vector, most significant first.
fn decimal_digits(n: usize) -> (out: Vec<char>)
    ensures
        out@ == decimal(n as nat),
    decreases n,
{
    if n < 10 {
        let mut out: Vec<char> = Vec::new();
        out.push(digit_of(n));
        out
    } else {
        let mut out = decimal_digits(n / 10);
        out.push(digit_of(n % 10));
        out
    }
}

/// Appends the characters of `chars` to `out`.
pub fn push_chars(out: &mut String, chars: &Vec<char>)
    ensures
        final(out)@ == old(out)@ + chars@,
{
    let mut i: usize = 0;
    while i < chars.len()
        invariant
            i <= chars@.len(),
            out@ == old(out)@ + chars@.subrange(0, i as int),
        decreases chars@.len() - i,
    {
        out.push(chars[i]);
        i += 1;
        assert(chars@.subrange(0, i as int) == chars@.subrange(0, i - 1).push(chars@[i - 1]));
    }
    assert(chars@.subrange(0, chars@.len() as int) == chars@);
}

/// `n` in decimal.
pub fn decimal_text(n: usize) -> (out: String)
    ensures
        out@ == decimal(n as nat),
{
    let digits = decimal_digits(n);
    let mut out = String::new();
    push_chars(&mut out, &digits);
    out
}

/// `n` in decimal, with zeros in front up to `width` characters.
pub fn padded_decimal_text(n: usize, width: usize) -> (out: String)
    ensures
        out@ == zero_padded(decimal(n as nat), width as nat),
{
    let digits = decimal_digits(n);
    let mut out = String::new();
    let mut have: usize = digits.len();
    let ghost mut shown: Seq<char> = digits@;
    while have < width
        invariant
            have == shown.len(),
            shown == out@ + digits@,
            zero_padded(shown, width as nat) == zero_padded(digits@, width as nat),
        decreases width - have,
    {
        let ghost before = out@;
        let mut next = String::new();
        next.push('0');
        push_str_of(&mut next, &out);
        out = next;
        proof {
            assert(out@ + digits@ == seq!['0'] + shown);
            shown = seq!['0'] + shown;
        }
        have += 1;
    }
    push_chars(&mut out, &digits);
    out
}

/// Appends the characters of `tail` to `out`.
pub fn push_str_of(out: &mut String, tail: &String)
    ensures
        final(out)@ == old(out)@ + tail@,
{
    out.append(tail.as_str());
}

/// `s` without the line break at its end, if it has one: a final line feed
/// goes, and a carriage return before it goes with it.
pub open spec fn without_line_end(s: Seq<char>) -> Seq<char> {
    if s.len() > 0 && s.last() == '\n' {
        if s.len() > 1 && s[s.len() - 2] == '\r' {
            s.subrange(0, s.len() - 2)
        } else {
            s.subrange(0, s.len() - 1)
        }
    } else {
        s
    }
}

/// Takes the line break off the end of `s`, if there is one.
pub fn trim_end(s: &mut String)
    ensures
        final(s)@ == without_line_end(old(s)@),
{
    let chars = chars_of(s.as_str());
    let n = chars.len();
    if n > 0 && chars[n - 1] == '\n' {
        if n > 1 && chars[n - 2] == '\r' {
            *s = string_from_chars(&chars, 0, n - 2);
        } else {
            *s = string_from_chars(&chars, 0, n - 1);
        }
    }
}

} // verus!
