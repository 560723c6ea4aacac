use vstd::prelude::*;

verus! {

/// What `char::is_whitespace` answers for `c`.
pub uninterp spec fn char_is_whitespace(c: char) -> bool;

/// What `char::is_numeric` answers for `c`.
pub uninterp spec fn char_is_numeric(c: char) -> bool;

/// What `char::is_uppercase` answers for `c`.
pub uninterp spec fn char_is_uppercase(c: char) -> bool;

/// `char::is_whitespace` tells whether Unicode counts the character as
/// white space. The answer depends on the character alone and is named, not
/// spelled out.
pub assume_specification[ char::is_whitespace ](c: char) -> (b: bool)
    ensures
        b == char_is_whitespace(c),
;

/// `char::is_numeric` tells whether the character belongs to one of the
/// Unicode number categories. The answer depends on the character alone and
/// is named, not spelled out.
pub assume_specification[ char::is_numeric ](c: char) -> (b: bool)
    ensures
        b == char_is_numeric(c),
;

/// `char::is_uppercase` tells whether Unicode counts the character as
/// uppercase. The answer depends on the character alone and is named, not
/// spelled out.
pub assume_specification[ char::is_uppercase ](c: char) -> (b: bool)
    ensures
        b == char_is_uppercase(c),
;

/// `String::push` appends one character to the end of the string.
pub assume_specification[ std::string::String::push ](s: &mut std::string::String, c: char)
    ensures
        final(s)@ == old(s)@.push(c),
;

/// The characters of `s`, in order.
pub fn chars_of(s: &str) -> (v: Vec<char>)
    ensures
        v@ == s@,
{
    let mut v: Vec<char> = Vec::new();
    for c in it: s.chars()
        invariant
            v@ == it.seq().take(it.index() as int),
    {
        v.push(c);
    }
    v
}

/// The character `chars[i]`.
pub fn char_at(chars: &Vec<char>, i: usize) -> (c: char)
    requires
        i < chars.len(),
    ensures
        c == chars@[i as int],
{
    chars[i]
}

/// The text made of the characters `chars[from..to]`.
pub fn text_of(chars: &Vec<char>, from: usize, to: usize) -> (s: String)
    requires
        from <= to <= chars.len(),
    ensures
        s@ == chars@.subrange(from as int, to as int),
{
    let mut s = String::new();
    let mut i: usize = from;
    while i < to
        invariant
            from <= i <= to <= chars.len(),
            s@ == chars@.subrange(from as int, i as int),
        decreases to - i,
    {
        s.push(chars[i]);
        i += 1;
        assert(chars@.subrange(from as int, i as int) =~= chars@.subrange(
            from as int,
            i - 1,
        ).push(chars@[i - 1]));
    }
    s
}

/// Whether two texts hold the same characters.
pub fn same_text(a: &str, b: &str) -> (r: bool)
    ensures
        r == (a@ == b@),
{
    let x = chars_of(a);
    let y = chars_of(b);
    if x.len() != y.len() {
        return false;
    }
    let mut i: usize = 0;
    while i < x.len()
        invariant
            i <= x.len(),
            x.len() == y.len(),
            x@ == a@,
            y@ == b@,
            forall|j: int| 0 <= j < i ==> x@[j] == y@[j],
        decreases x.len() - i,
    {
        if x[i] != y[i] {
            return false;
        }
        i += 1;
    }
    assert(x@ =~= y@);
    true
}

/// The value of the character `c` as a digit in `radix`: `0` to `9` stand
/// for themselves, the letters `a` to `z`, in either case, for 10 to 35. A
/// character whose value is not below `radix` is no digit.
pub open spec fn digit_value(c: char, radix: int) -> Option<int> {
    let v = if '0' <= c <= '9' {
        c as int - '0' as int
    } else if 'a' <= c <= 'z' {
        c as int - 'a' as int + 10
    } else if 'A' <= c <= 'Z' {
        c as int - 'A' as int + 10
    } else {
        -1
    };
    if 0 <= v < radix {
        Some(v)
    } else {
        None
    }
}

/// The number that the digits `s` spell in `radix`, most significant digit
/// first. There is none where `s` is empty or holds a character that is no
/// digit.
pub open spec fn digits_value(s: Seq<char>, radix: int) -> Option<int>
    decreases s.len(),
{
    if s.len() == 0 {
        None
    } else {
        match digit_value(s.last(), radix) {
            None => None,
            Some(d) => if s.len() == 1 {
                Some(d)
            } else {
                match digits_value(s.drop_last(), radix) {
                    None => None,
                    Some(v) => Some(v * radix + d),
                }
            },
        }
    }
}

/// The 64-bit signed integer that `s` spells in `radix`: an optional `+` or
/// `-` sign and then one or more digits. There is none where `s` is not of
/// that form or the number does not fit in 64 bits.
pub open spec fn int_from_text(s: Seq<char>, radix: int) -> Option<int> {
    let negative = s.len() > 0 && s[0] == '-';
    let digits = if s.len() > 0 && (s[0] == '-' || s[0] == '+') {
        s.skip(1)
    } else {
        s
    };
    match digits_value(digits, radix) {
        None => None,
        Some(v) => {
            let n = if negative {
                -v
            } else {
                v
            };
            if i64::MIN <= n <= i64::MAX {
                Some(n)
            } else {
                None
            }
        },
    }
}

/// Parses a 64-bit signed integer with `i64::from_str_radix`. That function
/// accepts an optional `+` or `-` sign followed by one or more digits of the
/// radix (`0`-`9`, `a`-`z`, `A`-`Z`) and nothing else, and fails on an
/// empty text, on any other character and on a number that does not fit.
/// It panics on a radix outside 2 to 36, which `requires` leaves out.
#[verifier::external_body]
pub(crate) fn int_from_str_radix(text: &str, radix: u32) -> (r: Option<i64>)
    requires
        2 <= radix <= 36,
    ensures
        match r {
            Some(n) => int_from_text(text@, radix as int) == Some(n as int),
            None => int_from_text(text@, radix as int) is None,
        },
{
    i64::from_str_radix(text, radix).ok()
}

/// The first position at or after `pos` that does not hold one of the
/// digits `0` to `9`, or the end of `s`.
pub open spec fn digits_end(s: Seq<char>, pos: int) -> int
    decreases s.len() - pos,
{
    if pos < 0 || pos >= s.len() || !('0' <= s[pos] <= '9') {
        pos
    } else {
        digits_end(s, pos + 1)
    }
}

/// Whether `s` is a decimal floating-point numeral: an optional sign;
/// digits, which may hold one `.` and of which there is at least one; and
/// an optional exponent, which is `e` or `E`, an optional sign and one or
/// more digits.
pub open spec fn decimal_numeral(s: Seq<char>) -> bool {
    let start: int = if s.len() > 0 && (s[0] == '+' || s[0] == '-') {
        1
    } else {
        0
    };
    let whole_end = digits_end(s, start);
    let mantissa_end = if whole_end < s.len() && s[whole_end] == '.' {
        digits_end(s, whole_end + 1)
    } else {
        whole_end
    };
    let digits = if mantissa_end > whole_end {
        mantissa_end - start - 1
    } else {
        whole_end - start
    };
    let signed = mantissa_end + 1 < s.len() && (s[mantissa_end + 1] == '+' || s[mantissa_end + 1]
        == '-');
    let exponent = if signed {
        mantissa_end + 2
    } else {
        mantissa_end + 1
    };
    &&& digits > 0
    &&& (mantissa_end == s.len() || {
        &&& s[mantissa_end] == 'e' || s[mantissa_end] == 'E'
        &&& exponent < s.len()
        &&& digits_end(s, exponent) == s.len()
    })
}

/// The first position at or after `pos` that does not hold one of the
/// digits `0` to `9`.
fn skip_digits(chars: &Vec<char>, pos: usize) -> (end: usize)
    requires
        pos <= chars.len(),
    ensures
        end == digits_end(chars@, pos as int),
        pos <= end <= chars.len(),
{
    let mut i: usize = pos;
    while i < chars.len() && '0' <= chars[i] && chars[i] <= '9'
        invariant
            pos <= i <= chars.len(),
            digits_end(chars@, pos as int) == digits_end(chars@, i as int),
        decreases chars.len() - i,
    {
        i += 1;
    }
    i
}

/// Whether `text` is a decimal floating-point numeral.
pub fn is_decimal_numeral(text: &str) -> (b: bool)
    ensures
        b == decimal_numeral(text@),
{
    let chars = chars_of(text);
    let n = chars.len();
    let start: usize = if n > 0 && (chars[0] == '+' || chars[0] == '-') {
        1
    } else {
        0
    };
    let whole_end = skip_digits(&chars, start);
    let mantissa_end = if whole_end < n && chars[whole_end] == '.' {
        skip_digits(&chars, whole_end + 1)
    } else {
        whole_end
    };
    let digits = if mantissa_end > whole_end {
        mantissa_end - start - 1
    } else {
        whole_end - start
    };
    if digits == 0 {
        return false;
    }
    if mantissa_end == n {
        return true;
    }
    if chars[mantissa_end] != 'e' && chars[mantissa_end] != 'E' {
        return false;
    }
    let signed = mantissa_end + 1 < n && (chars[mantissa_end + 1] == '+' || chars[mantissa_end
        + 1] == '-');
    let exponent = if signed {
        mantissa_end + 2
    } else {
        mantissa_end + 1
    };
    if exponent >= n {
        return false;
    }
    skip_digits(&chars, exponent) == n
}

/// Whether `text` starts with the characters of `prefix`.
pub open spec fn starts_with(text: Seq<char>, prefix: Seq<char>) -> bool {
    prefix.len() <= text.len() && text.subrange(0, prefix.len() as int) == prefix
}

/// Whether `chars` starts with the two characters `a` and `b`.
pub fn starts_with_pair(chars: &Vec<char>, a: char, b: char) -> (r: bool)
    ensures
        r == starts_with(chars@, seq![a, b]),
{
    if chars.len() >= 2 && chars[0] == a && chars[1] == b {
        assert(chars@.subrange(0, 2) =~= seq![a, b]);
        true
    } else {
        if chars.len() >= 2 {
            assert(chars@.subrange(0, 2)[0] == chars@[0]);
            assert(chars@.subrange(0, 2)[1] == chars@[1]);
        }
        false
    }
}

/// Whether `c` occurs in `chars`.
pub fn contains_char(chars: &Vec<char>, c: char) -> (r: bool)
    ensures
        r == chars@.contains(c),
{
    let mut i: usize = 0;
    while i < chars.len()
        invariant
            i <= chars.len(),
            forall|j: int| 0 <= j < i ==> chars@[j] != c,
        decreases chars.len() - i,
    {
        if chars[i] == c {
            return true;
        }
        i += 1;
    }
    false
}

} // verus!
