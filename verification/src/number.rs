//! The two number grammars that the renderer knows: the literal that a string
//! must spell to count as numeric, and the literal of a JSON number.

use vstd::prelude::*;

use crate::text::to_chars;

verus! {

/// A decimal digit, `0` to `9`.
pub open spec fn is_digit(c: char) -> bool {
    '0' <= c && c <= '9'
}

/// `Sign ::= [+-]`.
pub open spec fn is_sign(c: char) -> bool {
    c == '+' || c == '-'
}

/// The letter that starts an exponent, in either case.
pub open spec fn is_exponent_mark(c: char) -> bool {
    c == 'e' || c == 'E'
}

/// `Digit*`: every character is a decimal digit.
pub open spec fn all_digits(s: Seq<char>) -> bool {
    forall|i: int| 0 <= i < s.len() ==> is_digit(#[trigger] s[i])
}

/// `Digit+`: one decimal digit or more, and nothing else.
pub open spec fn is_digits(s: Seq<char>) -> bool {
    s.len() > 0 && all_digits(s)
}

/// `Exp ::= 'e' Sign? Digit+`, the mark in either case.
pub open spec fn is_exponent(s: Seq<char>) -> bool {
    &&& s.len() >= 2
    &&& is_exponent_mark(s[0])
    &&& (is_digits(s.skip(1)) || (is_sign(s[1]) && is_digits(s.skip(2))))
}

/// `Digit+ | Digit+ '.' Digit* | Digit* '.' Digit+`: digits with at most one
/// point among them, and at least one digit.
pub open spec fn is_float_mantissa(s: Seq<char>) -> bool {
    ||| is_digits(s)
    ||| exists|d: int|
        {
            &&& 0 <= d < s.len()
            &&& s.len() >= 2
            &&& s[d] == '.'
            &&& all_digits(#[trigger] s.take(d))
            &&& all_digits(s.skip(d + 1))
        }
}

/// `Number ::= Mantissa Exp?`.
pub open spec fn is_float_decimal(s: Seq<char>) -> bool {
    exists|e: int|
        {
            &&& 0 <= e <= s.len()
            &&& is_float_mantissa(#[trigger] s.take(e))
            &&& (e == s.len() || is_exponent(s.skip(e)))
        }
}

/// A letter of the Latin alphabet in its lower case; any other character
/// unchanged.
pub open spec fn ascii_lower(c: char) -> char {
    if 'A' <= c && c <= 'Z' {
        ((c as u32) + 32) as char
    } else {
        c
    }
}

/// Whether `s` spells `word` when the case of its Latin letters is ignored.
pub open spec fn spells(s: Seq<char>, word: Seq<char>) -> bool {
    s.len() == word.len() && forall|i: int|
        0 <= i < s.len() ==> ascii_lower(#[trigger] s[i]) == word[i]
}

/// `'inf' | 'infinity' | 'nan'`, in any case.
pub open spec fn is_float_word(s: Seq<char>) -> bool {
    ||| spells(s, seq!['i', 'n', 'f'])
    ||| spells(s, seq!['i', 'n', 'f', 'i', 'n', 'i', 't', 'y'])
    ||| spells(s, seq!['n', 'a', 'n'])
}

/// The text without its leading sign, if it has one.
pub open spec fn unsigned_part(s: Seq<char>) -> Seq<char> {
    if s.len() > 0 && is_sign(s[0]) {
        s.skip(1)
    } else {
        s
    }
}

/// `int = "0" / digit1-9 *DIGIT`: digits without a needless leading zero.
pub open spec fn is_json_int(s: Seq<char>) -> bool {
    is_digits(s) && (s.len() == 1 || s[0] != '0')
}

/// `frac = "." 1*DIGIT`.
pub open spec fn is_json_frac(s: Seq<char>) -> bool {
    s.len() >= 2 && s[0] == '.' && is_digits(s.skip(1))
}

/// Whether `s` reads as an integer part up to `i`, a fraction (or nothing) from
/// there to `f`, and an exponent (or nothing) from there to the end.
pub open spec fn reads_as_json(s: Seq<char>, i: int, f: int) -> bool {
    &&& 0 < i <= f <= s.len()
    &&& is_json_int(s.take(i))
    &&& (f == i || is_json_frac(s.subrange(i, f)))
    &&& (f == s.len() || is_exponent(s.skip(f)))
}

/// `int [ frac ] [ exp ]`.
pub open spec fn is_json_unsigned(s: Seq<char>) -> bool {
    exists|i: int, f: int| reads_as_json(s, i, f)
}

/// The literal of a JSON number: `[ "-" ] int [ frac ] [ exp ]`.
pub open spec fn is_json_number(s: Seq<char>) -> bool {
    if s.len() > 0 && s[0] == '-' {
        is_json_unsigned(s.skip(1))
    } else {
        is_json_unsigned(s)
    }
}

/// The literals that parse as a floating-point number:
///
/// ```text
/// Float  ::= Sign? ( 'inf' | 'infinity' | 'nan' | Number )
/// Number ::= ( Digit+ | Digit+ '.' Digit* | Digit* '.' Digit+ ) Exp?
/// Exp    ::= 'e' Sign? Digit+
/// ```
///
/// Letters are accepted in either case. Nothing may precede or follow the
/// literal, white space included.
pub open spec fn is_float_literal(s: Seq<char>) -> bool {
    is_float_word(unsigned_part(s)) || is_float_decimal(unsigned_part(s))
}

/// The literal of a JSON number parses as a floating-point number.
pub proof fn lemma_json_number_is_float_literal(s: Seq<char>)
    requires
        is_json_number(s),
    ensures
        is_float_literal(s),
{
    let body = if s.len() > 0 && s[0] == '-' {
        s.skip(1)
    } else {
        s
    };
    let (i, f) = choose|i: int, f: int| reads_as_json(body, i, f);
    let m = body.take(f);
    if f != i {
        let frac = body.subrange(i, f);
        assert(m[i] == frac[0]);
        assert(m.take(i) == body.take(i));
        assert(all_digits(m.skip(i + 1))) by {
            assert forall|k: int| 0 <= k < m.skip(i + 1).len() implies is_digit(
                #[trigger] m.skip(i + 1)[k],
            ) by {
                assert(m.skip(i + 1)[k] == frac.skip(1)[k]);
            }
        }
    }
}

/// The end of the run of digits that starts at `start`.
fn digit_run_end(v: &Vec<char>, start: usize) -> (end: usize)
    requires
        start <= v.len(),
    ensures
        start <= end <= v.len(),
        forall|i: int| start <= i < end ==> is_digit(#[trigger] v@[i]),
        end < v.len() ==> !is_digit(v@[end as int]),
{
    let mut end = start;
    while end < v.len() && v[end] >= '0' && v[end] <= '9'
        invariant
            start <= end <= v.len(),
            forall|i: int| start <= i < end ==> is_digit(#[trigger] v@[i]),
        decreases v.len() - end,
    {
        end = end + 1;
    }
    end
}

/// Whether an exponent, and nothing else, stands from `pos` to the end.
fn exponent_at(v: &Vec<char>, pos: usize) -> (r: bool)
    requires
        pos <= v.len(),
    ensures
        r == is_exponent(v@.skip(pos as int)),
{
    let n = v.len();
    let ghost s = v@.skip(pos as int);
    if n - pos < 2 {
        return false;
    }
    if !(v[pos] == 'e' || v[pos] == 'E') {
        return false;
    }
    let signed = v[pos + 1] == '+' || v[pos + 1] == '-';
    let first: usize = if signed {
        pos + 2
    } else {
        pos + 1
    };
    let end = digit_run_end(v, first);
    let ghost digits = v@.skip(first as int);
    assert(digits == if signed {
        s.skip(2)
    } else {
        s.skip(1)
    });
    proof {
        if end == n {
            assert(all_digits(digits)) by {
                assert forall|i: int| 0 <= i < digits.len() implies is_digit(
                    #[trigger] digits[i],
                ) by {}
            }
        } else {
            assert(digits[end - first] == v@[end as int]);
        }
        if signed {
            assert(!is_digit(s.skip(1)[0]));
        }
    }
    end == n && end > first
}

/// Whether `Mantissa Exp?`, and nothing else, stands from `start` to the end.
fn decimal_at(v: &Vec<char>, start: usize) -> (r: bool)
    requires
        start <= v.len(),
    ensures
        r == is_float_decimal(v@.skip(start as int)),
{
    let n = v.len();
    let ghost s = v@.skip(start as int);
    let whole_end = digit_run_end(v, start);
    let pointed = whole_end < n && v[whole_end] == '.';
    let mantissa_end = if pointed {
        digit_run_end(v, whole_end + 1)
    } else {
        whole_end
    };
    let digits = if pointed {
        mantissa_end - start - 1
    } else {
        mantissa_end - start
    };
    let ghost a = whole_end - start;
    let ghost m = mantissa_end - start;
    proof {
        assert forall|i: int| 0 <= i < s.len() implies #[trigger] s[i] == v@[start + i] by {}
        // Any mantissa that the text starts with ends where the scan stopped, or before.
        assert forall|e: int| 0 <= e <= s.len() && is_float_mantissa(#[trigger] s.take(e)) implies e
            <= m && digits >= 1 && (e < s.len() && !is_digit(s[e]) && s[e] != '.' ==> e == m) by {
            lemma_mantissa_shape(s, e, a, m, pointed);
        }
    }
    if digits == 0 {
        return false;
    }
    proof {
        // What the scan covered is a mantissa.
        if pointed {
            assert(all_digits(s.take(m).take(a)));
        }
    }
    if mantissa_end == n {
        return true;
    }
    let r = exponent_at(v, mantissa_end);
    proof {
        assert(v@.skip(mantissa_end as int) == s.skip(m));
        if !r {
            assert forall|e: int|
                0 <= e <= s.len() && is_float_mantissa(#[trigger] s.take(e)) implies !(e == s.len()
                || is_exponent(s.skip(e))) by {}
        }
    }
    r
}

/// Where a mantissa can end, given what the scan found: `a` digits, then a
/// point or not, and the end of the digits after it at `m`.
proof fn lemma_mantissa_shape(s: Seq<char>, e: int, a: int, m: int, pointed: bool)
    requires
        0 <= e <= s.len(),
        0 <= a <= m <= s.len(),
        is_float_mantissa(s.take(e)),
        forall|i: int| 0 <= i < a ==> is_digit(#[trigger] s[i]),
        a < s.len() ==> !is_digit(s[a]),
        pointed == (a < s.len() && s[a] == '.'),
        pointed ==> a + 1 <= m && forall|i: int| a + 1 <= i < m ==> is_digit(#[trigger] s[i]),
        pointed && m < s.len() ==> !is_digit(s[m]),
        !pointed ==> m == a,
    ensures
        e <= m,
        pointed ==> m - 1 >= 1,
        !pointed ==> m >= 1,
        e < s.len() && !is_digit(s[e]) && s[e] != '.' ==> e == m,
{
    let t = s.take(e);
    assert forall|i: int| 0 <= i < e implies #[trigger] t[i] == s[i] by {}
    if is_digits(t) {
        assert(a >= e) by {
            if a < e {
                assert(is_digit(t[a]));
            }
        }
    } else {
        let d = choose|d: int|
            {
                &&& 0 <= d < t.len()
                &&& t.len() >= 2
                &&& t[d] == '.'
                &&& all_digits(#[trigger] t.take(d))
                &&& all_digits(t.skip(d + 1))
            };
        assert(d == a) by {
            if a < d {
                assert(t.take(d)[a] == s[a]);
            }
        }
        assert(e <= m) by {
            if m < e {
                assert(t.skip(d + 1)[m - d - 1] == s[m]);
            }
        }
    }
}

/// Whether `c` is the letter `lower`, in either case.
fn is_letter(c: char, lower: char, upper: char) -> (r: bool)
    requires
        'a' <= lower && lower <= 'z',
        upper as u32 + 32 == lower as u32,
    ensures
        r == (ascii_lower(c) == lower),
{
    c == lower || c == upper
}

/// Whether one of the three words, and nothing else, stands from `start` to
/// the end.
fn word_at(v: &Vec<char>, start: usize) -> (r: bool)
    requires
        start <= v.len(),
    ensures
        r == is_float_word(v@.skip(start as int)),
{
    let ghost s = v@.skip(start as int);
    assert forall|i: int| 0 <= i < s.len() implies #[trigger] s[i] == v@[start + i] by {}
    let len = v.len() - start;
    if len == 3 {
        let inf = is_letter(v[start], 'i', 'I') && is_letter(v[start + 1], 'n', 'N') && is_letter(
            v[start + 2],
            'f',
            'F',
        );
        let nan = is_letter(v[start], 'n', 'N') && is_letter(v[start + 1], 'a', 'A') && is_letter(
            v[start + 2],
            'n',
            'N',
        );
        assert(inf == spells(s, seq!['i', 'n', 'f'])) by {
            assert(s[0] == v@[start + 0] && s[1] == v@[start + 1] && s[2] == v@[start + 2]);
        }
        assert(nan == spells(s, seq!['n', 'a', 'n'])) by {
            assert(s[0] == v@[start + 0] && s[1] == v@[start + 1] && s[2] == v@[start + 2]);
        }
        inf || nan
    } else if len == 8 {
        let infinity = is_letter(v[start], 'i', 'I') && is_letter(v[start + 1], 'n', 'N')
            && is_letter(v[start + 2], 'f', 'F') && is_letter(v[start + 3], 'i', 'I') && is_letter(
            v[start + 4],
            'n',
            'N',
        ) && is_letter(v[start + 5], 'i', 'I') && is_letter(v[start + 6], 't', 'T') && is_letter(
            v[start + 7],
            'y',
            'Y',
        );
        assert(infinity == spells(s, seq!['i', 'n', 'f', 'i', 'n', 'i', 't', 'y'])) by {
            let w = seq!['i', 'n', 'f', 'i', 'n', 'i', 't', 'y'];
            assert(w.len() == 8 && w[0] == 'i' && w[1] == 'n' && w[2] == 'f' && w[3] == 'i' && w[4]
                == 'n' && w[5] == 'i' && w[6] == 't' && w[7] == 'y');
            assert(s[0] == v@[start + 0] && s[1] == v@[start + 1] && s[2] == v@[start + 2] && s[3]
                == v@[start + 3]);
            assert(s[4] == v@[start + 4] && s[5] == v@[start + 5] && s[6] == v@[start + 6] && s[7]
                == v@[start + 7]);
        }
        infinity
    } else {
        false
    }
}

/// Whether `int [ frac ] [ exp ]`, and nothing else, stands from `start` to the
/// end.
fn json_unsigned_at(v: &Vec<char>, start: usize) -> (r: bool)
    requires
        start <= v.len(),
    ensures
        r == is_json_unsigned(v@.skip(start as int)),
{
    let n = v.len();
    let ghost s = v@.skip(start as int);
    let whole_end = digit_run_end(v, start);
    let ghost a = whole_end - start;
    proof {
        assert forall|i: int| 0 <= i < s.len() implies #[trigger] s[i] == v@[start + i] by {}
        // The integer part of any reading ends where the first run of digits ends.
        assert forall|i: int, f: int| #[trigger] reads_as_json(s, i, f) implies i == a by {
            assert forall|k: int| 0 <= k < i implies is_digit(s[k]) by {
                assert(s.take(i)[k] == s[k]);
            }
            if a < i {
                assert(is_digit(s[a]));
            }
        }
    }
    if whole_end == start {
        return false;
    }
    if v[start] == '0' && whole_end > start + 1 {
        return false;
    }
    let pointed = whole_end < n && v[whole_end] == '.';
    let mantissa_end = if pointed {
        digit_run_end(v, whole_end + 1)
    } else {
        whole_end
    };
    let ghost m = mantissa_end - start;
    proof {
        // The fraction of any reading ends where the second run of digits ends.
        assert forall|i: int, f: int| #[trigger] reads_as_json(s, i, f) implies f == m && (pointed
            ==> m > a + 1) by {
            let frac = s.subrange(i, f);
            if f != i {
                assert forall|k: int| a + 1 <= k < f implies is_digit(s[k]) by {
                    assert(frac.skip(1)[k - a - 1] == s[k]);
                }
                if m < f {
                    assert(is_digit(s[m]));
                }
            }
        }
    }
    if pointed && mantissa_end == whole_end + 1 {
        return false;
    }
    proof {
        if pointed {
            let frac = s.subrange(a, m);
            assert forall|k: int| 0 <= k < frac.skip(1).len() implies is_digit(
                #[trigger] frac.skip(1)[k],
            ) by {}
        }
    }
    if mantissa_end == n {
        assert(reads_as_json(s, a, m));
        return true;
    }
    let r = exponent_at(v, mantissa_end);
    assert(v@.skip(mantissa_end as int) == s.skip(m));
    assert(r ==> reads_as_json(s, a, m));
    r
}

/// Whether a text is the literal of a JSON number.
pub fn is_json_number_text(text: &str) -> (r: bool)
    ensures
        r == is_json_number(text@),
{
    let v = to_chars(text);
    let start: usize = if v.len() > 0 && v[0] == '-' {
        1
    } else {
        0
    };
    assert(v@.skip(0) == v@);
    json_unsigned_at(&v, start)
}

/// Whether a text parses, in full, as a floating-point number.
pub fn parses_as_float(text: &str) -> (r: bool)
    ensures
        r == is_float_literal(text@),
{
    let v = to_chars(text);
    let start: usize = if v.len() > 0 && (v[0] == '+' || v[0] == '-') {
        1
    } else {
        0
    };
    assert(v@.skip(start as int) == unsigned_part(text@));
    word_at(&v, start) || decimal_at(&v, start)
}

} // verus!
