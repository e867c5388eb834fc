//! Lexical ground for the two textual inputs the service reads: JSON
//! request envelopes and GraphQL operation text. Holds the character
//! classes, whitespace skipping, string-literal parsing with the full JSON
//! escape forms, and the name and number tokens — each as a specification
//! function over character sequences with a verified executable twin.

use vstd::prelude::*;

verus! {

/// JSON whitespace.
pub open spec fn is_ws(c: char) -> bool {
    c == ' ' || c == '\t' || c == '\n' || c == '\r'
}

/// GraphQL ignores commas as whitespace too.
pub open spec fn is_gws(c: char) -> bool {
    is_ws(c) || c == ','
}

/// A decimal digit.
pub open spec fn is_digit(c: char) -> bool {
    '0' <= c && c <= '9'
}

/// The first character of a name.
pub open spec fn is_name_start(c: char) -> bool {
    ('a' <= c && c <= 'z') || ('A' <= c && c <= 'Z') || c == '_'
}

/// A later character of a name.
pub open spec fn is_name_char(c: char) -> bool {
    is_name_start(c) || is_digit(c)
}

/// The position of the first non-whitespace character at or after `i`.
pub open spec fn ws_end(s: Seq<char>, i: int) -> int
    decreases s.len() - i,
{
    if 0 <= i < s.len() && is_ws(s[i]) {
        ws_end(s, i + 1)
    } else {
        i
    }
}

/// The position of the first character at or after `i` that is neither
/// whitespace nor a comma.
pub open spec fn gws_end(s: Seq<char>, i: int) -> int
    decreases s.len() - i,
{
    if 0 <= i < s.len() && is_gws(s[i]) {
        gws_end(s, i + 1)
    } else {
        i
    }
}

/// The end of the run of digits starting at `i`.
pub open spec fn digits_end(s: Seq<char>, i: int) -> int
    decreases s.len() - i,
{
    if 0 <= i < s.len() && is_digit(s[i]) {
        digits_end(s, i + 1)
    } else {
        i
    }
}

/// The end of the run of name characters starting at `i`.
pub open spec fn name_run_end(s: Seq<char>, i: int) -> int
    decreases s.len() - i,
{
    if 0 <= i < s.len() && is_name_char(s[i]) {
        name_run_end(s, i + 1)
    } else {
        i
    }
}

/// `digits_end` never moves backwards and never leaves the text.
pub proof fn lemma_digits_end_bounds(s: Seq<char>, i: int)
    requires
        0 <= i <= s.len(),
    ensures
        i <= digits_end(s, i) <= s.len(),
    decreases s.len() - i,
{
    if i < s.len() && is_digit(s[i]) {
        lemma_digits_end_bounds(s, i + 1);
    }
}

/// The value of a hexadecimal digit, if the character is one.
pub open spec fn hex_val(c: char) -> Option<u32> {
    if '0' <= c && c <= '9' {
        Some((((c as u32) - ('0' as u32)) as u32))
    } else if 'a' <= c && c <= 'f' {
        Some((((c as u32) - ('a' as u32) + 10) as u32))
    } else if 'A' <= c && c <= 'F' {
        Some((((c as u32) - ('A' as u32) + 10) as u32))
    } else {
        None
    }
}

/// The value of the four hexadecimal digits at `i`, if they are there.
pub open spec fn hex_quad(s: Seq<char>, i: int) -> Option<u32> {
    if 0 <= i && i + 4 <= s.len() && hex_val(s[i]) is Some && hex_val(s[i + 1]) is Some && hex_val(
        s[i + 2],
    ) is Some && hex_val(s[i + 3]) is Some {
        Some(
            ((0x1000 * hex_val(s[i])->0 + 0x100 * hex_val(s[i + 1])->0 + 0x10 * hex_val(
                s[i + 2],
            )->0 + hex_val(s[i + 3])->0) as u32),
        )
    } else {
        None
    }
}

/// The character named by a `\uXXXX` escape at `i` (`i` is the position of
/// the first digit): a plain code point stands alone, a high surrogate must
/// be followed by a second escape holding a low surrogate, and the pair
/// names one supplementary character ending after the second escape.
pub open spec fn unicode_escape(s: Seq<char>, i: int) -> Option<(char, int)> {
    match hex_quad(s, i) {
        Some(h) => {
            if h < 0xD800 || h >= 0xE000 {
                Some(((h as char), i + 4))
            } else if h < 0xDC00 {
                if i + 10 <= s.len() && s[i + 4] == '\\' && s[i + 5] == 'u' {
                    match hex_quad(s, i + 6) {
                        Some(l) => {
                            if 0xDC00 <= l < 0xE000 {
                                Some(
                                    (
                                        (
                                        ((0x10000 + 0x400 * (h - 0xD800) + (l
                                            - 0xDC00)) as u32) as char
                                        ),
                                        i + 10,
                                    ),
                                )
                            } else {
                                None
                            }
                        },
                        None => None,
                    }
                } else {
                    None
                }
            } else {
                None
            }
        },
        None => None,
    }
}

/// The decoded body of a JSON string literal whose content starts at `i`
/// (just after the opening quote): the decoded characters and the position
/// just after the closing quote. Control characters must be escaped; the
/// accepted escapes are the JSON ones.
pub open spec fn str_lit_from(s: Seq<char>, i: int) -> Option<(Seq<char>, int)>
    decreases s.len() - i, 0int,
{
    if !(0 <= i < s.len()) {
        None
    } else if s[i] == '"' {
        Some((Seq::<char>::empty(), i + 1))
    } else if s[i] == '\\' {
        if i + 2 > s.len() {
            None
        } else {
            let e = s[i + 1];
            if e == '"' || e == '\\' || e == '/' {
                str_lit_cons(s, e, i + 2)
            } else if e == 'b' {
                str_lit_cons(s, 8u32 as char, i + 2)
            } else if e == 'f' {
                str_lit_cons(s, 12u32 as char, i + 2)
            } else if e == 'n' {
                str_lit_cons(s, '\n', i + 2)
            } else if e == 'r' {
                str_lit_cons(s, '\r', i + 2)
            } else if e == 't' {
                str_lit_cons(s, '\t', i + 2)
            } else if e == 'u' {
                match unicode_escape(s, i + 2) {
                    Some((c, j)) => if j > i {
                        str_lit_cons(s, c, j)
                    } else {
                        None
                    },
                    None => None,
                }
            } else {
                None
            }
        }
    } else if (s[i] as u32) < 0x20 {
        None
    } else {
        str_lit_cons(s, s[i], i + 1)
    }
}

/// One decoded character, followed by the rest of the literal from `j`.
pub open spec fn str_lit_cons(s: Seq<char>, c: char, j: int) -> Option<(Seq<char>, int)>
    decreases s.len() - j, 1int,
{
    if j <= 0 {
        None
    } else {
        match str_lit_from(s, j) {
            Some((rest, k)) => Some((seq![c] + rest, k)),
            None => None,
        }
    }
}

/// The four hexadecimal digits at `i`, read executably.
fn read_hex_quad(s: &Vec<char>, i: usize) -> (r: Option<u32>)
    requires
        i <= s.len(),
    ensures
        r == hex_quad(s@, i as int),
{
    if s.len() - i < 4 {
        return None;
    }
    let h0 = match hex_val_char(s[i]) {
        Some(v) => v,
        None => { return None },
    };
    let h1 = match hex_val_char(s[i + 1]) {
        Some(v) => v,
        None => { return None },
    };
    let h2 = match hex_val_char(s[i + 2]) {
        Some(v) => v,
        None => { return None },
    };
    let h3 = match hex_val_char(s[i + 3]) {
        Some(v) => v,
        None => { return None },
    };
    Some(0x1000 * h0 + 0x100 * h1 + 0x10 * h2 + h3)
}

/// The value of one hexadecimal digit, read executably.
fn hex_val_char(c: char) -> (r: Option<u32>)
    ensures
        r == hex_val(c),
{
    if '0' <= c && c <= '9' {
        Some((c as u32) - ('0' as u32))
    } else if 'a' <= c && c <= 'f' {
        Some((c as u32) - ('a' as u32) + 10)
    } else if 'A' <= c && c <= 'F' {
        Some((c as u32) - ('A' as u32) + 10)
    } else {
        None
    }
}

/// Relies on `char::from_u32`: every value below the surrogate range, and
/// every value from the end of the surrogate range up to the last code
/// point, names exactly one character.
#[verifier::external_body]
fn char_from_u32(v: u32) -> (c: char)
    requires
        v < 0xD800 || (0xE000 <= v && v <= 0x10FFFF),
    ensures
        c == v as char,
{
    char::from_u32(v).unwrap()
}

/// Skip JSON whitespace.
pub fn skip_ws(s: &Vec<char>, i: usize) -> (j: usize)
    requires
        i <= s.len(),
    ensures
        j == ws_end(s@, i as int),
        i <= j <= s.len(),
    decreases s.len() - i,
{
    if i < s.len() && (s[i] == ' ' || s[i] == '\t' || s[i] == '\n' || s[i] == '\r') {
        skip_ws(s, i + 1)
    } else {
        i
    }
}

/// Skip GraphQL whitespace, commas included.
pub fn skip_gws(s: &Vec<char>, i: usize) -> (j: usize)
    requires
        i <= s.len(),
    ensures
        j == gws_end(s@, i as int),
        i <= j <= s.len(),
    decreases s.len() - i,
{
    if i < s.len() && (s[i] == ' ' || s[i] == '\t' || s[i] == '\n' || s[i] == '\r' || s[i] == ',') {
        skip_gws(s, i + 1)
    } else {
        i
    }
}

/// Skip a run of digits.
pub fn skip_digits(s: &Vec<char>, i: usize) -> (j: usize)
    requires
        i <= s.len(),
    ensures
        j == digits_end(s@, i as int),
        i <= j <= s.len(),
    decreases s.len() - i,
{
    if i < s.len() && '0' <= s[i] && s[i] <= '9' {
        skip_digits(s, i + 1)
    } else {
        i
    }
}

/// Skip a run of name characters.
pub fn skip_name_chars(s: &Vec<char>, i: usize) -> (j: usize)
    requires
        i <= s.len(),
    ensures
        j == name_run_end(s@, i as int),
        i <= j <= s.len(),
    decreases s.len() - i,
{
    if i < s.len() && (('a' <= s[i] && s[i] <= 'z') || ('A' <= s[i] && s[i] <= 'Z') || s[i] == '_'
        || ('0' <= s[i] && s[i] <= '9')) {
        skip_name_chars(s, i + 1)
    } else {
        i
    }
}

/// Read a JSON string literal's body from just after its opening quote.
pub fn read_str_lit(s: &Vec<char>, i: usize) -> (r: Option<(Vec<char>, usize)>)
    requires
        i <= s.len(),
    ensures
        match r {
            Some(p) => {
                &&& str_lit_from(s@, i as int) == Some((p.0@, p.1 as int))
                &&& i < p.1 <= s.len()
            },
            None => str_lit_from(s@, i as int) is None,
        },
    decreases s.len() - i, 0int,
{
    if i >= s.len() {
        None
    } else if s[i] == '"' {
        Some((Vec::new(), i + 1))
    } else if s[i] == '\\' {
        if s.len() - i < 2 {
            None
        } else {
            let e = s[i + 1];
            if e == '"' || e == '\\' || e == '/' {
                read_str_lit_cons(s, e, i + 2)
            } else if e == 'b' {
                read_str_lit_cons(s, char_from_u32(8), i + 2)
            } else if e == 'f' {
                read_str_lit_cons(s, char_from_u32(12), i + 2)
            } else if e == 'n' {
                read_str_lit_cons(s, '\n', i + 2)
            } else if e == 'r' {
                read_str_lit_cons(s, '\r', i + 2)
            } else if e == 't' {
                read_str_lit_cons(s, '\t', i + 2)
            } else if e == 'u' {
                match read_unicode_escape(s, i + 2) {
                    Some((c, j)) => read_str_lit_cons(s, c, j),
                    None => None,
                }
            } else {
                None
            }
        }
    } else if (s[i] as u32) < 0x20 {
        None
    } else {
        read_str_lit_cons(s, s[i], i + 1)
    }
}

/// Read the rest of a string literal from `j` and put `c` in front.
fn read_str_lit_cons(s: &Vec<char>, c: char, j: usize) -> (r: Option<(Vec<char>, usize)>)
    requires
        0 < j <= s.len(),
    ensures
        match r {
            Some(p) => {
                &&& str_lit_cons(s@, c, j as int) == Some((p.0@, p.1 as int))
                &&& j < p.1 <= s.len()
            },
            None => str_lit_cons(s@, c, j as int) is None,
        },
    decreases s.len() - j, 1int,
{
    match read_str_lit(s, j) {
        Some((mut rest, k)) => {
            rest.insert(0, c);
            proof {
                assert(rest@ =~= seq![c] + rest@.subrange(1, rest@.len() as int));
            }
            Some((rest, k))
        },
        None => None,
    }
}

/// Read a `\uXXXX` escape, combining a surrogate pair into one character.
fn read_unicode_escape(s: &Vec<char>, i: usize) -> (r: Option<(char, usize)>)
    requires
        i <= s.len(),
    ensures
        match r {
            Some(p) => {
                &&& unicode_escape(s@, i as int) == Some((p.0, p.1 as int))
                &&& i < p.1 <= s.len()
            },
            None => unicode_escape(s@, i as int) is None,
        },
{
    match read_hex_quad(s, i) {
        Some(h) => {
            if h < 0xD800 || h >= 0xE000 {
                Some((char_from_u32(h), i + 4))
            } else if h < 0xDC00 {
                if s.len() - i >= 10 && s[i + 4] == '\\' && s[i + 5] == 'u' {
                    match read_hex_quad(s, i + 6) {
                        Some(l) => {
                            if 0xDC00 <= l && l < 0xE000 {
                                Some((char_from_u32(0x10000 + 0x400 * (h - 0xD800) + (l - 0xDC00)), i + 10))
                            } else {
                                None
                            }
                        },
                        None => None,
                    }
                } else {
                    None
                }
            } else {
                None
            }
        },
        None => None,
    }
}

/// True when the given word stands at `i`.
pub open spec fn lit_at(s: Seq<char>, i: int, w: Seq<char>) -> bool {
    0 <= i && i + w.len() <= s.len() && s.subrange(i, i + w.len()) == w
}

/// Check that the given word stands at `i`.
pub fn has_lit_at(s: &Vec<char>, i: usize, w: &str) -> (r: bool)
    requires
        i <= s.len(),
    ensures
        r == lit_at(s@, i as int, w@),
{
    let n = w.unicode_len();
    if s.len() - i < n {
        proof {
            assert(!lit_at(s@, i as int, w@));
        }
        return false;
    }
    let mut k: usize = 0;
    let mut j: usize = i;
    while k < n
        invariant
            k <= n,
            j == i + k,
            n == w@.len(),
            i + n <= s@.len() <= usize::MAX,
            forall|t: int| 0 <= t < k ==> s@[i + t] == w@[t],
        decreases n - k,
    {
        if s[j] != w.get_char(k) {
            proof {
                assert(s@.subrange(i as int, i + w@.len()) != w@) by {
                    assert(s@.subrange(i as int, i + w@.len())[k as int] != w@[k as int]);
                }
            }
            return false;
        }
        k = k + 1;
        j = j + 1;
    }
    proof {
        assert(s@.subrange(i as int, i + w@.len()) =~= w@);
    }
    true
}

/// Copy out a range of characters.
pub fn chars_subrange(v: &Vec<char>, a: usize, b: usize) -> (out: Vec<char>)
    requires
        a <= b <= v.len(),
    ensures
        out@ == v@.subrange(a as int, b as int),
{
    let mut out: Vec<char> = Vec::new();
    let mut i: usize = a;
    while i < b
        invariant
            a <= i <= b <= v@.len(),
            out@ =~= v@.subrange(a as int, i as int),
        decreases b - i,
    {
        out.push(v[i]);
        proof {
            assert(v@.subrange(a as int, i + 1 as int) =~= v@.subrange(a as int, i as int).push(
                v@[i as int],
            ));
        }
        i = i + 1;
    }
    out
}

/// Check that the characters are exactly the given word.
pub fn chars_eq_str(v: &Vec<char>, w: &str) -> (r: bool)
    ensures
        r == (v@ == w@),
{
    let n = w.unicode_len();
    if v.len() != n {
        proof {
            assert(v@ != w@);
        }
        return false;
    }
    let mut k: usize = 0;
    while k < n
        invariant
            k <= n,
            n == w@.len(),
            v@.len() == n,
            forall|t: int| 0 <= t < k ==> v@[t] == w@[t],
        decreases n - k,
    {
        if v[k] != w.get_char(k) {
            proof {
                assert(v@[k as int] != w@[k as int]);
            }
            return false;
        }
        k = k + 1;
    }
    proof {
        assert(v@ =~= w@);
    }
    true
}

/// The end of the number token at `i`: an optional minus sign, digits, an
/// optional fraction, and an optional exponent.
pub open spec fn num_end(s: Seq<char>, i: int) -> Option<int> {
    if !(0 <= i <= s.len()) {
        None
    } else {
        let a = if i < s.len() && s[i] == '-' {
            i + 1
        } else {
            i
        };
        let b = digits_end(s, a);
        if b == a {
            None
        } else {
            let c = if b < s.len() && s[b] == '.' {
                digits_end(s, b + 1)
            } else {
                b
            };
            if b < s.len() && s[b] == '.' && c == b + 1 {
                None
            } else {
                let d = if c < s.len() && (s[c] == 'e' || s[c] == 'E') {
                    let e0 = if c + 1 < s.len() && (s[c + 1] == '+' || s[c + 1] == '-') {
                        c + 2
                    } else {
                        c + 1
                    };
                    digits_end(s, e0)
                } else {
                    c
                };
                if c < s.len() && (s[c] == 'e' || s[c] == 'E') && (d == c + 1 || (c + 1 < s.len()
                    && (s[c + 1] == '+' || s[c + 1] == '-') && d == c + 2)) {
                    None
                } else {
                    Some(d)
                }
            }
        }
    }
}

/// Read the number token at `i`, executably.
pub fn read_num_end(s: &Vec<char>, i: usize) -> (r: Option<usize>)
    requires
        i <= s.len(),
    ensures
        match r {
            Some(j) => num_end(s@, i as int) == Some(j as int) && i < j <= s.len(),
            None => num_end(s@, i as int) is None,
        },
{
    let a: usize = if i < s.len() && s[i] == '-' {
        i + 1
    } else {
        i
    };
    proof {
        lemma_digits_end_bounds(s@, a as int);
    }
    let b = skip_digits(s, a);
    if b == a {
        return None;
    }
    let c: usize = if b < s.len() && s[b] == '.' {
        skip_digits(s, b + 1)
    } else {
        b
    };
    if b < s.len() && s[b] == '.' && c == b + 1 {
        return None;
    }
    if c < s.len() && (s[c] == 'e' || s[c] == 'E') {
        let e0: usize = if c + 1 < s.len() && (s[c + 1] == '+' || s[c + 1] == '-') {
            c + 2
        } else {
            c + 1
        };
        let d = skip_digits(s, e0);
        if d == e0 {
            return None;
        }
        Some(d)
    } else {
        Some(c)
    }
}

} // verus!
