//! The request envelope: a POST body is exactly one JSON object with an
//! optional `query` member and an optional `mutation` member, each a string
//! or null. Anything else — other members, other value shapes, duplicated
//! members, trailing text, malformed JSON — is rejected. The decoder is
//! specified as a recursive function over the character sequence and
//! implemented by a verified executable twin.

use vstd::prelude::*;

use crate::lex::{chars_eq_str, lit_at, read_str_lit, skip_ws, str_lit_from, ws_end};

verus! {

/// One member's value: a string (the text) or null (no text); anything
/// else is malformed.
pub open spec fn member_val_from(s: Seq<char>, i: int) -> Option<(Option<Seq<char>>, int)> {
    if 0 <= i < s.len() && s[i] == '"' {
        match str_lit_from(s, i + 1) {
            Some((t, j)) => Some((Some(t), j)),
            None => None,
        }
    } else if lit_at(s, i, "null"@) {
        Some((None, i + 4))
    } else {
        None
    }
}

/// The members from `i`: each is a `query` or `mutation` member, seen at
/// most once; the result carries the gathered values and the position just
/// after the closing brace.
pub open spec fn members_from(
    s: Seq<char>,
    i: int,
    seen_q: bool,
    q: Option<Seq<char>>,
    seen_m: bool,
    m: Option<Seq<char>>,
) -> Option<(Option<Seq<char>>, Option<Seq<char>>, int)>
    decreases s.len() - i, 0int,
{
    let i0 = ws_end(s, i);
    if !(i0 < s.len() && s[i0] == '"') {
        None
    } else {
        match str_lit_from(s, i0 + 1) {
            None => None,
            Some((key, j)) => {
                let j2 = ws_end(s, j);
                if !(j2 < s.len() && s[j2] == ':') {
                    None
                } else {
                    match member_val_from(s, ws_end(s, j2 + 1)) {
                        None => None,
                        Some((v, j4)) => {
                            if !(i < j4 <= s.len()) {
                                None
                            } else if key == "query"@ {
                                if seen_q {
                                    None
                                } else {
                                    members_tail(s, j4, true, v, seen_m, m)
                                }
                            } else if key == "mutation"@ {
                                if seen_m {
                                    None
                                } else {
                                    members_tail(s, j4, seen_q, q, true, v)
                                }
                            } else {
                                None
                            }
                        },
                    }
                }
            },
        }
    }
}

/// After one member: a comma continues with the next member, a closing
/// brace ends the object.
pub open spec fn members_tail(
    s: Seq<char>,
    i: int,
    seen_q: bool,
    q: Option<Seq<char>>,
    seen_m: bool,
    m: Option<Seq<char>>,
) -> Option<(Option<Seq<char>>, Option<Seq<char>>, int)>
    decreases s.len() - i, 1int,
{
    let j = ws_end(s, i);
    if j < s.len() && s[j] == ',' {
        if j + 1 > i {
            members_from(s, j + 1, seen_q, q, seen_m, m)
        } else {
            None
        }
    } else if j < s.len() && s[j] == '}' {
        Some((q, m, j + 1))
    } else {
        None
    }
}

/// The decoded envelope: the optional query text and the optional mutation
/// text, provided the whole body is exactly one well-formed object.
pub open spec fn envelope_from(s: Seq<char>) -> Option<(Option<Seq<char>>, Option<Seq<char>>)> {
    let i0 = ws_end(s, 0);
    if !(i0 < s.len() && s[i0] == '{') {
        None
    } else {
        let i1 = ws_end(s, i0 + 1);
        if i1 < s.len() && s[i1] == '}' {
            if ws_end(s, i1 + 1) == s.len() {
                Some((None, None))
            } else {
                None
            }
        } else {
            match members_from(s, i0 + 1, false, None, false, None) {
                Some((q, m, j)) => if ws_end(s, j) == s.len() {
                    Some((q, m))
                } else {
                    None
                },
                None => None,
            }
        }
    }
}

/// The view of an optional character vector.
pub open spec fn opt_chars_view(o: Option<Vec<char>>) -> Option<Seq<char>> {
    match o {
        Some(v) => Some(v@),
        None => None,
    }
}

/// Read one member's value.
fn read_member_val(s: &Vec<char>, i: usize) -> (r: Option<(Option<Vec<char>>, usize)>)
    requires
        i <= s.len(),
    ensures
        match r {
            Some(p) => {
                &&& member_val_from(s@, i as int) == Some((opt_chars_view(p.0), p.1 as int))
                &&& i < p.1 <= s.len()
            },
            None => member_val_from(s@, i as int) is None,
        },
{
    if i < s.len() && s[i] == '"' {
        match read_str_lit(s, i + 1) {
            Some((t, j)) => Some((Some(t), j)),
            None => None,
        }
    } else if crate::lex::has_lit_at(s, i, "null") {
        proof {
            reveal_strlit("null");
        }
        Some((None, i + 4))
    } else {
        None
    }
}

/// Read the members from `i`.
fn read_members(s: &Vec<char>, i: usize, seen_q: bool, q: Option<Vec<char>>, seen_m: bool, m: Option<Vec<char>>) -> (r:
    Option<(Option<Vec<char>>, Option<Vec<char>>, usize)>)
    requires
        i <= s.len(),
    ensures
        match r {
            Some(p) => {
                &&& members_from(s@, i as int, seen_q, opt_chars_view(q), seen_m, opt_chars_view(m))
                    == Some((opt_chars_view(p.0), opt_chars_view(p.1), p.2 as int))
                &&& p.2 <= s.len()
            },
            None => members_from(
                s@,
                i as int,
                seen_q,
                opt_chars_view(q),
                seen_m,
                opt_chars_view(m),
            ) is None,
        },
    decreases s.len() - i, 0int,
{
    let i0 = skip_ws(s, i);
    if !(i0 < s.len() && s[i0] == '"') {
        return None;
    }
    let (key, j) = match read_str_lit(s, i0 + 1) {
        None => { return None },
        Some(p) => p,
    };
    let j2 = skip_ws(s, j);
    if !(j2 < s.len() && s[j2] == ':') {
        return None;
    }
    let j3 = skip_ws(s, j2 + 1);
    let (v, j4) = match read_member_val(s, j3) {
        None => { return None },
        Some(p) => p,
    };
    if chars_eq_str(&key, "query") {
        if seen_q {
            None
        } else {
            read_members_tail(s, j4, true, v, seen_m, m)
        }
    } else if chars_eq_str(&key, "mutation") {
        if seen_m {
            None
        } else {
            read_members_tail(s, j4, seen_q, q, true, v)
        }
    } else {
        None
    }
}

/// Read what follows one member.
fn read_members_tail(s: &Vec<char>, i: usize, seen_q: bool, q: Option<Vec<char>>, seen_m: bool, m: Option<
    Vec<char>>) -> (r: Option<(Option<Vec<char>>, Option<Vec<char>>, usize)>)
    requires
        i <= s.len(),
    ensures
        match r {
            Some(p) => {
                &&& members_tail(s@, i as int, seen_q, opt_chars_view(q), seen_m, opt_chars_view(m))
                    == Some((opt_chars_view(p.0), opt_chars_view(p.1), p.2 as int))
                &&& p.2 <= s.len()
            },
            None => members_tail(
                s@,
                i as int,
                seen_q,
                opt_chars_view(q),
                seen_m,
                opt_chars_view(m),
            ) is None,
        },
    decreases s.len() - i, 1int,
{
    let j = skip_ws(s, i);
    if j < s.len() && s[j] == ',' {
        read_members(s, j + 1, seen_q, q, seen_m, m)
    } else if j < s.len() && s[j] == '}' {
        Some((q, m, j + 1))
    } else {
        None
    }
}

/// Decode a request body into its optional query and mutation texts, or
/// nothing if the body is not a well-formed envelope.
pub fn decode_envelope(s: &Vec<char>) -> (r: Option<(Option<Vec<char>>, Option<Vec<char>>)>)
    ensures
        match r {
            Some(p) => envelope_from(s@) == Some((opt_chars_view(p.0), opt_chars_view(p.1))),
            None => envelope_from(s@) is None,
        },
{
    let i0 = skip_ws(s, 0);
    if !(i0 < s.len() && s[i0] == '{') {
        return None;
    }
    let i1 = skip_ws(s, i0 + 1);
    if i1 < s.len() && s[i1] == '}' {
        if skip_ws(s, i1 + 1) == s.len() {
            return Some((None, None));
        } else {
            return None;
        }
    }
    match read_members(s, i0 + 1, false, None, false, None) {
        Some((q, m, j)) => {
            if skip_ws(s, j) == s.len() {
                Some((q, m))
            } else {
                None
            }
        },
        None => None,
    }
}

} // verus!
