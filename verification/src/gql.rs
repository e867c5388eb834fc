//! The GraphQL operation text: a selection set of root fields, each with
//! optional arguments and an optional flat subselection, written with the
//! usual GraphQL lexical conventions (commas are whitespace, argument
//! object keys are bare names, string literals use the JSON escapes).
//! The parser is specified as recursive functions over the character
//! sequence, with verified executable twins producing the syntax tree the
//! evaluator consumes.

use vstd::prelude::*;

use crate::json::{JsonObject, Scalar, ScalarV};
use crate::lex::{
    chars_subrange, gws_end, is_digit, is_name_start, lit_at, name_run_end, num_end, read_num_end,
    read_str_lit, skip_gws, skip_name_chars, str_lit_from,
};
use crate::json::string_from_chars;

verus! {

/// An argument value: a scalar, a list of flat objects, or one flat
/// object. Deeper nesting does not occur in this schema's arguments.
#[derive(Debug)]
pub enum ArgValue {
    Scalar(Scalar),
    List(Vec<JsonObject>),
    Object(JsonObject),
}

/// One requested root field: its name, its arguments, and the flat
/// subselection of entity field names, if one was written.
#[derive(Debug)]
pub struct Selection {
    pub name: String,
    pub args: Vec<(String, ArgValue)>,
    pub sub: Option<Vec<String>>,
}

/// The mathematical view of an argument value.
pub enum ArgV {
    Scalar(ScalarV),
    List(Seq<Seq<(Seq<char>, ScalarV)>>),
    Object(Seq<(Seq<char>, ScalarV)>),
}

/// The mathematical view of a selection.
#[verifier::ext_equal]
pub struct SelV {
    pub name: Seq<char>,
    pub args: Seq<(Seq<char>, ArgV)>,
    pub sub: Option<Seq<Seq<char>>>,
}

/// The view of an argument list.
pub open spec fn args_view(a: Seq<(String, ArgValue)>) -> Seq<(Seq<char>, ArgV)> {
    a.map_values(|x: (String, ArgValue)| (x.0@, x.1@))
}

/// The views of a name list.
pub open spec fn names_view(ns: Seq<String>) -> Seq<Seq<char>> {
    ns.map_values(|n: String| n@)
}

/// The views of a selection list.
pub open spec fn sels_view(ss: Seq<Selection>) -> Seq<SelV> {
    ss.map_values(|x: Selection| x@)
}

/// The view of an optional subselection.
pub open spec fn sub_view(o: Option<Vec<String>>) -> Option<Seq<Seq<char>>> {
    match o {
        Some(ns) => Some(names_view(ns@)),
        None => None,
    }
}

impl View for ArgValue {
    type V = ArgV;

    open spec fn view(&self) -> ArgV {
        match self {
            ArgValue::Scalar(s) => ArgV::Scalar(s@),
            ArgValue::List(os) => ArgV::List(crate::json::objs_view(os@)),
            ArgValue::Object(o) => ArgV::Object(o@),
        }
    }
}

impl View for Selection {
    type V = SelV;

    open spec fn view(&self) -> SelV {
        SelV { name: self.name@, args: args_view(self.args@), sub: sub_view(self.sub) }
    }
}

/// The name starting at `i`, if a name starts there.
pub open spec fn name_at(s: Seq<char>, i: int) -> Option<(Seq<char>, int)> {
    if 0 <= i < s.len() && is_name_start(s[i]) {
        Some((s.subrange(i, name_run_end(s, i)), name_run_end(s, i)))
    } else {
        None
    }
}

/// The scalar literal at `i`: a string, a number, or one of the words
/// `null`, `true`, `false` (each ending the name run it starts).
pub open spec fn scalar_at(s: Seq<char>, i: int) -> Option<(ScalarV, int)> {
    if !(0 <= i < s.len()) {
        None
    } else if s[i] == '"' {
        match str_lit_from(s, i + 1) {
            Some((t, j)) => Some((ScalarV::Text(t), j)),
            None => None,
        }
    } else if s[i] == '-' || is_digit(s[i]) {
        match num_end(s, i) {
            Some(j) => if i < j <= s.len() {
                Some((ScalarV::Num(s.subrange(i, j)), j))
            } else {
                None
            },
            None => None,
        }
    } else if lit_at(s, i, "null"@) && name_run_end(s, i) == i + 4 {
        Some((ScalarV::Null, i + 4))
    } else if lit_at(s, i, "true"@) && name_run_end(s, i) == i + 4 {
        Some((ScalarV::Bool(true), i + 4))
    } else if lit_at(s, i, "false"@) && name_run_end(s, i) == i + 5 {
        Some((ScalarV::Bool(false), i + 5))
    } else {
        None
    }
}

/// The members of an argument object from `i` (just after its opening
/// brace): bare names, colons, scalar values, up to the closing brace.
pub open spec fn obj_members_at(s: Seq<char>, i: int) -> Option<(Seq<(Seq<char>, ScalarV)>, int)>
    decreases s.len() - i, 0int,
{
    let i0 = gws_end(s, i);
    if i0 < s.len() && s[i0] == '}' {
        Some((Seq::<(Seq<char>, ScalarV)>::empty(), i0 + 1))
    } else {
        match name_at(s, i0) {
            None => None,
            Some((nm, a)) => {
                let b = gws_end(s, a);
                if !(b < s.len() && s[b] == ':') {
                    None
                } else {
                    match scalar_at(s, gws_end(s, b + 1)) {
                        None => None,
                        Some((v, c)) => if i < c <= s.len() {
                            obj_members_cons(s, (nm, v), c)
                        } else {
                            None
                        },
                    }
                }
            },
        }
    }
}

/// One object member, followed by the rest from `c`.
pub open spec fn obj_members_cons(s: Seq<char>, m: (Seq<char>, ScalarV), c: int) -> Option<
    (Seq<(Seq<char>, ScalarV)>, int),
>
    decreases s.len() - c, 1int,
{
    match obj_members_at(s, c) {
        Some((rest, j)) => Some((seq![m] + rest, j)),
        None => None,
    }
}

/// The objects of a list argument from `i` (just after its opening
/// bracket), up to the closing bracket.
pub open spec fn objs_at(s: Seq<char>, i: int) -> Option<(Seq<Seq<(Seq<char>, ScalarV)>>, int)>
    decreases s.len() - i, 0int,
{
    let i0 = gws_end(s, i);
    if i0 < s.len() && s[i0] == ']' {
        Some((Seq::<Seq<(Seq<char>, ScalarV)>>::empty(), i0 + 1))
    } else if i0 < s.len() && s[i0] == '{' {
        match obj_members_at(s, i0 + 1) {
            Some((ms, j)) => if i < j <= s.len() {
                objs_cons(s, ms, j)
            } else {
                None
            },
            None => None,
        }
    } else {
        None
    }
}

/// One list object, followed by the rest from `j`.
pub open spec fn objs_cons(s: Seq<char>, o: Seq<(Seq<char>, ScalarV)>, j: int) -> Option<
    (Seq<Seq<(Seq<char>, ScalarV)>>, int),
>
    decreases s.len() - j, 1int,
{
    match objs_at(s, j) {
        Some((rest, k)) => Some((seq![o] + rest, k)),
        None => None,
    }
}

/// The argument value at `i`: a scalar, a list of objects, or an object.
pub open spec fn value_at(s: Seq<char>, i: int) -> Option<(ArgV, int)> {
    if !(0 <= i < s.len()) {
        None
    } else if s[i] == '[' {
        match objs_at(s, i + 1) {
            Some((os, j)) => Some((ArgV::List(os), j)),
            None => None,
        }
    } else if s[i] == '{' {
        match obj_members_at(s, i + 1) {
            Some((ms, j)) => Some((ArgV::Object(ms), j)),
            None => None,
        }
    } else {
        match scalar_at(s, i) {
            Some((v, j)) => Some((ArgV::Scalar(v), j)),
            None => None,
        }
    }
}

/// The arguments from `i` (just after the opening parenthesis), up to the
/// closing parenthesis.
pub open spec fn args_at(s: Seq<char>, i: int) -> Option<(Seq<(Seq<char>, ArgV)>, int)>
    decreases s.len() - i, 0int,
{
    let i0 = gws_end(s, i);
    if i0 < s.len() && s[i0] == ')' {
        Some((Seq::<(Seq<char>, ArgV)>::empty(), i0 + 1))
    } else {
        match name_at(s, i0) {
            None => None,
            Some((nm, a)) => {
                let b = gws_end(s, a);
                if !(b < s.len() && s[b] == ':') {
                    None
                } else {
                    match value_at(s, gws_end(s, b + 1)) {
                        None => None,
                        Some((v, c)) => if i < c <= s.len() {
                            args_cons(s, (nm, v), c)
                        } else {
                            None
                        },
                    }
                }
            },
        }
    }
}

/// One argument, followed by the rest from `c`.
pub open spec fn args_cons(s: Seq<char>, m: (Seq<char>, ArgV), c: int) -> Option<
    (Seq<(Seq<char>, ArgV)>, int),
>
    decreases s.len() - c, 1int,
{
    match args_at(s, c) {
        Some((rest, j)) => Some((seq![m] + rest, j)),
        None => None,
    }
}

/// The subselection names from `i` (just after the opening brace), up to
/// the closing brace.
pub open spec fn subnames_at(s: Seq<char>, i: int) -> Option<(Seq<Seq<char>>, int)>
    decreases s.len() - i, 0int,
{
    let i0 = gws_end(s, i);
    if i0 < s.len() && s[i0] == '}' {
        Some((Seq::<Seq<char>>::empty(), i0 + 1))
    } else {
        match name_at(s, i0) {
            Some((nm, a)) => if i < a <= s.len() {
                subnames_cons(s, nm, a)
            } else {
                None
            },
            None => None,
        }
    }
}

/// One subselection name, followed by the rest from `a`.
pub open spec fn subnames_cons(s: Seq<char>, nm: Seq<char>, a: int) -> Option<
    (Seq<Seq<char>>, int),
>
    decreases s.len() - a, 1int,
{
    match subnames_at(s, a) {
        Some((rest, j)) => Some((seq![nm] + rest, j)),
        None => None,
    }
}

/// One selection at `i` (at its name): the name, optional arguments, and
/// an optional subselection.
pub open spec fn selection_at(s: Seq<char>, i: int) -> Option<(SelV, int)> {
    match name_at(s, i) {
        None => None,
        Some((nm, ne)) => {
            let a = gws_end(s, ne);
            if a < s.len() && s[a] == '(' {
                match args_at(s, a + 1) {
                    None => None,
                    Some((args, j)) => selection_sub(s, nm, args, j),
                }
            } else {
                selection_sub(s, nm, Seq::<(Seq<char>, ArgV)>::empty(), ne)
            }
        },
    }
}

/// The optional subselection after a selection's head, from `j`.
pub open spec fn selection_sub(s: Seq<char>, nm: Seq<char>, args: Seq<(Seq<char>, ArgV)>, j: int) -> Option<
    (SelV, int),
> {
    let b = gws_end(s, j);
    if b < s.len() && s[b] == '{' {
        match subnames_at(s, b + 1) {
            None => None,
            Some((ns, k)) => Some((SelV { name: nm, args, sub: Some(ns) }, k)),
        }
    } else {
        Some((SelV { name: nm, args, sub: None }, j))
    }
}

/// The selections from `i` (just after the opening brace of the selection
/// set), up to the closing brace.
pub open spec fn selections_at(s: Seq<char>, i: int) -> Option<(Seq<SelV>, int)>
    decreases s.len() - i, 0int,
{
    let i0 = gws_end(s, i);
    if i0 < s.len() && s[i0] == '}' {
        Some((Seq::<SelV>::empty(), i0 + 1))
    } else {
        match selection_at(s, i0) {
            None => None,
            Some((sel, j)) => if i < j <= s.len() {
                selections_cons(s, sel, j)
            } else {
                None
            },
        }
    }
}

/// One selection, followed by the rest from `j`.
pub open spec fn selections_cons(s: Seq<char>, sel: SelV, j: int) -> Option<(Seq<SelV>, int)>
    decreases s.len() - j, 1int,
{
    match selections_at(s, j) {
        Some((rest, k)) => Some((seq![sel] + rest, k)),
        None => None,
    }
}

/// The whole operation: an optional `query` or `mutation` keyword, then a
/// braced selection set, then nothing but trailing whitespace.
pub open spec fn operation_from(s: Seq<char>) -> Option<Seq<SelV>> {
    let i0 = gws_end(s, 0);
    let start = match name_at(s, i0) {
        Some((kw, ne)) => if kw == "query"@ || kw == "mutation"@ {
            gws_end(s, ne)
        } else {
            i0
        },
        None => i0,
    };
    if start < s.len() && s[start] == '{' {
        match selections_at(s, start + 1) {
            Some((sels, j)) => if gws_end(s, j) == s.len() {
                Some(sels)
            } else {
                None
            },
            None => None,
        }
    } else {
        None
    }
}

/// Read the name at `i`.
fn read_name(s: &Vec<char>, i: usize) -> (r: Option<(Vec<char>, usize)>)
    requires
        i <= s.len(),
    ensures
        match r {
            Some(p) => name_at(s@, i as int) == Some((p.0@, p.1 as int)) && i < p.1 <= s.len(),
            None => name_at(s@, i as int) is None,
        },
{
    if i < s.len() && (('a' <= s[i] && s[i] <= 'z') || ('A' <= s[i] && s[i] <= 'Z') || s[i] == '_')
    {
        let e = skip_name_chars(s, i + 1);
        proof {
            assert(name_run_end(s@, i as int) == name_run_end(s@, i + 1 as int));
        }
        Some((chars_subrange(s, i, e), e))
    } else {
        None
    }
}

/// Read the scalar literal at `i`.
fn read_scalar(s: &Vec<char>, i: usize) -> (r: Option<(Scalar, usize)>)
    requires
        i <= s.len(),
    ensures
        match r {
            Some(p) => scalar_at(s@, i as int) == Some((p.0@, p.1 as int)) && i < p.1 <= s.len(),
            None => scalar_at(s@, i as int) is None,
        },
{
    proof {
        reveal_strlit("null");
        reveal_strlit("true");
        reveal_strlit("false");
    }
    if i >= s.len() {
        return None;
    }
    if s[i] == '"' {
        match read_str_lit(s, i + 1) {
            Some((t, j)) => Some((Scalar::Text(string_from_chars(&t)), j)),
            None => None,
        }
    } else if s[i] == '-' || ('0' <= s[i] && s[i] <= '9') {
        match read_num_end(s, i) {
            Some(j) => {
                let t = chars_subrange(s, i, j);
                Some((Scalar::Num(string_from_chars(&t)), j))
            },
            None => None,
        }
    } else if crate::lex::has_lit_at(s, i, "null") && skip_name_chars(s, i) == i + 4 {
        Some((Scalar::Null, i + 4))
    } else if crate::lex::has_lit_at(s, i, "true") && skip_name_chars(s, i) == i + 4 {
        Some((Scalar::Bool(true), i + 4))
    } else if crate::lex::has_lit_at(s, i, "false") && skip_name_chars(s, i) == i + 5 {
        Some((Scalar::Bool(false), i + 5))
    } else {
        None
    }
}

/// Read an argument object's members from `i`.
fn read_obj_members(s: &Vec<char>, i: usize) -> (r: Option<(Vec<(String, Scalar)>, usize)>)
    requires
        i <= s.len(),
    ensures
        match r {
            Some(p) => {
                &&& obj_members_at(s@, i as int) == Some(
                    (crate::json::members_view(p.0@), p.1 as int),
                )
                &&& i < p.1 <= s.len()
            },
            None => obj_members_at(s@, i as int) is None,
        },
    decreases s.len() - i, 0int,
{
    let i0 = skip_gws(s, i);
    if i0 < s.len() && s[i0] == '}' {
        let out: Vec<(String, Scalar)> = Vec::new();
        proof {
            assert(crate::json::members_view(out@) =~= Seq::<(Seq<char>, ScalarV)>::empty());
        }
        return Some((out, i0 + 1));
    }
    let (nm, a) = match read_name(s, i0) {
        None => { return None },
        Some(p) => p,
    };
    let b = skip_gws(s, a);
    if !(b < s.len() && s[b] == ':') {
        return None;
    }
    let c0 = skip_gws(s, b + 1);
    let (v, c) = match read_scalar(s, c0) {
        None => { return None },
        Some(p) => p,
    };
    match read_obj_members(s, c) {
        Some((mut rest, j)) => {
            let ghost prev = rest@;
            let nm_s = string_from_chars(&nm);
            rest.insert(0, (nm_s, v));
            proof {
                assert(rest@ =~= seq![(nm_s, v)] + prev);
                assert(crate::json::members_view(rest@) =~= seq![(nm@, v@)]
                    + crate::json::members_view(prev));
            }
            Some((rest, j))
        },
        None => None,
    }
}

/// Read a list argument's objects from `i`.
fn read_objs(s: &Vec<char>, i: usize) -> (r: Option<(Vec<JsonObject>, usize)>)
    requires
        i <= s.len(),
    ensures
        match r {
            Some(p) => {
                &&& objs_at(s@, i as int) == Some((crate::json::objs_view(p.0@), p.1 as int))
                &&& i < p.1 <= s.len()
            },
            None => objs_at(s@, i as int) is None,
        },
    decreases s.len() - i, 0int,
{
    let i0 = skip_gws(s, i);
    if i0 < s.len() && s[i0] == ']' {
        let out: Vec<JsonObject> = Vec::new();
        proof {
            assert(crate::json::objs_view(out@) =~= Seq::<Seq<(Seq<char>, ScalarV)>>::empty());
        }
        return Some((out, i0 + 1));
    }
    if !(i0 < s.len() && s[i0] == '{') {
        return None;
    }
    let (ms, j) = match read_obj_members(s, i0 + 1) {
        None => { return None },
        Some(p) => p,
    };
    match read_objs(s, j) {
        Some((mut rest, k)) => {
            let ghost prev = rest@;
            let obj = JsonObject { members: ms };
            rest.insert(0, obj);
            proof {
                assert(rest@ =~= seq![rest@[0]] + prev);
                assert(crate::json::objs_view(rest@) =~= seq![rest@[0]@]
                    + crate::json::objs_view(prev));
            }
            Some((rest, k))
        },
        None => None,
    }
}

/// Read the argument value at `i`.
fn read_value(s: &Vec<char>, i: usize) -> (r: Option<(ArgValue, usize)>)
    requires
        i <= s.len(),
    ensures
        match r {
            Some(p) => value_at(s@, i as int) == Some((p.0@, p.1 as int)) && i < p.1 <= s.len(),
            None => value_at(s@, i as int) is None,
        },
{
    if i >= s.len() {
        return None;
    }
    if s[i] == '[' {
        match read_objs(s, i + 1) {
            Some((os, j)) => Some((ArgValue::List(os), j)),
            None => None,
        }
    } else if s[i] == '{' {
        match read_obj_members(s, i + 1) {
            Some((ms, j)) => Some((ArgValue::Object(JsonObject { members: ms }), j)),
            None => None,
        }
    } else {
        match read_scalar(s, i) {
            Some((v, j)) => Some((ArgValue::Scalar(v), j)),
            None => None,
        }
    }
}

/// Read the arguments from `i`.
fn read_args(s: &Vec<char>, i: usize) -> (r: Option<(Vec<(String, ArgValue)>, usize)>)
    requires
        i <= s.len(),
    ensures
        match r {
            Some(p) => {
                &&& args_at(s@, i as int) == Some((args_view(p.0@), p.1 as int))
                &&& i < p.1 <= s.len()
            },
            None => args_at(s@, i as int) is None,
        },
    decreases s.len() - i, 0int,
{
    let i0 = skip_gws(s, i);
    if i0 < s.len() && s[i0] == ')' {
        let out: Vec<(String, ArgValue)> = Vec::new();
        proof {
            assert(args_view(out@) =~= Seq::<(Seq<char>, ArgV)>::empty());
        }
        return Some((out, i0 + 1));
    }
    let (nm, a) = match read_name(s, i0) {
        None => { return None },
        Some(p) => p,
    };
    let b = skip_gws(s, a);
    if !(b < s.len() && s[b] == ':') {
        return None;
    }
    let c0 = skip_gws(s, b + 1);
    let (v, c) = match read_value(s, c0) {
        None => { return None },
        Some(p) => p,
    };
    match read_args(s, c) {
        Some((mut rest, j)) => {
            let ghost prev = rest@;
            let nm_s = string_from_chars(&nm);
            rest.insert(0, (nm_s, v));
            proof {
                assert(rest@ =~= seq![(nm_s, v)] + prev);
                assert(args_view(rest@) =~= seq![(nm@, v@)] + args_view(prev));
            }
            Some((rest, j))
        },
        None => None,
    }
}

/// Read the subselection names from `i`.
fn read_subnames(s: &Vec<char>, i: usize) -> (r: Option<(Vec<String>, usize)>)
    requires
        i <= s.len(),
    ensures
        match r {
            Some(p) => {
                &&& subnames_at(s@, i as int) == Some((names_view(p.0@), p.1 as int))
                &&& i < p.1 <= s.len()
            },
            None => subnames_at(s@, i as int) is None,
        },
    decreases s.len() - i, 0int,
{
    let i0 = skip_gws(s, i);
    if i0 < s.len() && s[i0] == '}' {
        let out: Vec<String> = Vec::new();
        proof {
            assert(names_view(out@) =~= Seq::<Seq<char>>::empty());
        }
        return Some((out, i0 + 1));
    }
    let (nm, a) = match read_name(s, i0) {
        None => { return None },
        Some(p) => p,
    };
    match read_subnames(s, a) {
        Some((mut rest, j)) => {
            let ghost prev = rest@;
            let nm_s = string_from_chars(&nm);
            rest.insert(0, nm_s);
            proof {
                assert(rest@ =~= seq![nm_s] + prev);
                assert(names_view(rest@) =~= seq![nm@] + names_view(prev));
            }
            Some((rest, j))
        },
        None => None,
    }
}

/// Read one selection at `i`.
fn read_selection(s: &Vec<char>, i: usize) -> (r: Option<(Selection, usize)>)
    requires
        i <= s.len(),
    ensures
        match r {
            Some(p) => selection_at(s@, i as int) == Some((p.0@, p.1 as int)) && i < p.1
                <= s.len(),
            None => selection_at(s@, i as int) is None,
        },
{
    let (nm, ne) = match read_name(s, i) {
        None => { return None },
        Some(p) => p,
    };
    let a = skip_gws(s, ne);
    let (args, j) = if a < s.len() && s[a] == '(' {
        match read_args(s, a + 1) {
            None => { return None },
            Some(p) => p,
        }
    } else {
        (Vec::new(), ne)
    };
    let ghost args_v = args_view(args@);
    proof {
        if !(a < s@.len() && s@[a as int] == '(') {
            assert(args_v =~= Seq::<(Seq<char>, ArgV)>::empty());
        }
    }
    let b = skip_gws(s, j);
    if b < s.len() && s[b] == '{' {
        match read_subnames(s, b + 1) {
            None => None,
            Some((ns, k)) => {
                let sel = Selection {
                    name: string_from_chars(&nm),
                    args,
                    sub: Some(ns),
                };
                proof {
                    assert(sel@ =~= (SelV {
                        name: nm@,
                        args: args_v,
                        sub: Some(ns@.map_values(|n: String| n@)),
                    }));
                }
                Some((sel, k))
            },
        }
    } else {
        let sel = Selection { name: string_from_chars(&nm), args, sub: None };
        proof {
            assert(sel@ =~= (SelV { name: nm@, args: args_v, sub: None }));
        }
        Some((sel, j))
    }
}

/// Read the selections from `i`.
fn read_selections(s: &Vec<char>, i: usize) -> (r: Option<(Vec<Selection>, usize)>)
    requires
        i <= s.len(),
    ensures
        match r {
            Some(p) => {
                &&& selections_at(s@, i as int) == Some((sels_view(p.0@), p.1 as int))
                &&& i < p.1 <= s.len()
            },
            None => selections_at(s@, i as int) is None,
        },
    decreases s.len() - i, 0int,
{
    let i0 = skip_gws(s, i);
    if i0 < s.len() && s[i0] == '}' {
        let out: Vec<Selection> = Vec::new();
        proof {
            assert(sels_view(out@) =~= Seq::<SelV>::empty());
        }
        return Some((out, i0 + 1));
    }
    let (sel, j) = match read_selection(s, i0) {
        None => { return None },
        Some(p) => p,
    };
    if j <= i0 {
        // A selection never ends where it began; this branch keeps the
        // index bound explicit for the termination argument.
        return None;
    }
    match read_selections(s, j) {
        Some((mut rest, k)) => {
            let ghost prev = rest@;
            let ghost sel_v = sel@;
            rest.insert(0, sel);
            proof {
                assert(rest@ =~= seq![rest@[0]] + prev);
                assert(rest@[0]@ == sel_v);
                assert(sels_view(rest@) =~= seq![sel_v] + sels_view(prev));
            }
            Some((rest, k))
        },
        None => None,
    }
}

/// Parse a whole operation into its selections, or nothing if the text is
/// not a well-formed operation.
pub fn parse_operation(s: &Vec<char>) -> (r: Option<Vec<Selection>>)
    ensures
        match r {
            Some(sels) => operation_from(s@) == Some(sels_view(sels@)),
            None => operation_from(s@) is None,
        },
{
    let i0 = skip_gws(s, 0);
    let start = match read_name(s, i0) {
        Some((kw, ne)) => {
            if crate::lex::chars_eq_str(&kw, "query") || crate::lex::chars_eq_str(
                &kw,
                "mutation",
            ) {
                skip_gws(s, ne)
            } else {
                i0
            }
        },
        None => i0,
    };
    if !(start < s.len() && s[start] == '{') {
        return None;
    }
    match read_selections(s, start + 1) {
        Some((sels, j)) => {
            if skip_gws(s, j) == s.len() {
                Some(sels)
            } else {
                None
            }
        },
        None => None,
    }
}

} // verus!
