//! The JSON wire format for responses: flat value shapes (scalars, objects
//! of scalars, lists of such objects, and a top object of named fields),
//! their mathematical views, the specification of their serialized text,
//! and verified serializers that produce exactly that text.

use vstd::prelude::*;

verus! {

/// A JSON scalar as carried on the wire. Numbers keep their decimal
/// numeral verbatim; text is emitted quoted and escaped.
#[derive(Debug)]
pub enum Scalar {
    Null,
    Bool(bool),
    Num(String),
    Text(String),
}

/// A flat JSON object: named scalar members, in order.
#[derive(Debug)]
pub struct JsonObject {
    pub members: Vec<(String, Scalar)>,
}

/// What a root field of a response resolves to: a scalar, one flat object
/// (an entity), or a list of flat objects (entity rows).
#[derive(Debug)]
pub enum FieldValue {
    Scalar(Scalar),
    Object(JsonObject),
    List(Vec<JsonObject>),
}

/// A response value: the top-level JSON object, one member per resolved
/// root field, in query order.
#[derive(Debug)]
pub struct Value {
    pub fields: Vec<(String, FieldValue)>,
}

/// The mathematical view of a scalar.
pub enum ScalarV {
    Null,
    Bool(bool),
    Num(Seq<char>),
    Text(Seq<char>),
}

/// The mathematical view of a root field's value.
pub enum FieldV {
    Scalar(ScalarV),
    Object(Seq<(Seq<char>, ScalarV)>),
    List(Seq<Seq<(Seq<char>, ScalarV)>>),
}

impl View for Scalar {
    type V = ScalarV;

    open spec fn view(&self) -> ScalarV {
        match self {
            Scalar::Null => ScalarV::Null,
            Scalar::Bool(b) => ScalarV::Bool(*b),
            Scalar::Num(s) => ScalarV::Num(s@),
            Scalar::Text(s) => ScalarV::Text(s@),
        }
    }
}

/// The view of an object's members.
pub open spec fn members_view(ms: Seq<(String, Scalar)>) -> Seq<(Seq<char>, ScalarV)> {
    ms.map_values(|m: (String, Scalar)| (m.0@, m.1@))
}

/// The view of a list of objects.
pub open spec fn objs_view(os: Seq<JsonObject>) -> Seq<Seq<(Seq<char>, ScalarV)>> {
    os.map_values(|o: JsonObject| o@)
}

impl View for JsonObject {
    type V = Seq<(Seq<char>, ScalarV)>;

    open spec fn view(&self) -> Seq<(Seq<char>, ScalarV)> {
        members_view(self.members@)
    }
}

impl View for FieldValue {
    type V = FieldV;

    open spec fn view(&self) -> FieldV {
        match self {
            FieldValue::Scalar(s) => FieldV::Scalar(s@),
            FieldValue::Object(o) => FieldV::Object(o@),
            FieldValue::List(objs) => FieldV::List(objs_view(objs@)),
        }
    }
}

/// The view of a response's members.
pub open spec fn fields_view(ms: Seq<(String, FieldValue)>) -> Seq<(Seq<char>, FieldV)> {
    ms.map_values(|m: (String, FieldValue)| (m.0@, m.1@))
}

impl View for Value {
    type V = Seq<(Seq<char>, FieldV)>;

    open spec fn view(&self) -> Seq<(Seq<char>, FieldV)> {
        fields_view(self.fields@)
    }
}

impl Clone for Scalar {
    fn clone(&self) -> (s: Self)
        ensures
            s == *self,
    {
        match self {
            Scalar::Null => Scalar::Null,
            Scalar::Bool(b) => Scalar::Bool(*b),
            Scalar::Num(t) => Scalar::Num(t.clone()),
            Scalar::Text(t) => Scalar::Text(t.clone()),
        }
    }
}

/// The lowercase hexadecimal digit for a value below sixteen.
pub open spec fn hex_digit(d: int) -> char {
    if d == 0 {
        '0'
    } else if d == 1 {
        '1'
    } else if d == 2 {
        '2'
    } else if d == 3 {
        '3'
    } else if d == 4 {
        '4'
    } else if d == 5 {
        '5'
    } else if d == 6 {
        '6'
    } else if d == 7 {
        '7'
    } else if d == 8 {
        '8'
    } else if d == 9 {
        '9'
    } else if d == 10 {
        'a'
    } else if d == 11 {
        'b'
    } else if d == 12 {
        'c'
    } else if d == 13 {
        'd'
    } else if d == 14 {
        'e'
    } else {
        'f'
    }
}

/// How one character appears inside a JSON string literal: quotes and
/// backslashes get a two-character escape, the common control characters
/// their short escapes, other control characters the `\u00XX` form, and
/// everything else stands as itself.
pub open spec fn escape_char(c: char) -> Seq<char> {
    if c == '"' {
        seq!['\\', '"']
    } else if c == '\\' {
        seq!['\\', '\\']
    } else if c == '\n' {
        seq!['\\', 'n']
    } else if c == '\r' {
        seq!['\\', 'r']
    } else if c == '\t' {
        seq!['\\', 't']
    } else if (c as u32) < 0x20 {
        seq!['\\', 'u', '0', '0', hex_digit((c as u32) as int / 16), hex_digit((c as u32) as int % 16)]
    } else {
        seq![c]
    }
}

/// The body of a JSON string literal for the given text.
pub open spec fn escape_text(s: Seq<char>) -> Seq<char>
    decreases s.len(),
{
    if s.len() == 0 {
        Seq::<char>::empty()
    } else {
        escape_text(s.drop_last()) + escape_char(s.last())
    }
}

/// A complete JSON string literal for the given text.
pub open spec fn quoted(s: Seq<char>) -> Seq<char> {
    seq!['"'] + escape_text(s) + seq!['"']
}

/// The serialized text of a scalar.
pub open spec fn scalar_text(v: ScalarV) -> Seq<char> {
    match v {
        ScalarV::Null => seq!['n', 'u', 'l', 'l'],
        ScalarV::Bool(b) => if b {
            seq!['t', 'r', 'u', 'e']
        } else {
            seq!['f', 'a', 'l', 's', 'e']
        },
        ScalarV::Num(s) => s,
        ScalarV::Text(s) => quoted(s),
    }
}

/// The serialized text of one object member.
pub open spec fn member_text(m: (Seq<char>, ScalarV)) -> Seq<char> {
    quoted(m.0) + seq![':'] + scalar_text(m.1)
}

/// The serialized text of an object's members, comma-separated.
pub open spec fn members_text(ms: Seq<(Seq<char>, ScalarV)>) -> Seq<char>
    decreases ms.len(),
{
    if ms.len() == 0 {
        Seq::<char>::empty()
    } else if ms.len() == 1 {
        member_text(ms[0])
    } else {
        members_text(ms.drop_last()) + seq![','] + member_text(ms.last())
    }
}

/// The serialized text of a flat object.
pub open spec fn object_text(o: Seq<(Seq<char>, ScalarV)>) -> Seq<char> {
    seq!['{'] + members_text(o) + seq!['}']
}

/// The serialized text of a list's objects, comma-separated.
pub open spec fn objects_text(os: Seq<Seq<(Seq<char>, ScalarV)>>) -> Seq<char>
    decreases os.len(),
{
    if os.len() == 0 {
        Seq::<char>::empty()
    } else if os.len() == 1 {
        object_text(os[0])
    } else {
        objects_text(os.drop_last()) + seq![','] + object_text(os.last())
    }
}

/// The serialized text of a root field's value.
pub open spec fn field_value_text(v: FieldV) -> Seq<char> {
    match v {
        FieldV::Scalar(s) => scalar_text(s),
        FieldV::Object(o) => object_text(o),
        FieldV::List(os) => seq!['['] + objects_text(os) + seq![']'],
    }
}

/// The serialized text of one response member.
pub open spec fn response_member_text(m: (Seq<char>, FieldV)) -> Seq<char> {
    quoted(m.0) + seq![':'] + field_value_text(m.1)
}

/// The serialized text of the response members, comma-separated.
pub open spec fn response_members_text(ms: Seq<(Seq<char>, FieldV)>) -> Seq<char>
    decreases ms.len(),
{
    if ms.len() == 0 {
        Seq::<char>::empty()
    } else if ms.len() == 1 {
        response_member_text(ms[0])
    } else {
        response_members_text(ms.drop_last()) + seq![','] + response_member_text(ms.last())
    }
}

/// The serialized text of a whole response value.
pub open spec fn value_text(v: Seq<(Seq<char>, FieldV)>) -> Seq<char> {
    seq!['{'] + response_members_text(v) + seq!['}']
}

/// Turn a string slice into its characters.
pub fn str_to_chars(s: &str) -> (v: Vec<char>)
    ensures
        v@ == s@,
{
    let n = s.unicode_len();
    let mut v: Vec<char> = Vec::new();
    let mut i: usize = 0;
    while i < n
        invariant
            i <= n,
            n == s@.len(),
            v@ =~= s@.subrange(0, i as int),
        decreases n - i,
    {
        v.push(s.get_char(i));
        proof {
            assert(s@.subrange(0, i + 1 as int) =~= s@.subrange(0, i as int).push(s@[i as int]));
        }
        i = i + 1;
    }
    proof {
        assert(s@.subrange(0, s@.len() as int) =~= s@);
    }
    v
}

/// Relies on `String`'s `FromIterator` of characters: collecting characters
/// yields the string with exactly those characters in order.
#[verifier::external_body]
pub fn string_from_chars(v: &Vec<char>) -> (s: String)
    ensures
        s@ == v@,
{
    v.iter().collect()
}

/// The lowercase hexadecimal digit for a value below sixteen.
fn hex_digit_char(d: u32) -> (c: char)
    requires
        d < 16,
    ensures
        c == hex_digit(d as int),
{
    if d == 0 {
        '0'
    } else if d == 1 {
        '1'
    } else if d == 2 {
        '2'
    } else if d == 3 {
        '3'
    } else if d == 4 {
        '4'
    } else if d == 5 {
        '5'
    } else if d == 6 {
        '6'
    } else if d == 7 {
        '7'
    } else if d == 8 {
        '8'
    } else if d == 9 {
        '9'
    } else if d == 10 {
        'a'
    } else if d == 11 {
        'b'
    } else if d == 12 {
        'c'
    } else if d == 13 {
        'd'
    } else if d == 14 {
        'e'
    } else {
        'f'
    }
}

/// Append one character in its escaped form.
fn push_escaped_char(out: &mut Vec<char>, c: char)
    ensures
        final(out)@ == old(out)@ + escape_char(c),
{
    if c == '"' {
        out.push('\\');
        out.push('"');
        proof {
            assert(out@ =~= old(out)@ + escape_char(c));
        }
    } else if c == '\\' {
        out.push('\\');
        out.push('\\');
        proof {
            assert(out@ =~= old(out)@ + escape_char(c));
        }
    } else if c == '\n' {
        out.push('\\');
        out.push('n');
        proof {
            assert(out@ =~= old(out)@ + escape_char(c));
        }
    } else if c == '\r' {
        out.push('\\');
        out.push('r');
        proof {
            assert(out@ =~= old(out)@ + escape_char(c));
        }
    } else if c == '\t' {
        out.push('\\');
        out.push('t');
        proof {
            assert(out@ =~= old(out)@ + escape_char(c));
        }
    } else if (c as u32) < 0x20 {
        let d = c as u32;
        out.push('\\');
        out.push('u');
        out.push('0');
        out.push('0');
        out.push(hex_digit_char(d / 16));
        out.push(hex_digit_char(d % 16));
        proof {
            assert(out@ =~= old(out)@ + escape_char(c));
        }
    } else {
        out.push(c);
        proof {
            assert(out@ =~= old(out)@ + escape_char(c));
        }
    }
}

/// Append the escaped body of a string literal.
fn append_escaped(out: &mut Vec<char>, s: &str)
    ensures
        final(out)@ == old(out)@ + escape_text(s@),
{
    let n = s.unicode_len();
    let mut i: usize = 0;
    while i < n
        invariant
            i <= n,
            n == s@.len(),
            out@ == old(out)@ + escape_text(s@.subrange(0, i as int)),
        decreases n - i,
    {
        push_escaped_char(out, s.get_char(i));
        proof {
            let cur = s@.subrange(0, i + 1 as int);
            assert(cur.drop_last() =~= s@.subrange(0, i as int));
            assert(cur.last() == s@[i as int]);
            assert(out@ =~= old(out)@ + escape_text(cur));
        }
        i = i + 1;
    }
    proof {
        assert(s@.subrange(0, s@.len() as int) =~= s@);
    }
}

/// Append a complete JSON string literal.
fn append_quoted(out: &mut Vec<char>, s: &str)
    ensures
        final(out)@ == old(out)@ + quoted(s@),
{
    out.push('"');
    append_escaped(out, s);
    out.push('"');
    proof {
        assert(out@ =~= old(out)@ + quoted(s@));
    }
}

/// Append the serialized text of a scalar.
fn append_scalar(out: &mut Vec<char>, v: &Scalar)
    ensures
        final(out)@ == old(out)@ + scalar_text(v@),
{
    match v {
        Scalar::Null => {
            out.push('n');
            out.push('u');
            out.push('l');
            out.push('l');
            proof {
                assert(out@ =~= old(out)@ + scalar_text(v@));
            }
        },
        Scalar::Bool(b) => {
            if *b {
                out.push('t');
                out.push('r');
                out.push('u');
                out.push('e');
            } else {
                out.push('f');
                out.push('a');
                out.push('l');
                out.push('s');
                out.push('e');
            }
            proof {
                assert(out@ =~= old(out)@ + scalar_text(v@));
            }
        },
        Scalar::Num(s) => {
            append_str(out, s.as_str());
            proof {
                assert(out@ =~= old(out)@ + scalar_text(v@));
            }
        },
        Scalar::Text(s) => {
            append_quoted(out, s.as_str());
            proof {
                assert(out@ =~= old(out)@ + scalar_text(v@));
            }
        },
    }
}

/// Append a string's characters as they are, with no quoting.
fn append_str(out: &mut Vec<char>, s: &str)
    ensures
        final(out)@ == old(out)@ + s@,
{
    let n = s.unicode_len();
    let mut i: usize = 0;
    while i < n
        invariant
            i <= n,
            n == s@.len(),
            out@ == old(out)@ + s@.subrange(0, i as int),
        decreases n - i,
    {
        out.push(s.get_char(i));
        proof {
            assert(old(out)@ + s@.subrange(0, i + 1 as int) =~= (old(out)@ + s@.subrange(
                0,
                i as int,
            )).push(s@[i as int]));
        }
        i = i + 1;
    }
    proof {
        assert(s@.subrange(0, s@.len() as int) =~= s@);
    }
}

/// Append the comma-separated members of a flat object.
fn append_members(out: &mut Vec<char>, ms: &Vec<(String, Scalar)>)
    ensures
        final(out)@ == old(out)@ + members_text(members_view(ms@)),
{
    let ghost view = members_view(ms@);
    let mut i: usize = 0;
    while i < ms.len()
        invariant
            i <= ms.len(),
            view == members_view(ms@),
            view.len() == ms@.len(),
            out@ == old(out)@ + members_text(view.subrange(0, i as int)),
        decreases ms.len() - i,
    {
        if i > 0 {
            out.push(',');
        }
        append_quoted(out, ms[i].0.as_str());
        out.push(':');
        append_scalar(out, &ms[i].1);
        proof {
            let cur = view.subrange(0, i + 1 as int);
            assert(cur.drop_last() =~= view.subrange(0, i as int));
            assert(cur.last() == view[i as int]);
            assert(view[i as int] == (ms@[i as int].0@, ms@[i as int].1@));
            assert(out@ =~= old(out)@ + members_text(cur));
        }
        i = i + 1;
    }
    proof {
        assert(view.subrange(0, view.len() as int) =~= view);
    }
}

/// Append the serialized text of a flat object.
pub fn append_object(out: &mut Vec<char>, o: &JsonObject)
    ensures
        final(out)@ == old(out)@ + object_text(o@),
{
    out.push('{');
    append_members(out, &o.members);
    out.push('}');
    proof {
        assert(out@ =~= old(out)@ + object_text(o@));
    }
}

/// Append the serialized text of a root field's value.
pub fn append_field_value(out: &mut Vec<char>, v: &FieldValue)
    ensures
        final(out)@ == old(out)@ + field_value_text(v@),
{
    match v {
        FieldValue::Scalar(s) => {
            append_scalar(out, s);
            proof {
                assert(out@ =~= old(out)@ + field_value_text(v@));
            }
        },
        FieldValue::Object(o) => {
            append_object(out, o);
            proof {
                assert(out@ =~= old(out)@ + field_value_text(v@));
            }
        },
        FieldValue::List(objs) => {
            let ghost view = objs_view(objs@);
            out.push('[');
            let mut i: usize = 0;
            while i < objs.len()
                invariant
                    i <= objs.len(),
                    view == objs_view(objs@),
                    view.len() == objs@.len(),
                    out@ == old(out)@ + seq!['['] + objects_text(view.subrange(0, i as int)),
                decreases objs.len() - i,
            {
                if i > 0 {
                    out.push(',');
                }
                append_object(out, &objs[i]);
                proof {
                    let cur = view.subrange(0, i + 1 as int);
                    assert(cur.drop_last() =~= view.subrange(0, i as int));
                    assert(cur.last() == view[i as int]);
                    assert(view[i as int] == objs@[i as int]@);
                    assert(out@ =~= old(out)@ + seq!['['] + objects_text(cur));
                }
                i = i + 1;
            }
            out.push(']');
            proof {
                assert(view.subrange(0, view.len() as int) =~= view);
                assert(out@ =~= old(out)@ + field_value_text(v@));
            }
        },
    }
}

/// Serialize a whole response value to its JSON text.
pub fn value_to_text(v: &Value) -> (out: Vec<char>)
    ensures
        out@ == value_text(v@),
{
    let ghost view = v@;
    let mut out: Vec<char> = Vec::new();
    out.push('{');
    let mut i: usize = 0;
    while i < v.fields.len()
        invariant
            i <= v.fields.len(),
            view == v@,
            view.len() == v.fields@.len(),
            out@ == seq!['{'] + response_members_text(view.subrange(0, i as int)),
        decreases v.fields.len() - i,
    {
        if i > 0 {
            out.push(',');
        }
        append_quoted(&mut out, v.fields[i].0.as_str());
        out.push(':');
        append_field_value(&mut out, &v.fields[i].1);
        proof {
            let cur = view.subrange(0, i + 1 as int);
            assert(cur.drop_last() =~= view.subrange(0, i as int));
            assert(cur.last() == view[i as int]);
            assert(view[i as int] == (v.fields@[i as int].0@, v.fields@[i as int].1@));
            assert(out@ =~= seq!['{'] + response_members_text(cur));
        }
        i = i + 1;
    }
    out.push('}');
    proof {
        assert(view.subrange(0, view.len() as int) =~= view);
        assert(out@ =~= value_text(v@));
    }
    out
}


/// `escape_text` read from the front: the first character's escape,
/// then the rest.
proof fn lemma_escape_text_front(s: Seq<char>)
    requires
        s.len() > 0,
    ensures
        escape_text(s) == escape_char(s[0]) + escape_text(s.drop_first()),
    decreases s.len(),
{
    if s.len() == 1 {
        assert(s.drop_last() =~= Seq::<char>::empty());
        assert(s.drop_first() =~= Seq::<char>::empty());
        assert(escape_text(s) =~= escape_char(s[0]) + escape_text(s.drop_first()));
    } else {
        let s0 = s.drop_last();
        lemma_escape_text_front(s0);
        assert(s0.drop_first() =~= s.drop_first().drop_last());
        assert(s.drop_first().last() == s.last());
        assert(escape_text(s) =~= escape_char(s[0]) + escape_text(s.drop_first()));
    }
}

/// A hexadecimal digit names its value.
proof fn lemma_hex_digit_val(d: int)
    requires
        0 <= d < 16,
    ensures
        crate::lex::hex_val(hex_digit(d)) == Some(d as u32),
{
}

/// Law: the two wire layers are inverse on string content — the body of a
/// serialized string literal, read back by the literal parser, yields
/// exactly the original text and ends just after the closing quote,
/// whatever follows it.
pub proof fn lemma_string_literal_round_trip(s: Seq<char>, t: Seq<char>, i: int)
    requires
        0 <= i,
        i + escape_text(s).len() + 1 <= t.len(),
        t.subrange(i, i + escape_text(s).len() + 1) == escape_text(s) + seq!['"'],
    ensures
        crate::lex::str_lit_from(t, i) == Some((s, i + escape_text(s).len() + 1)),
    decreases s.len(),
{
    let e = escape_text(s);
    let end = i + e.len() + 1;
    let big = t.subrange(i, end);
    if s.len() == 0 {
        assert(e =~= Seq::<char>::empty());
        assert(t[i] == big[0]);
        assert(t[i] == '"');
    } else {
        let c = s[0];
        let s1 = s.drop_first();
        let e1 = escape_text(s1);
        lemma_escape_text_front(s);
        let ec = escape_char(c);
        assert(e == ec + e1);
        assert forall|k: int| 0 <= k < ec.len() implies t[i + k] == ec[k] by {
            assert(big[k] == t[i + k]);
            assert((ec + e1 + seq!['"'])[k] == ec[k]);
            assert(big =~= ec + e1 + seq!['"']);
        }
        let j = i + ec.len();
        assert(t.subrange(j, j + e1.len() + 1) =~= e1 + seq!['"']) by {
            assert forall|k: int| 0 <= k < e1.len() + 1 implies t.subrange(j, j + e1.len() + 1)[k]
                == (e1 + seq!['"'])[k] by {
                assert(t.subrange(j, j + e1.len() + 1)[k] == t[j + k]);
                assert(t[j + k] == big[ec.len() + k]);
                assert(big =~= ec + e1 + seq!['"']);
                assert((ec + e1 + seq!['"'])[ec.len() + k] == (e1 + seq!['"'])[k]);
            }
        }
        lemma_string_literal_round_trip(s1, t, j);
        assert(seq![c] + s1 =~= s);
        if c == '"' || c == '\\' {
            assert(t[i] == '\\' && t[i + 1] == c);
        } else if c == '\n' {
            assert(t[i] == '\\' && t[i + 1] == 'n');
        } else if c == '\r' {
            assert(t[i] == '\\' && t[i + 1] == 'r');
        } else if c == '\t' {
            assert(t[i] == '\\' && t[i + 1] == 't');
        } else if (c as u32) < 0x20 {
            let u = c as u32;
            let hi = u as int / 16;
            let lo = u as int % 16;
            assert(t[i] == '\\' && t[i + 1] == 'u' && t[i + 2] == '0' && t[i + 3] == '0' && t[i
                + 4] == hex_digit(hi) && t[i + 5] == hex_digit(lo));
            lemma_hex_digit_val(hi);
            lemma_hex_digit_val(lo);
            assert(crate::lex::hex_val('0') == Some(0u32));
            assert(crate::lex::hex_quad(t, i + 2) == Some(
                ((0x10 * hi + lo) as u32),
            ));
            assert(0x10 * hi + lo == u);
            vstd::utf8::char_u32_cast(c, u);
            assert(crate::lex::unicode_escape(t, i + 2) == Some((c, i + 6)));
        } else {
            assert(t[i] == c);
        }
    }
}

} // verus!
