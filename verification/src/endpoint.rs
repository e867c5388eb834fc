//! The HTTP-facing edge of the service, as pure logic: the request
//! envelope type, the query-or-mutation resolution order, the response
//! body shaping (execution errors take precedence over the value), and
//! the status taxonomy — a body-read failure is a server error, a wrong
//! content type or an undecodable envelope is a client error, and every
//! evaluated operation answers 200 whatever its payload says.

use vstd::prelude::*;

use crate::db::DatabaseHandler;
use crate::envelope::{decode_envelope, envelope_from, opt_chars_view};
use crate::gql::operation_from;
use crate::graphql::{errs_view, eval_rel, ExecutionError, GraphQLHandler};
use crate::json::{
    append_object, objects_text, object_text, string_from_chars, str_to_chars, value_text,
    value_to_text, FieldV, JsonObject, Scalar, ScalarV,
};
use crate::lex::chars_eq_str;
use crate::models::opt_view;

verus! {

/// GraphQLRequest is the decoded request envelope: an optional query text
/// and an optional mutation text.
#[derive(Debug)]
pub struct GraphQLRequest {
    pub query: Option<String>,
    pub mutation: Option<String>,
}

/// An HTTP answer: a status code and a body.
#[derive(Debug)]
pub struct HttpResponse {
    pub status: u16,
    pub body: String,
}

/// The resolution order of the envelope: the query text if one is there,
/// else the mutation text, else nothing.
pub open spec fn fetched(q: Option<Seq<char>>, m: Option<Seq<char>>) -> Option<Seq<char>> {
    if q is Some {
        q
    } else if m is Some {
        m
    } else {
        None
    }
}

/// The operation text the engine receives: the fetched text, or the empty
/// text when the envelope named no operation (which the engine rejects).
pub open spec fn fetched_text(q: Option<Seq<char>>, m: Option<Seq<char>>) -> Seq<char> {
    match fetched(q, m) {
        Some(t) => t,
        None => Seq::<char>::empty(),
    }
}

impl GraphQLRequest {
    /// Resolve the envelope to the operation text to run: the query wins
    /// over the mutation; an empty envelope yields nothing.
    pub fn fetch(&self) -> (r: Option<String>)
        ensures
            opt_view(r) == fetched(opt_view(self.query), opt_view(self.mutation)),
    {
        match &self.query {
            Some(q) => Some(q.clone()),
            None => match &self.mutation {
                Some(m) => Some(m.clone()),
                None => None,
            },
        }
    }
}

/// The body answering an unparsable operation.
pub open spec fn schema_error_text() -> Seq<char> {
    object_text(seq![("message"@, ScalarV::Text("invalid operation syntax"@))])
}

/// Each execution error as a one-member wire object.
pub open spec fn error_objs(errs: Seq<Seq<char>>) -> Seq<Seq<(Seq<char>, ScalarV)>> {
    errs.map_values(|m: Seq<char>| seq![("message"@, ScalarV::Text(m))])
}

/// The body answering an operation with execution errors: the serialized
/// error list.
pub open spec fn errors_text(errs: Seq<Seq<char>>) -> Seq<char> {
    seq!['['] + objects_text(error_objs(errs)) + seq![']']
}

/// How the response body relates to the operation text and the store: an
/// unparsable operation answers with the schema error body and leaves the
/// store alone; otherwise the selections resolve, and the body serializes
/// the execution errors if there are any, else the value.
pub open spec fn handler_body_rel(
    q: Seq<char>,
    db0: DatabaseHandler,
    db1: DatabaseHandler,
    body: Seq<char>,
) -> bool {
    match operation_from(q) {
        None => db1 == db0 && body == schema_error_text(),
        Some(sels) => exists|fields: Seq<(Seq<char>, FieldV)>, errs: Seq<Seq<char>>|
            {
                &&& #[trigger] eval_rel(sels, db0, db1, fields, errs)
                &&& body == if errs.len() > 0 {
                    errors_text(errs)
                } else {
                    value_text(fields)
                }
            },
    }
}

/// Serialize the execution-error list.
fn errors_to_text(errs: &Vec<ExecutionError>) -> (out: Vec<char>)
    ensures
        out@ == errors_text(errs_view(errs@)),
{
    let ghost view = error_objs(errs_view(errs@));
    let mut out: Vec<char> = Vec::new();
    out.push('[');
    let mut i: usize = 0;
    while i < errs.len()
        invariant
            i <= errs.len(),
            view == error_objs(errs_view(errs@)),
            view.len() == errs@.len(),
            out@ == seq!['['] + objects_text(view.subrange(0, i as int)),
        decreases errs.len() - i,
    {
        if i > 0 {
            out.push(',');
        }
        let mut members: Vec<(String, Scalar)> = Vec::new();
        members.push((String::from_str("message"), Scalar::Text(errs[i].message.clone())));
        let o = JsonObject { members };
        proof {
            assert(o@ =~= seq![("message"@, ScalarV::Text(errs@[i as int].message@))]);
            assert(view[i as int] == seq![("message"@, ScalarV::Text(errs@[i as int].message@))]);
        }
        append_object(&mut out, &o);
        proof {
            let cur = view.subrange(0, i + 1 as int);
            assert(cur.drop_last() =~= view.subrange(0, i as int));
            assert(cur.last() == view[i as int]);
            assert(out@ =~= seq!['['] + objects_text(cur));
        }
        i = i + 1;
    }
    out.push(']');
    proof {
        assert(view.subrange(0, view.len() as int) =~= view);
        assert(out@ =~= errors_text(errs_view(errs@)));
    }
    out
}

/// Run the fetched operation and shape the response body: execution
/// errors first, then the value; an unparsable operation answers with the
/// schema error body.
pub fn graphql_handler(request: GraphQLRequest, conn: &mut DatabaseHandler) -> (r: String)
    ensures
        handler_body_rel(
            fetched_text(opt_view(request.query), opt_view(request.mutation)),
            *old(conn),
            *final(conn),
            r@,
        ),
{
    let query: String = match request.fetch() {
        Some(s) => s,
        None => String::new(),
    };
    match GraphQLHandler::execute(query.as_str(), conn) {
        Ok((val, errs)) => {
            if errs.len() > 0 {
                let out = errors_to_text(&errs);
                string_from_chars(&out)
            } else {
                let out = value_to_text(&val);
                string_from_chars(&out)
            }
        },
        Err(e) => {
            let mut members: Vec<(String, Scalar)> = Vec::new();
            members.push((String::from_str("message"), Scalar::Text(e.message)));
            let o = JsonObject { members };
            let mut out: Vec<char> = Vec::new();
            append_object(&mut out, &o);
            proof {
                assert(o@ =~= seq![("message"@, ScalarV::Text("invalid operation syntax"@))]);
            }
            string_from_chars(&out)
        },
    }
}

/// Answer one POST: a failed body read is 500; a content type other than
/// `application/json` is 400, checked before the body is decoded; an
/// undecodable envelope is 400; an evaluated operation is 200, with the
/// body `graphql_handler` shapes.
pub fn handle_post(content_type: &str, body: Option<&str>, conn: &mut DatabaseHandler) -> (r:
    HttpResponse)
    ensures
        body is None ==> {
            &&& r.status == 500
            &&& r.body@ == "could not read request body"@
            &&& *final(conn) == *old(conn)
        },
        body is Some && content_type@ != "application/json"@ ==> {
            &&& r.status == 400
            &&& r.body@ == "'JSON' only supported."@
            &&& *final(conn) == *old(conn)
        },
        body is Some && content_type@ == "application/json"@ && envelope_from(body->0@) is None
            ==> {
            &&& r.status == 400
            &&& r.body@ == "could not decode request body"@
            &&& *final(conn) == *old(conn)
        },
        body is Some && content_type@ == "application/json"@ && envelope_from(body->0@) is Some
            ==> {
            &&& r.status == 200
            &&& handler_body_rel(
                fetched_text(
                    (envelope_from(body->0@)->0).0,
                    (envelope_from(body->0@)->0).1,
                ),
                *old(conn),
                *final(conn),
                r.body@,
            )
        },
{
    let text = match body {
        None => {
            return HttpResponse {
                status: 500,
                body: String::from_str("could not read request body"),
            };
        },
        Some(t) => t,
    };
    let ct = str_to_chars(content_type);
    if !chars_eq_str(&ct, "application/json") {
        return HttpResponse { status: 400, body: String::from_str("'JSON' only supported.") };
    }
    let chars = str_to_chars(text);
    let (q, m) = match decode_envelope(&chars) {
        None => {
            return HttpResponse {
                status: 400,
                body: String::from_str("could not decode request body"),
            };
        },
        Some(p) => p,
    };
    let request = GraphQLRequest {
        query: match q {
            Some(v) => Some(string_from_chars(&v)),
            None => None,
        },
        mutation: match m {
            Some(v) => Some(string_from_chars(&v)),
            None => None,
        },
    };
    let out = graphql_handler(request, conn);
    HttpResponse { status: 200, body: out }
}

} // verus!
