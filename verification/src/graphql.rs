//! The schema and its evaluator: the query root fields (`apiVersion`,
//! `product`, `allProducts`, `country`, `allCountries`) and the mutation
//! root fields (`createProduct`, `createCountry`), dispatched by name
//! against the database handler, with the error policy of the service —
//! a failed single-entity lookup collapses to null, a failed collection
//! read or insert collapses to an empty list, an unknown field or a
//! mismatched argument list is reported in the execution-error list, and
//! only unparsable text is a schema-level error.
//!
//! A subselection picks the named entity fields, in the requested order;
//! a name that is not an entity field selects nothing.

use vstd::prelude::*;

use crate::db::{product_batch_ok, country_batch_ok, products_with_id, countries_with_key, DatabaseHandler};
use crate::gql::{args_view, names_view, operation_from, parse_operation, sels_view, sub_view, ArgV, ArgValue, SelV, Selection};
use crate::json::{fields_view, members_view, objs_view, FieldV, FieldValue, JsonObject, Scalar, ScalarV, Value};
use crate::models::{cinputs_view, opt_view, pinputs_view, Country, CountryInput, CountryV, Product, ProductInput, ProductInputV};
use crate::wire::{country_wire, product_wire};

verus! {

/// A field-level failure, reported alongside the partial result.
#[derive(Debug)]
pub struct ExecutionError {
    pub message: String,
}

/// A schema-level failure: the operation text could not be parsed.
#[derive(Debug)]
pub struct SchemaError {
    pub message: String,
}

/// GraphQLHandler evaluates an operation text against a database handler.
#[derive(Debug)]
pub struct GraphQLHandler;

/// The first wire member at or after `k` with the given name.
pub open spec fn wire_find(o: Seq<(Seq<char>, ScalarV)>, name: Seq<char>, k: int) -> Option<
    (Seq<char>, ScalarV),
>
    decreases o.len() - k,
{
    if !(0 <= k < o.len()) {
        None
    } else if o[k].0 == name {
        Some(o[k])
    } else {
        wire_find(o, name, k + 1)
    }
}

/// The members picked by the requested names, in requested order; a name
/// that matches no member picks nothing.
pub open spec fn proj_names(o: Seq<(Seq<char>, ScalarV)>, names: Seq<Seq<char>>) -> Seq<
    (Seq<char>, ScalarV),
>
    decreases names.len(),
{
    if names.len() == 0 {
        Seq::<(Seq<char>, ScalarV)>::empty()
    } else {
        proj_names(o, names.drop_last()) + match wire_find(o, names.last(), 0) {
            Some(m) => seq![m],
            None => Seq::<(Seq<char>, ScalarV)>::empty(),
        }
    }
}

/// A wire object as a subselection sees it: whole without a subselection,
/// projected onto the requested names with one.
pub open spec fn project(o: Seq<(Seq<char>, ScalarV)>, sub: Option<Seq<Seq<char>>>) -> Seq<
    (Seq<char>, ScalarV),
> {
    match sub {
        None => o,
        Some(names) => proj_names(o, names),
    }
}

/// Every product row as its (possibly projected) wire object.
pub open spec fn projected_product_rows(rows: Seq<Product>, sub: Option<Seq<Seq<char>>>) -> Seq<
    Seq<(Seq<char>, ScalarV)>,
> {
    rows.map_values(|p: Product| project(product_wire(p@), sub))
}

/// Every country row as its (possibly projected) wire object.
pub open spec fn projected_country_rows(rows: Seq<Country>, sub: Option<Seq<Seq<char>>>) -> Seq<
    Seq<(Seq<char>, ScalarV)>,
> {
    rows.map_values(|c: Country| project(country_wire(c@), sub))
}

/// The single text argument with the given name, if the argument list is
/// exactly that.
pub open spec fn one_text_arg(args: Seq<(Seq<char>, ArgV)>, name: Seq<char>) -> Option<Seq<char>> {
    if args.len() == 1 && args[0].0 == name && args[0].1 is Scalar && args[0].1->Scalar_0 is Text {
        Some(args[0].1->Scalar_0->Text_0)
    } else {
        None
    }
}

/// The single list argument with the given name, if the argument list is
/// exactly that.
pub open spec fn one_list_arg(args: Seq<(Seq<char>, ArgV)>, name: Seq<char>) -> Option<
    Seq<Seq<(Seq<char>, ScalarV)>>,
> {
    if args.len() == 1 && args[0].0 == name && args[0].1 is List {
        Some(args[0].1->List_0)
    } else {
        None
    }
}

/// Collapse a seen-or-not optional field: absent and null both mean none.
pub open spec fn flatten_opt(d: Option<Option<Seq<char>>>) -> Option<Seq<char>> {
    match d {
        Some(x) => x,
        None => None,
    }
}

/// Scan a product input object's members: `name` (text) and `price`
/// (number) are required, `description` and `country` may be text or null,
/// no member may repeat, and no other member may appear.
pub open spec fn pi_scan(
    o: Seq<(Seq<char>, ScalarV)>,
    k: int,
    n: Option<Seq<char>>,
    d: Option<Option<Seq<char>>>,
    p: Option<Seq<char>>,
    c: Option<Option<Seq<char>>>,
) -> Option<ProductInputV>
    decreases o.len() - k,
{
    if !(0 <= k < o.len()) {
        if n is Some && p is Some {
            Some(
                ProductInputV {
                    name: n->0,
                    description: flatten_opt(d),
                    price: p->0,
                    country: flatten_opt(c),
                },
            )
        } else {
            None
        }
    } else {
        let m = o[k];
        if m.0 == "name"@ {
            if n is Some {
                None
            } else {
                match m.1 {
                    ScalarV::Text(t) => pi_scan(o, k + 1, Some(t), d, p, c),
                    _ => None,
                }
            }
        } else if m.0 == "description"@ {
            if d is Some {
                None
            } else {
                match m.1 {
                    ScalarV::Text(t) => pi_scan(o, k + 1, n, Some(Some(t)), p, c),
                    ScalarV::Null => pi_scan(o, k + 1, n, Some(None), p, c),
                    _ => None,
                }
            }
        } else if m.0 == "price"@ {
            if p is Some {
                None
            } else {
                match m.1 {
                    ScalarV::Num(t) => pi_scan(o, k + 1, n, d, Some(t), c),
                    _ => None,
                }
            }
        } else if m.0 == "country"@ {
            if c is Some {
                None
            } else {
                match m.1 {
                    ScalarV::Text(t) => pi_scan(o, k + 1, n, d, p, Some(Some(t))),
                    ScalarV::Null => pi_scan(o, k + 1, n, d, p, Some(None)),
                    _ => None,
                }
            }
        } else {
            None
        }
    }
}

/// The product input named by an argument object, if it has that shape.
pub open spec fn product_input_of(o: Seq<(Seq<char>, ScalarV)>) -> Option<ProductInputV> {
    pi_scan(o, 0, None, None, None, None)
}

/// Scan a country input object's members: `fullName`, `continent` and
/// `shortName`, all required text, no repeats, nothing else.
pub open spec fn ci_scan(
    o: Seq<(Seq<char>, ScalarV)>,
    k: int,
    f: Option<Seq<char>>,
    t: Option<Seq<char>>,
    s: Option<Seq<char>>,
) -> Option<CountryV>
    decreases o.len() - k,
{
    if !(0 <= k < o.len()) {
        if f is Some && t is Some && s is Some {
            Some(CountryV { full_name: f->0, continent: t->0, short_name: s->0 })
        } else {
            None
        }
    } else {
        let m = o[k];
        if m.0 == "fullName"@ {
            if f is Some {
                None
            } else {
                match m.1 {
                    ScalarV::Text(x) => ci_scan(o, k + 1, Some(x), t, s),
                    _ => None,
                }
            }
        } else if m.0 == "continent"@ {
            if t is Some {
                None
            } else {
                match m.1 {
                    ScalarV::Text(x) => ci_scan(o, k + 1, f, Some(x), s),
                    _ => None,
                }
            }
        } else if m.0 == "shortName"@ {
            if s is Some {
                None
            } else {
                match m.1 {
                    ScalarV::Text(x) => ci_scan(o, k + 1, f, t, Some(x)),
                    _ => None,
                }
            }
        } else {
            None
        }
    }
}

/// The country input named by an argument object, if it has that shape.
pub open spec fn country_input_of(o: Seq<(Seq<char>, ScalarV)>) -> Option<CountryV> {
    ci_scan(o, 0, None, None, None)
}

/// Decode every object of a list of product inputs, or nothing if any
/// object fails.
pub open spec fn product_inputs_of(os: Seq<Seq<(Seq<char>, ScalarV)>>) -> Option<
    Seq<ProductInputV>,
>
    decreases os.len(),
{
    if os.len() == 0 {
        Some(Seq::<ProductInputV>::empty())
    } else {
        match (product_inputs_of(os.drop_last()), product_input_of(os.last())) {
            (Some(r), Some(x)) => Some(r.push(x)),
            _ => None,
        }
    }
}

/// Decode every object of a list of country inputs, or nothing if any
/// object fails.
pub open spec fn country_inputs_of(os: Seq<Seq<(Seq<char>, ScalarV)>>) -> Option<Seq<CountryV>>
    decreases os.len(),
{
    if os.len() == 0 {
        Some(Seq::<CountryV>::empty())
    } else {
        match (country_inputs_of(os.drop_last()), country_input_of(os.last())) {
            (Some(r), Some(x)) => Some(r.push(x)),
            _ => None,
        }
    }
}

/// The rows a product batch conversion yields: field for field from the
/// inputs, with a fresh 36-character identifier each.
pub open spec fn products_converted(ins: Seq<ProductInputV>, ps: Seq<Product>) -> bool {
    &&& ps.len() == ins.len()
    &&& forall|i: int|
        0 <= i < ins.len() ==> {
            &&& (#[trigger] ps[i])@.id.len() == 36
            &&& ps[i]@.name == ins[i].name
            &&& ps[i]@.price == ins[i].price
            &&& ps[i]@.description == ins[i].description
            &&& ps[i]@.country == ins[i].country
        }
}

/// The rows a country batch conversion yields: exactly the inputs.
pub open spec fn countries_converted(ins: Seq<CountryV>, cs: Seq<Country>) -> bool {
    &&& cs.len() == ins.len()
    &&& forall|i: int| 0 <= i < ins.len() ==> (#[trigger] cs[i])@ == ins[i]
}

/// What a single-product lookup field resolves to: the (projected) row
/// when exactly one row carries the key, and null otherwise — a missing
/// row and a duplicated key alike collapse to absence.
pub open spec fn product_field(db: DatabaseHandler, id: Seq<char>, sub: Option<Seq<Seq<char>>>) -> FieldV {
    let ms = products_with_id(db.products@, id);
    if ms.len() == 1 {
        FieldV::Object(project(product_wire(ms[0]@), sub))
    } else {
        FieldV::Scalar(ScalarV::Null)
    }
}

/// What a single-country lookup field resolves to.
pub open spec fn country_field(db: DatabaseHandler, key: Seq<char>, sub: Option<Seq<Seq<char>>>) -> FieldV {
    let ms = countries_with_key(db.countries@, key);
    if ms.len() == 1 {
        FieldV::Object(project(country_wire(ms[0]@), sub))
    } else {
        FieldV::Scalar(ScalarV::Null)
    }
}

/// A selection whose arguments do not fit its field: the store is
/// untouched, no member is produced, and one execution error names the
/// field.
pub open spec fn sel_mismatch(sel: SelV, db0: DatabaseHandler, db1: DatabaseHandler, out: Option<
    (Seq<char>, FieldV),
>, err: Option<Seq<char>>) -> bool {
    &&& db1 == db0
    &&& out is None
    &&& err == Some("invalid arguments: "@ + sel.name)
}

/// The creation of a product batch: some conversion of the decoded inputs
/// is inserted; on a key collision the store is untouched and the field is
/// an empty list, otherwise the field is the full post-insert table.
pub open spec fn create_products_rel(
    ins: Seq<ProductInputV>,
    sub: Option<Seq<Seq<char>>>,
    name: Seq<char>,
    db0: DatabaseHandler,
    db1: DatabaseHandler,
    out: Option<(Seq<char>, FieldV)>,
) -> bool {
    exists|ps: Seq<Product>|
        {
            &&& #[trigger] products_converted(ins, ps)
            &&& if product_batch_ok(db0.products@, ps) {
                &&& db1.products@ == db0.products@ + ps
                &&& db1.countries@ == db0.countries@
                &&& out == Some((name, FieldV::List(projected_product_rows(db1.products@, sub))))
            } else {
                &&& db1 == db0
                &&& out == Some(
                    (name, FieldV::List(Seq::<Seq<(Seq<char>, ScalarV)>>::empty())),
                )
            }
        }
}

/// The creation of a country batch, analogously; the conversion is exact.
pub open spec fn create_countries_rel(
    ins: Seq<CountryV>,
    sub: Option<Seq<Seq<char>>>,
    name: Seq<char>,
    db0: DatabaseHandler,
    db1: DatabaseHandler,
    out: Option<(Seq<char>, FieldV)>,
) -> bool {
    exists|cs: Seq<Country>|
        {
            &&& #[trigger] countries_converted(ins, cs)
            &&& if country_batch_ok(db0.countries@, cs) {
                &&& db1.countries@ == db0.countries@ + cs
                &&& db1.products@ == db0.products@
                &&& out == Some((name, FieldV::List(projected_country_rows(db1.countries@, sub))))
            } else {
                &&& db1 == db0
                &&& out == Some(
                    (name, FieldV::List(Seq::<Seq<(Seq<char>, ScalarV)>>::empty())),
                )
            }
        }
}

/// How one selection resolves: the store before and after, the produced
/// member if any, and the recorded execution error if any.
pub open spec fn sel_rel(sel: SelV, db0: DatabaseHandler, db1: DatabaseHandler, out: Option<
    (Seq<char>, FieldV),
>, err: Option<Seq<char>>) -> bool {
    if sel.name == "apiVersion"@ {
        if sel.args.len() == 0 && sel.sub is None {
            &&& db1 == db0
            &&& out == Some((sel.name, FieldV::Scalar(ScalarV::Text("0.1"@))))
            &&& err is None
        } else {
            sel_mismatch(sel, db0, db1, out, err)
        }
    } else if sel.name == "product"@ {
        match one_text_arg(sel.args, "id"@) {
            Some(id) => {
                &&& db1 == db0
                &&& out == Some((sel.name, product_field(db0, id, sel.sub)))
                &&& err is None
            },
            None => sel_mismatch(sel, db0, db1, out, err),
        }
    } else if sel.name == "allProducts"@ {
        if sel.args.len() == 0 {
            &&& db1 == db0
            &&& out == Some(
                (sel.name, FieldV::List(projected_product_rows(db0.products@, sel.sub))),
            )
            &&& err is None
        } else {
            sel_mismatch(sel, db0, db1, out, err)
        }
    } else if sel.name == "country"@ {
        match one_text_arg(sel.args, "fullName"@) {
            Some(key) => {
                &&& db1 == db0
                &&& out == Some((sel.name, country_field(db0, key, sel.sub)))
                &&& err is None
            },
            None => sel_mismatch(sel, db0, db1, out, err),
        }
    } else if sel.name == "allCountries"@ {
        if sel.args.len() == 0 {
            &&& db1 == db0
            &&& out == Some(
                (sel.name, FieldV::List(projected_country_rows(db0.countries@, sel.sub))),
            )
            &&& err is None
        } else {
            sel_mismatch(sel, db0, db1, out, err)
        }
    } else if sel.name == "createProduct"@ {
        match one_list_arg(sel.args, "products"@) {
            Some(objs) => match product_inputs_of(objs) {
                Some(ins) => {
                    &&& create_products_rel(ins, sel.sub, sel.name, db0, db1, out)
                    &&& err is None
                },
                None => sel_mismatch(sel, db0, db1, out, err),
            },
            None => sel_mismatch(sel, db0, db1, out, err),
        }
    } else if sel.name == "createCountry"@ {
        match one_list_arg(sel.args, "countries"@) {
            Some(objs) => match country_inputs_of(objs) {
                Some(ins) => {
                    &&& create_countries_rel(ins, sel.sub, sel.name, db0, db1, out)
                    &&& err is None
                },
                None => sel_mismatch(sel, db0, db1, out, err),
            },
            None => sel_mismatch(sel, db0, db1, out, err),
        }
    } else {
        &&& db1 == db0
        &&& out is None
        &&& err == Some("unknown field: "@ + sel.name)
    }
}

/// Prepend an optional response member.
pub open spec fn opt_prepend_f(o: Option<(Seq<char>, FieldV)>, rest: Seq<(Seq<char>, FieldV)>) -> Seq<
    (Seq<char>, FieldV),
> {
    match o {
        Some(m) => seq![m] + rest,
        None => rest,
    }
}

/// Prepend an optional error message.
pub open spec fn opt_prepend_e(o: Option<Seq<char>>, rest: Seq<Seq<char>>) -> Seq<Seq<char>> {
    match o {
        Some(m) => seq![m] + rest,
        None => rest,
    }
}

/// The produced member, if any, stands first in the member list.
pub open spec fn head_f(out: Option<(Seq<char>, FieldV)>, fields: Seq<(Seq<char>, FieldV)>) -> bool {
    match out {
        Some(m) => fields.len() > 0 && fields[0] == m,
        None => true,
    }
}

/// The member list without the produced member, if one was produced.
pub open spec fn tail_f(out: Option<(Seq<char>, FieldV)>, fields: Seq<(Seq<char>, FieldV)>) -> Seq<
    (Seq<char>, FieldV),
> {
    match out {
        Some(m) => fields.drop_first(),
        None => fields,
    }
}

/// The recorded error, if any, stands first in the error list.
pub open spec fn head_e(err: Option<Seq<char>>, errs: Seq<Seq<char>>) -> bool {
    match err {
        Some(m) => errs.len() > 0 && errs[0] == m,
        None => true,
    }
}

/// The error list without the recorded error, if one was recorded.
pub open spec fn tail_e(err: Option<Seq<char>>, errs: Seq<Seq<char>>) -> Seq<Seq<char>> {
    match err {
        Some(m) => errs.drop_first(),
        None => errs,
    }
}

/// How a whole selection list resolves: the selections resolve one after
/// the other, each from the store the previous one left, and each produced
/// member and recorded error goes to the front of what the rest produce.
pub open spec fn eval_rel(
    sels: Seq<SelV>,
    db0: DatabaseHandler,
    db1: DatabaseHandler,
    fields: Seq<(Seq<char>, FieldV)>,
    errs: Seq<Seq<char>>,
) -> bool
    decreases sels.len(),
{
    if sels.len() == 0 {
        &&& db1 == db0
        &&& fields.len() == 0
        &&& errs.len() == 0
    } else {
        exists|dbm: DatabaseHandler, out: Option<(Seq<char>, FieldV)>, err: Option<Seq<char>>|
            {
                &&& #[trigger] sel_rel(sels[0], db0, dbm, out, err)
                &&& head_f(out, fields)
                &&& head_e(err, errs)
                &&& eval_rel(sels.drop_first(), dbm, db1, tail_f(out, fields), tail_e(err, errs))
            }
    }
}

/// One resolved selection in front of a resolved rest makes a resolved
/// whole.
proof fn eval_rel_intro(
    first: SelV,
    rest: Seq<SelV>,
    db0: DatabaseHandler,
    dbm: DatabaseHandler,
    db1: DatabaseHandler,
    out: Option<(Seq<char>, FieldV)>,
    err: Option<Seq<char>>,
    fr: Seq<(Seq<char>, FieldV)>,
    er: Seq<Seq<char>>,
)
    requires
        sel_rel(first, db0, dbm, out, err),
        eval_rel(rest, dbm, db1, fr, er),
    ensures
        eval_rel(seq![first] + rest, db0, db1, opt_prepend_f(out, fr), opt_prepend_e(err, er)),
{
    let sels = seq![first] + rest;
    let fields = opt_prepend_f(out, fr);
    let errs = opt_prepend_e(err, er);
    assert(sels[0] == first);
    assert(sels.drop_first() =~= rest);
    assert(sel_rel(sels[0], db0, dbm, out, err));
    assert(head_f(out, fields));
    assert(head_e(err, errs));
    assert(tail_f(out, fields) =~= fr);
    assert(tail_e(err, errs) =~= er);
    assert(eval_rel(sels.drop_first(), dbm, db1, tail_f(out, fields), tail_e(err, errs)));
}

/// One resolved selection preserves the store's key discipline: a read
/// leaves the store alone, and a successful insert only appends a batch
/// whose keys are admissible.
proof fn lemma_sel_preserves_unique_keys(
    sel: SelV,
    db0: DatabaseHandler,
    db1: DatabaseHandler,
    out: Option<(Seq<char>, FieldV)>,
    err: Option<Seq<char>>,
)
    requires
        sel_rel(sel, db0, db1, out, err),
        crate::db::product_keys_unique(db0.products@),
        crate::db::country_keys_unique(db0.countries@),
    ensures
        crate::db::product_keys_unique(db1.products@),
        crate::db::country_keys_unique(db1.countries@),
{
    if sel.name == "createProduct"@ {
        match one_list_arg(sel.args, "products"@) {
            Some(objs) => match product_inputs_of(objs) {
                Some(ins) => {
                    let ps = choose|ps: Seq<Product>|
                        {
                            &&& #[trigger] products_converted(ins, ps)
                            &&& if product_batch_ok(db0.products@, ps) {
                                &&& db1.products@ == db0.products@ + ps
                                &&& db1.countries@ == db0.countries@
                                &&& out == Some(
                                    (
                                        sel.name,
                                        FieldV::List(
                                            projected_product_rows(db1.products@, sel.sub),
                                        ),
                                    ),
                                )
                            } else {
                                &&& db1 == db0
                                &&& out == Some(
                                    (
                                        sel.name,
                                        FieldV::List(Seq::<Seq<(Seq<char>, ScalarV)>>::empty()),
                                    ),
                                )
                            }
                        };
                    if product_batch_ok(db0.products@, ps) {
                        crate::db::lemma_product_insert_is_exact(db0.products@, ps);
                    }
                },
                None => {},
            },
            None => {},
        }
    } else if sel.name == "createCountry"@ {
        match one_list_arg(sel.args, "countries"@) {
            Some(objs) => match country_inputs_of(objs) {
                Some(ins) => {
                    let cs = choose|cs: Seq<Country>|
                        {
                            &&& #[trigger] countries_converted(ins, cs)
                            &&& if country_batch_ok(db0.countries@, cs) {
                                &&& db1.countries@ == db0.countries@ + cs
                                &&& db1.products@ == db0.products@
                                &&& out == Some(
                                    (
                                        sel.name,
                                        FieldV::List(
                                            projected_country_rows(db1.countries@, sel.sub),
                                        ),
                                    ),
                                )
                            } else {
                                &&& db1 == db0
                                &&& out == Some(
                                    (
                                        sel.name,
                                        FieldV::List(Seq::<Seq<(Seq<char>, ScalarV)>>::empty()),
                                    ),
                                )
                            }
                        };
                    if country_batch_ok(db0.countries@, cs) {
                        crate::db::lemma_country_insert_is_exact(db0.countries@, cs);
                    }
                },
                None => {},
            },
            None => {},
        }
    }
}

/// Law: every state of the store keeps its key discipline — whatever
/// operation resolves, if every product key and every country key was
/// unique before, both stay unique after.
pub proof fn lemma_eval_preserves_unique_keys(
    sels: Seq<SelV>,
    db0: DatabaseHandler,
    db1: DatabaseHandler,
    fields: Seq<(Seq<char>, FieldV)>,
    errs: Seq<Seq<char>>,
)
    requires
        eval_rel(sels, db0, db1, fields, errs),
        crate::db::product_keys_unique(db0.products@),
        crate::db::country_keys_unique(db0.countries@),
    ensures
        crate::db::product_keys_unique(db1.products@),
        crate::db::country_keys_unique(db1.countries@),
    decreases sels.len(),
{
    if sels.len() > 0 {
        let (dbm, out, err) = choose|dbm: DatabaseHandler, out: Option<(Seq<char>, FieldV)>, err: Option<Seq<char>>|
            {
                &&& #[trigger] sel_rel(sels[0], db0, dbm, out, err)
                &&& head_f(out, fields)
                &&& head_e(err, errs)
                &&& eval_rel(sels.drop_first(), dbm, db1, tail_f(out, fields), tail_e(err, errs))
            };
        lemma_sel_preserves_unique_keys(sels[0], db0, dbm, out, err);
        lemma_eval_preserves_unique_keys(
            sels.drop_first(),
            dbm,
            db1,
            tail_f(out, fields),
            tail_e(err, errs),
        );
    }
}

/// The view of a produced member.
pub open spec fn out_view(o: Option<(String, FieldValue)>) -> Option<(Seq<char>, FieldV)> {
    match o {
        Some(m) => Some((m.0@, m.1@)),
        None => None,
    }
}

/// The view of a recorded error.
pub open spec fn err_view(o: Option<ExecutionError>) -> Option<Seq<char>> {
    match o {
        Some(e) => Some(e.message@),
        None => None,
    }
}

/// The messages of an error list.
pub open spec fn errs_view(es: Seq<ExecutionError>) -> Seq<Seq<char>> {
    es.map_values(|e: ExecutionError| e.message@)
}

impl GraphQLHandler {
    /// Evaluate an operation text against the handler: unparsable text is a
    /// schema error and leaves the store untouched; otherwise the
    /// selections resolve in order, producing the response value and the
    /// execution-error list.
    pub fn execute(query: &str, conn: &mut DatabaseHandler) -> (r: Result<
        (Value, Vec<ExecutionError>),
        SchemaError,
    >)
        ensures
            operation_from(query@) is None ==> {
                &&& r is Err
                &&& *final(conn) == *old(conn)
                &&& r->Err_0.message@ == "invalid operation syntax"@
            },
            operation_from(query@) is Some ==> {
                &&& r is Ok
                &&& eval_rel(
                    operation_from(query@)->0,
                    *old(conn),
                    *final(conn),
                    r->Ok_0.0@,
                    errs_view(r->Ok_0.1@),
                )
            },
    {
        let cs = crate::json::str_to_chars(query);
        match parse_operation(&cs) {
            None => Err(SchemaError { message: String::from_str("invalid operation syntax") }),
            Some(sels) => {
                let (fields, errs) = eval_selections(conn, &sels, 0);
                proof {
                    assert(sels_view(sels@).skip(0) =~= sels_view(sels@));
                }
                let v = Value { fields };
                Ok((v, errs))
            },
        }
    }
}

/// Resolve the selections from `k` on, in order.
fn eval_selections(db: &mut DatabaseHandler, sels: &Vec<Selection>, k: usize) -> (r: (
    Vec<(String, FieldValue)>,
    Vec<ExecutionError>,
))
    requires
        k <= sels.len(),
    ensures
        eval_rel(
            sels_view(sels@).skip(k as int),
            *old(db),
            *final(db),
            fields_view(r.0@),
            errs_view(r.1@),
        ),
    decreases sels.len() - k,
{
    if k == sels.len() {
        let fields: Vec<(String, FieldValue)> = Vec::new();
        let errs: Vec<ExecutionError> = Vec::new();
        proof {
            assert(sels_view(sels@).skip(k as int).len() == 0);
            assert(fields_view(fields@).len() == 0);
            assert(errs_view(errs@).len() == 0);
        }
        (fields, errs)
    } else {
        let (out, err) = eval_one(db, &sels[k]);
        let ghost db_mid = *db;
        let (mut fields, mut errs) = eval_selections(db, sels, k + 1);
        let ghost fr = fields_view(fields@);
        let ghost er = errs_view(errs@);
        let ghost out_v = out_view(out);
        let ghost err_v = err_view(err);
        match out {
            Some(m) => {
                let ghost prev = fields@;
                fields.insert(0, m);
                proof {
                    assert(fields@ =~= seq![fields@[0]] + prev);
                    assert(fields_view(fields@) =~= seq![(fields@[0].0@, fields@[0].1@)]
                        + fields_view(prev));
                }
            },
            None => (),
        }
        match err {
            Some(e) => {
                let ghost prev = errs@;
                errs.insert(0, e);
                proof {
                    assert(errs@ =~= seq![errs@[0]] + prev);
                    assert(errs_view(errs@) =~= seq![errs@[0].message@] + errs_view(prev));
                }
            },
            None => (),
        }
        proof {
            let all = sels_view(sels@);
            assert(seq![all[k as int]] + all.skip(k + 1 as int) =~= all.skip(k as int));
            eval_rel_intro(
                all[k as int],
                all.skip(k + 1 as int),
                *old(db),
                db_mid,
                *final(db),
                out_v,
                err_v,
                fr,
                er,
            );
            assert(fields_view(fields@) =~= opt_prepend_f(out_v, fr));
            assert(errs_view(errs@) =~= opt_prepend_e(err_v, er));
        }
        (fields, errs)
    }
}

/// Build the error message for a field.
fn field_msg(prefix: &str, name: &String) -> (m: String)
    ensures
        m@ == prefix@ + name@,
{
    let mut s = prefix.to_owned();
    s.append(name.as_str());
    s
}

/// The mismatch outcome for a selection.
fn mismatch_outcome(sel: &Selection) -> (r: (Option<(String, FieldValue)>, Option<ExecutionError>))
    ensures
        out_view(r.0) is None,
        err_view(r.1) == Some("invalid arguments: "@ + sel.name@),
{
    (None, Some(ExecutionError { message: field_msg("invalid arguments: ", &sel.name) }))
}

/// Resolve one selection against the handler.
fn eval_one(db: &mut DatabaseHandler, sel: &Selection) -> (r: (
    Option<(String, FieldValue)>,
    Option<ExecutionError>,
))
    ensures
        sel_rel(sel@, *old(db), *final(db), out_view(r.0), err_view(r.1)),
{
    if sel.name.eq(&String::from_str("apiVersion")) {
        if sel.args.len() == 0 && sel.sub.is_none() {
            (
                Some(
                    (
                        sel.name.clone(),
                        FieldValue::Scalar(Scalar::Text(String::from_str("0.1"))),
                    ),
                ),
                None,
            )
        } else {
            mismatch_outcome(sel)
        }
    } else if sel.name.eq(&String::from_str("product")) {
        match get_one_text_arg(&sel.args, "id") {
            Some(id) => {
                let fv = match db.get_product_by_id(&id) {
                    Ok(p) => {
                        let o = p.to_json();
                        FieldValue::Object(project_obj(&o, &sel.sub))
                    },
                    Err(_) => FieldValue::Scalar(Scalar::Null),
                };
                (Some((sel.name.clone(), fv)), None)
            },
            None => mismatch_outcome(sel),
        }
    } else if sel.name.eq(&String::from_str("allProducts")) {
        if sel.args.len() == 0 {
            let rows = match db.get_products() {
                Ok(rows) => rows,
                Err(_) => Vec::new(),
            };
            let objs = project_product_rows(&rows, &sel.sub);
            (Some((sel.name.clone(), FieldValue::List(objs))), None)
        } else {
            mismatch_outcome(sel)
        }
    } else if sel.name.eq(&String::from_str("country")) {
        match get_one_text_arg(&sel.args, "fullName") {
            Some(key) => {
                let fv = match db.get_country_by_id(&key) {
                    Ok(c) => {
                        let o = c.to_json();
                        FieldValue::Object(project_obj(&o, &sel.sub))
                    },
                    Err(_) => FieldValue::Scalar(Scalar::Null),
                };
                (Some((sel.name.clone(), fv)), None)
            },
            None => mismatch_outcome(sel),
        }
    } else if sel.name.eq(&String::from_str("allCountries")) {
        if sel.args.len() == 0 {
            let rows = match db.get_countries() {
                Ok(rows) => rows,
                Err(_) => Vec::new(),
            };
            let objs = project_country_rows(&rows, &sel.sub);
            (Some((sel.name.clone(), FieldValue::List(objs))), None)
        } else {
            mismatch_outcome(sel)
        }
    } else if sel.name.eq(&String::from_str("createProduct")) {
        match get_list_arg(&sel.args, "products") {
            Some(objs) => {
                match decode_product_inputs(objs) {
                    Some(ins) => {
                        let ps = convert_products(&ins);
                        let fv = match db.insert_product(&ps) {
                            Ok(rows) => FieldValue::List(project_product_rows(&rows, &sel.sub)),
                            Err(_) => {
                                let none_inserted: Vec<JsonObject> = Vec::new();
                                proof {
                                    assert(objs_view(none_inserted@) =~= Seq::<
                                        Seq<(Seq<char>, ScalarV)>,
                                    >::empty());
                                }
                                FieldValue::List(none_inserted)
                            },
                        };
                        proof {
                            assert(products_converted(pinputs_view(ins@), ps@));
                        }
                        (Some((sel.name.clone(), fv)), None)
                    },
                    None => mismatch_outcome(sel),
                }
            },
            None => mismatch_outcome(sel),
        }
    } else if sel.name.eq(&String::from_str("createCountry")) {
        match get_list_arg(&sel.args, "countries") {
            Some(objs) => {
                match decode_country_inputs(objs) {
                    Some(ins) => {
                        let cs = convert_countries(&ins);
                        let fv = match db.insert_country(&cs) {
                            Ok(rows) => FieldValue::List(project_country_rows(&rows, &sel.sub)),
                            Err(_) => {
                                let none_inserted: Vec<JsonObject> = Vec::new();
                                proof {
                                    assert(objs_view(none_inserted@) =~= Seq::<
                                        Seq<(Seq<char>, ScalarV)>,
                                    >::empty());
                                }
                                FieldValue::List(none_inserted)
                            },
                        };
                        proof {
                            assert(countries_converted(cinputs_view(ins@), cs@));
                        }
                        (Some((sel.name.clone(), fv)), None)
                    },
                    None => mismatch_outcome(sel),
                }
            },
            None => mismatch_outcome(sel),
        }
    } else {
        (None, Some(ExecutionError { message: field_msg("unknown field: ", &sel.name) }))
    }
}

/// Extract the single text argument with the given name.
fn get_one_text_arg(args: &Vec<(String, ArgValue)>, name: &str) -> (r: Option<String>)
    ensures
        match r {
            Some(s) => one_text_arg(args_view(args@), name@) == Some(s@),
            None => one_text_arg(args_view(args@), name@) is None,
        },
{
    if args.len() == 1 {
        if args[0].0.eq(&String::from_str(name)) {
            match &args[0].1 {
                ArgValue::Scalar(sc) => match sc {
                    Scalar::Text(t) => Some(t.clone()),
                    _ => None,
                },
                _ => None,
            }
        } else {
            None
        }
    } else {
        None
    }
}

/// Extract the single list argument with the given name.
fn get_list_arg<'a>(args: &'a Vec<(String, ArgValue)>, name: &str) -> (r: Option<
    &'a Vec<JsonObject>,
>)
    ensures
        match r {
            Some(os) => one_list_arg(args_view(args@), name@) == Some(
                objs_view(os@),
            ),
            None => one_list_arg(args_view(args@), name@) is None,
        },
{
    if args.len() == 1 {
        if args[0].0.eq(&String::from_str(name)) {
            match &args[0].1 {
                ArgValue::List(os) => Some(os),
                _ => None,
            }
        } else {
            None
        }
    } else {
        None
    }
}

/// The view of a twice-optional string.
pub open spec fn opt2_view(o: Option<Option<String>>) -> Option<Option<Seq<char>>> {
    match o {
        Some(x) => Some(opt_view(x)),
        None => None,
    }
}

/// Scan a product input object, executably.
fn pi_step(
    o: &JsonObject,
    k: usize,
    n: Option<String>,
    d: Option<Option<String>>,
    p: Option<String>,
    c: Option<Option<String>>,
) -> (r: Option<ProductInput>)
    requires
        k <= o.members.len(),
    ensures
        match r {
            Some(x) => pi_scan(
                o@,
                k as int,
                opt_view(n),
                opt2_view(d),
                opt_view(p),
                opt2_view(c),
            ) == Some(x@),
            None => pi_scan(
                o@,
                k as int,
                opt_view(n),
                opt2_view(d),
                opt_view(p),
                opt2_view(c),
            ) is None,
        },
    decreases o.members.len() - k,
{
    if k == o.members.len() {
        if n.is_some() && p.is_some() {
            let x = ProductInput {
                name: n.unwrap(),
                description: match d {
                    Some(y) => y,
                    None => None,
                },
                price: p.unwrap(),
                country: match c {
                    Some(y) => y,
                    None => None,
                },
            };
            Some(x)
        } else {
            None
        }
    } else {
        if o.members[k].0.eq(&String::from_str("name")) {
            if n.is_some() {
                None
            } else {
                match &o.members[k].1 {
                    Scalar::Text(t) => pi_step(o, k + 1, Some(t.clone()), d, p, c),
                    _ => None,
                }
            }
        } else if o.members[k].0.eq(&String::from_str("description")) {
            if d.is_some() {
                None
            } else {
                match &o.members[k].1 {
                    Scalar::Text(t) => pi_step(o, k + 1, n, Some(Some(t.clone())), p, c),
                    Scalar::Null => pi_step(o, k + 1, n, Some(None), p, c),
                    _ => None,
                }
            }
        } else if o.members[k].0.eq(&String::from_str("price")) {
            if p.is_some() {
                None
            } else {
                match &o.members[k].1 {
                    Scalar::Num(t) => pi_step(o, k + 1, n, d, Some(t.clone()), c),
                    _ => None,
                }
            }
        } else if o.members[k].0.eq(&String::from_str("country")) {
            if c.is_some() {
                None
            } else {
                match &o.members[k].1 {
                    Scalar::Text(t) => pi_step(o, k + 1, n, d, p, Some(Some(t.clone()))),
                    Scalar::Null => pi_step(o, k + 1, n, d, p, Some(None)),
                    _ => None,
                }
            }
        } else {
            None
        }
    }
}

/// Scan a country input object, executably.
fn ci_step(o: &JsonObject, k: usize, f: Option<String>, t: Option<String>, s: Option<String>) -> (r:
    Option<CountryInput>)
    requires
        k <= o.members.len(),
    ensures
        match r {
            Some(x) => ci_scan(
                o@,
                k as int,
                opt_view(f),
                opt_view(t),
                opt_view(s),
            ) == Some(x@),
            None => ci_scan(
                o@,
                k as int,
                opt_view(f),
                opt_view(t),
                opt_view(s),
            ) is None,
        },
    decreases o.members.len() - k,
{
    if k == o.members.len() {
        if f.is_some() && t.is_some() && s.is_some() {
            Some(
                CountryInput {
                    full_name: f.unwrap(),
                    continent: t.unwrap(),
                    short_name: s.unwrap(),
                },
            )
        } else {
            None
        }
    } else {
        if o.members[k].0.eq(&String::from_str("fullName")) {
            if f.is_some() {
                None
            } else {
                match &o.members[k].1 {
                    Scalar::Text(x) => ci_step(o, k + 1, Some(x.clone()), t, s),
                    _ => None,
                }
            }
        } else if o.members[k].0.eq(&String::from_str("continent")) {
            if t.is_some() {
                None
            } else {
                match &o.members[k].1 {
                    Scalar::Text(x) => ci_step(o, k + 1, f, Some(x.clone()), s),
                    _ => None,
                }
            }
        } else if o.members[k].0.eq(&String::from_str("shortName")) {
            if s.is_some() {
                None
            } else {
                match &o.members[k].1 {
                    Scalar::Text(x) => ci_step(o, k + 1, f, t, Some(x.clone())),
                    _ => None,
                }
            }
        } else {
            None
        }
    }
}

/// Decode a list of product input objects.
fn decode_product_inputs(objs: &Vec<JsonObject>) -> (r: Option<Vec<ProductInput>>)
    ensures
        match r {
            Some(ins) => product_inputs_of(objs_view(objs@)) == Some(pinputs_view(ins@)),
            None => product_inputs_of(objs_view(objs@)) is None,
        },
{
    let ghost view = objs_view(objs@);
    let mut ins: Vec<ProductInput> = Vec::new();
    let mut i: usize = 0;
    while i < objs.len()
        invariant
            i <= objs.len(),
            view == objs_view(objs@),
            view.len() == objs@.len(),
            product_inputs_of(view.subrange(0, i as int)) == Some(pinputs_view(ins@)),
        decreases objs.len() - i,
    {
        let x = match pi_step(&objs[i], 0, None, None, None, None) {
            Some(x) => x,
            None => {
                proof {
                    let cur = view.subrange(0, i + 1 as int);
                    assert(cur.drop_last() =~= view.subrange(0, i as int));
                    assert(cur.last() == view[i as int]);
                    assert(view[i as int] == objs@[i as int]@);
                    lemma_inputs_of_prefix_none(view, i + 1 as int);
                }
                return None;
            },
        };
        let ghost prev = ins@;
        ins.push(x);
        proof {
            let cur = view.subrange(0, i + 1 as int);
            assert(cur.drop_last() =~= view.subrange(0, i as int));
            assert(cur.last() == view[i as int]);
            assert(view[i as int] == objs@[i as int]@);
            assert(pinputs_view(ins@) =~= pinputs_view(prev).push(ins@[prev.len() as int]@));
        }
        i = i + 1;
    }
    proof {
        assert(view.subrange(0, view.len() as int) =~= view);
    }
    Some(ins)
}

/// A failing object makes the whole prefix — and so the whole list — fail.
proof fn lemma_inputs_of_prefix_none(os: Seq<Seq<(Seq<char>, ScalarV)>>, n: int)
    requires
        0 < n <= os.len(),
        product_inputs_of(os.subrange(0, n)) is None,
    ensures
        product_inputs_of(os) is None,
    decreases os.len() - n,
{
    if n < os.len() {
        let cur = os.subrange(0, n + 1);
        assert(cur.drop_last() =~= os.subrange(0, n));
        lemma_inputs_of_prefix_none(os, n + 1);
    } else {
        assert(os.subrange(0, n) =~= os);
    }
}

/// Decode a list of country input objects.
fn decode_country_inputs(objs: &Vec<JsonObject>) -> (r: Option<Vec<CountryInput>>)
    ensures
        match r {
            Some(ins) => country_inputs_of(objs_view(objs@)) == Some(cinputs_view(ins@)),
            None => country_inputs_of(objs_view(objs@)) is None,
        },
{
    let ghost view = objs_view(objs@);
    let mut ins: Vec<CountryInput> = Vec::new();
    let mut i: usize = 0;
    while i < objs.len()
        invariant
            i <= objs.len(),
            view == objs_view(objs@),
            view.len() == objs@.len(),
            country_inputs_of(view.subrange(0, i as int)) == Some(cinputs_view(ins@)),
        decreases objs.len() - i,
    {
        let x = match ci_step(&objs[i], 0, None, None, None) {
            Some(x) => x,
            None => {
                proof {
                    let cur = view.subrange(0, i + 1 as int);
                    assert(cur.drop_last() =~= view.subrange(0, i as int));
                    assert(cur.last() == view[i as int]);
                    assert(view[i as int] == objs@[i as int]@);
                    lemma_cinputs_of_prefix_none(view, i + 1 as int);
                }
                return None;
            },
        };
        let ghost prev = ins@;
        ins.push(x);
        proof {
            let cur = view.subrange(0, i + 1 as int);
            assert(cur.drop_last() =~= view.subrange(0, i as int));
            assert(cur.last() == view[i as int]);
            assert(view[i as int] == objs@[i as int]@);
            assert(cinputs_view(ins@) =~= cinputs_view(prev).push(ins@[prev.len() as int]@));
        }
        i = i + 1;
    }
    proof {
        assert(view.subrange(0, view.len() as int) =~= view);
    }
    Some(ins)
}

/// A failing object makes the whole prefix — and so the whole list — fail.
proof fn lemma_cinputs_of_prefix_none(os: Seq<Seq<(Seq<char>, ScalarV)>>, n: int)
    requires
        0 < n <= os.len(),
        country_inputs_of(os.subrange(0, n)) is None,
    ensures
        country_inputs_of(os) is None,
    decreases os.len() - n,
{
    if n < os.len() {
        let cur = os.subrange(0, n + 1);
        assert(cur.drop_last() =~= os.subrange(0, n));
        lemma_cinputs_of_prefix_none(os, n + 1);
    } else {
        assert(os.subrange(0, n) =~= os);
    }
}

/// Convert decoded product inputs to rows, assigning identities.
fn convert_products(ins: &Vec<ProductInput>) -> (ps: Vec<Product>)
    ensures
        products_converted(pinputs_view(ins@), ps@),
{
    let ghost ins_v = pinputs_view(ins@);
    let mut ps: Vec<Product> = Vec::new();
    let mut i: usize = 0;
    while i < ins.len()
        invariant
            i <= ins.len(),
            ins_v == pinputs_view(ins@),
            ins_v.len() == ins@.len(),
            ps@.len() == i,
            forall|t: int|
                0 <= t < i ==> {
                    &&& (#[trigger] ps@[t])@.id.len() == 36
                    &&& ps@[t]@.name == ins_v[t].name
                    &&& ps@[t]@.price == ins_v[t].price
                    &&& ps@[t]@.description == ins_v[t].description
                    &&& ps@[t]@.country == ins_v[t].country
                },
        decreases ins.len() - i,
    {
        let p = ins[i].to_product();
        ps.push(p);
        i = i + 1;
    }
    ps
}

/// Convert decoded country inputs to rows, field for field.
fn convert_countries(ins: &Vec<CountryInput>) -> (cs: Vec<Country>)
    ensures
        countries_converted(cinputs_view(ins@), cs@),
{
    let ghost ins_v = cinputs_view(ins@);
    let mut cs: Vec<Country> = Vec::new();
    let mut i: usize = 0;
    while i < ins.len()
        invariant
            i <= ins.len(),
            ins_v == cinputs_view(ins@),
            ins_v.len() == ins@.len(),
            cs@.len() == i,
            forall|t: int| 0 <= t < i ==> (#[trigger] cs@[t])@ == ins_v[t],
        decreases ins.len() - i,
    {
        let c = ins[i].to_country();
        proof {
            assert(c@ =~= ins@[i as int]@);
        }
        cs.push(c);
        i = i + 1;
    }
    cs
}

/// Find the first member with the given name, from `k` on.
fn find_member(ms: &Vec<(String, Scalar)>, name: &String, k: usize) -> (r: Option<(String, Scalar)>)
    requires
        k <= ms.len(),
    ensures
        match r {
            Some(m) => wire_find(members_view(ms@), name@, k as int) == Some(
                (m.0@, m.1@),
            ),
            None => wire_find(members_view(ms@), name@, k as int) is None,
        },
    decreases ms.len() - k,
{
    if k == ms.len() {
        None
    } else if ms[k].0.eq(name) {
        Some((ms[k].0.clone(), ms[k].1.clone()))
    } else {
        find_member(ms, name, k + 1)
    }
}

/// Clone an object's members.
fn clone_members(ms: &Vec<(String, Scalar)>) -> (r: Vec<(String, Scalar)>)
    ensures
        r@ == ms@,
{
    let mut out: Vec<(String, Scalar)> = Vec::new();
    let mut i: usize = 0;
    while i < ms.len()
        invariant
            i <= ms.len(),
            out@ =~= ms@.subrange(0, i as int),
        decreases ms.len() - i,
    {
        out.push((ms[i].0.clone(), ms[i].1.clone()));
        proof {
            assert(ms@.subrange(0, i + 1 as int) =~= ms@.subrange(0, i as int).push(
                ms@[i as int],
            ));
        }
        i = i + 1;
    }
    proof {
        assert(ms@.subrange(0, ms@.len() as int) =~= ms@);
    }
    out
}

/// Project an object onto a subselection.
fn project_obj(o: &JsonObject, sub: &Option<Vec<String>>) -> (r: JsonObject)
    ensures
        r@ == project(o@, sub_view(*sub)),
{
    match sub {
        None => JsonObject { members: clone_members(&o.members) },
        Some(names) => {
            let ghost names_v = names_view(names@);
            let mut out: Vec<(String, Scalar)> = Vec::new();
            let mut i: usize = 0;
            while i < names.len()
                invariant
                    i <= names.len(),
                    names_v == names_view(names@),
                    names_v.len() == names@.len(),
                    members_view(out@) =~= proj_names(
                        o@,
                        names_v.subrange(0, i as int),
                    ),
                decreases names.len() - i,
            {
                let ghost prev = out@;
                match find_member(&o.members, &names[i], 0) {
                    Some(m) => {
                        out.push(m);
                        proof {
                            assert(members_view(out@) =~= members_view(
                                prev,
                            ).push((out@[prev.len() as int].0@, out@[prev.len() as int].1@)));
                        }
                    },
                    None => (),
                }
                proof {
                    let cur = names_v.subrange(0, i + 1 as int);
                    assert(cur.drop_last() =~= names_v.subrange(0, i as int));
                    assert(cur.last() == names_v[i as int]);
                    assert(names_v[i as int] == names@[i as int]@);
                    assert(members_view(out@) =~= proj_names(o@, cur));
                }
                i = i + 1;
            }
            proof {
                assert(names_v.subrange(0, names_v.len() as int) =~= names_v);
            }
            JsonObject { members: out }
        },
    }
}

/// Project every product row.
fn project_product_rows(rows: &Vec<Product>, sub: &Option<Vec<String>>) -> (os: Vec<JsonObject>)
    ensures
        objs_view(os@) == projected_product_rows(rows@, sub_view(*sub)),
{
    let mut os: Vec<JsonObject> = Vec::new();
    let mut i: usize = 0;
    while i < rows.len()
        invariant
            i <= rows.len(),
            objs_view(os@) =~= projected_product_rows(
                rows@.subrange(0, i as int),
                sub_view(*sub),
            ),
        decreases rows.len() - i,
    {
        let ghost prev = os@;
        let o = rows[i].to_json();
        let po = project_obj(&o, sub);
        os.push(po);
        proof {
            assert(rows@.subrange(0, i + 1 as int) =~= rows@.subrange(0, i as int).push(
                rows@[i as int],
            ));
            assert(objs_view(os@) =~= objs_view(prev).push(
                os@[prev.len() as int]@,
            ));
            assert(projected_product_rows(
                rows@.subrange(0, i + 1 as int),
                sub_view(*sub),
            ) =~= projected_product_rows(
                rows@.subrange(0, i as int),
                sub_view(*sub),
            ).push(project(product_wire(rows@[i as int]@), sub_view(*sub))));
        }
        i = i + 1;
    }
    proof {
        assert(rows@.subrange(0, rows@.len() as int) =~= rows@);
    }
    os
}

/// Project every country row.
fn project_country_rows(rows: &Vec<Country>, sub: &Option<Vec<String>>) -> (os: Vec<JsonObject>)
    ensures
        objs_view(os@) == projected_country_rows(rows@, sub_view(*sub)),
{
    let mut os: Vec<JsonObject> = Vec::new();
    let mut i: usize = 0;
    while i < rows.len()
        invariant
            i <= rows.len(),
            objs_view(os@) =~= projected_country_rows(
                rows@.subrange(0, i as int),
                sub_view(*sub),
            ),
        decreases rows.len() - i,
    {
        let ghost prev = os@;
        let o = rows[i].to_json();
        let po = project_obj(&o, sub);
        os.push(po);
        proof {
            assert(rows@.subrange(0, i + 1 as int) =~= rows@.subrange(0, i as int).push(
                rows@[i as int],
            ));
            assert(objs_view(os@) =~= objs_view(prev).push(
                os@[prev.len() as int]@,
            ));
            assert(projected_country_rows(
                rows@.subrange(0, i + 1 as int),
                sub_view(*sub),
            ) =~= projected_country_rows(
                rows@.subrange(0, i as int),
                sub_view(*sub),
            ).push(project(country_wire(rows@[i as int]@), sub_view(*sub))));
        }
        i = i + 1;
    }
    proof {
        assert(rows@.subrange(0, rows@.len() as int) =~= rows@);
    }
    os
}

} // verus!
