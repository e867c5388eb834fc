//! The wire shape of the two entities: how a `Product` or a `Country` is
//! laid out as a flat JSON object, the decoder for that shape, and the
//! round-trip law that encoding then decoding preserves every field.
//!
//! Member names follow the service's field naming: single-word names stand
//! as they are, and a multi-word field is camel-cased (`fullName`,
//! `shortName`).

use vstd::prelude::*;

use crate::json::{JsonObject, Scalar, ScalarV};
use crate::models::{Country, CountryV, Product, ProductV};

verus! {

/// An optional text as a wire scalar: its text, or null.
pub open spec fn opt_scalar(o: Option<Seq<char>>) -> ScalarV {
    match o {
        Some(s) => ScalarV::Text(s),
        None => ScalarV::Null,
    }
}

/// The wire members of a product, in order.
pub open spec fn product_wire(p: ProductV) -> Seq<(Seq<char>, ScalarV)> {
    seq![
        ("id"@, ScalarV::Text(p.id)),
        ("name"@, ScalarV::Text(p.name)),
        ("price"@, ScalarV::Num(p.price)),
        ("description"@, opt_scalar(p.description)),
        ("country"@, opt_scalar(p.country)),
    ]
}

/// The wire members of a country, in order.
pub open spec fn country_wire(c: CountryV) -> Seq<(Seq<char>, ScalarV)> {
    seq![
        ("fullName"@, ScalarV::Text(c.full_name)),
        ("continent"@, ScalarV::Text(c.continent)),
        ("shortName"@, ScalarV::Text(c.short_name)),
    ]
}

/// Decode a product from wire members: exactly the five members of
/// `product_wire`, in order, with text where text is owed and a number for
/// the price; the two optional fields may be null.
pub open spec fn product_of_wire(v: Seq<(Seq<char>, ScalarV)>) -> Option<ProductV> {
    if v.len() == 5 && v[0].0 == "id"@ && v[0].1 is Text && v[1].0 == "name"@ && v[1].1 is Text
        && v[2].0 == "price"@ && v[2].1 is Num && v[3].0 == "description"@ && (v[3].1 is Text
        || v[3].1 is Null) && v[4].0 == "country"@ && (v[4].1 is Text || v[4].1 is Null) {
        Some(
            ProductV {
                id: v[0].1->Text_0,
                name: v[1].1->Text_0,
                price: v[2].1->Num_0,
                description: if v[3].1 is Text {
                    Some(v[3].1->Text_0)
                } else {
                    None
                },
                country: if v[4].1 is Text {
                    Some(v[4].1->Text_0)
                } else {
                    None
                },
            },
        )
    } else {
        None
    }
}

/// Decode a country from wire members: exactly the three members of
/// `country_wire`, in order, all text.
pub open spec fn country_of_wire(v: Seq<(Seq<char>, ScalarV)>) -> Option<CountryV> {
    if v.len() == 3 && v[0].0 == "fullName"@ && v[0].1 is Text && v[1].0 == "continent"@
        && v[1].1 is Text && v[2].0 == "shortName"@ && v[2].1 is Text {
        Some(
            CountryV {
                full_name: v[0].1->Text_0,
                continent: v[1].1->Text_0,
                short_name: v[2].1->Text_0,
            },
        )
    } else {
        None
    }
}

/// Law: the wire round trip preserves a product — encoding a product as its
/// wire members and decoding them back yields the same field values.
pub proof fn lemma_product_wire_round_trip(p: ProductV)
    ensures
        product_of_wire(product_wire(p)) == Some(p),
{
    let v = product_wire(p);
    assert(product_of_wire(v)->0 =~= p);
}

/// Law: the wire round trip preserves a country.
pub proof fn lemma_country_wire_round_trip(c: CountryV)
    ensures
        country_of_wire(country_wire(c)) == Some(c),
{
    let v = country_wire(c);
    assert(country_of_wire(v)->0 =~= c);
}

/// Serialize an optional string field.
fn opt_to_scalar(o: &Option<String>) -> (s: Scalar)
    ensures
        s@ == opt_scalar(crate::models::opt_view(*o)),
{
    match o {
        Some(t) => Scalar::Text(t.clone()),
        None => Scalar::Null,
    }
}

impl Product {
    /// Lay this product out as its wire object.
    pub fn to_json(&self) -> (o: JsonObject)
        ensures
            o@ == product_wire(self@),
    {
        let mut members: Vec<(String, Scalar)> = Vec::new();
        members.push((String::from_str("id"), Scalar::Text(self.id.clone())));
        members.push((String::from_str("name"), Scalar::Text(self.name.clone())));
        members.push((String::from_str("price"), Scalar::Num(self.price.clone())));
        members.push((String::from_str("description"), opt_to_scalar(&self.description)));
        members.push((String::from_str("country"), opt_to_scalar(&self.country)));
        let o = JsonObject { members };
        proof {
            assert(o@ =~= product_wire(self@));
        }
        o
    }

    /// Decode a product from its wire object, if it has exactly that shape.
    pub fn from_json(o: &JsonObject) -> (r: Option<Product>)
        ensures
            match r {
                Some(p) => product_of_wire(o@) == Some(p@),
                None => product_of_wire(o@) is None,
            },
    {
        if o.members.len() != 5 {
            return None;
        }
        if !o.members[0].0.eq(&String::from_str("id")) || !o.members[1].0.eq(
            &String::from_str("name"),
        ) || !o.members[2].0.eq(&String::from_str("price")) || !o.members[3].0.eq(
            &String::from_str("description"),
        ) || !o.members[4].0.eq(&String::from_str("country")) {
            return None;
        }
        let id = match &o.members[0].1 {
            Scalar::Text(s) => s.clone(),
            _ => { return None },
        };
        let name = match &o.members[1].1 {
            Scalar::Text(s) => s.clone(),
            _ => { return None },
        };
        let price = match &o.members[2].1 {
            Scalar::Num(s) => s.clone(),
            _ => { return None },
        };
        let description = match &o.members[3].1 {
            Scalar::Text(s) => Some(s.clone()),
            Scalar::Null => None,
            _ => { return None },
        };
        let country = match &o.members[4].1 {
            Scalar::Text(s) => Some(s.clone()),
            Scalar::Null => None,
            _ => { return None },
        };
        let p = Product { id, name, price, description, country };
        proof {
            assert(product_of_wire(o@)->0 =~= p@);
        }
        Some(p)
    }
}

impl Country {
    /// Lay this country out as its wire object.
    pub fn to_json(&self) -> (o: JsonObject)
        ensures
            o@ == country_wire(self@),
    {
        let mut members: Vec<(String, Scalar)> = Vec::new();
        members.push((String::from_str("fullName"), Scalar::Text(self.full_name.clone())));
        members.push((String::from_str("continent"), Scalar::Text(self.continent.clone())));
        members.push((String::from_str("shortName"), Scalar::Text(self.short_name.clone())));
        let o = JsonObject { members };
        proof {
            assert(o@ =~= country_wire(self@));
        }
        o
    }

    /// Decode a country from its wire object, if it has exactly that shape.
    pub fn from_json(o: &JsonObject) -> (r: Option<Country>)
        ensures
            match r {
                Some(c) => country_of_wire(o@) == Some(c@),
                None => country_of_wire(o@) is None,
            },
    {
        if o.members.len() != 3 {
            return None;
        }
        if !o.members[0].0.eq(&String::from_str("fullName")) || !o.members[1].0.eq(
            &String::from_str("continent"),
        ) || !o.members[2].0.eq(&String::from_str("shortName")) {
            return None;
        }
        let full_name = match &o.members[0].1 {
            Scalar::Text(s) => s.clone(),
            _ => { return None },
        };
        let continent = match &o.members[1].1 {
            Scalar::Text(s) => s.clone(),
            _ => { return None },
        };
        let short_name = match &o.members[2].1 {
            Scalar::Text(s) => s.clone(),
            _ => { return None },
        };
        let c = Country { full_name, continent, short_name };
        proof {
            assert(country_of_wire(o@)->0 =~= c@);
        }
        Some(c)
    }
}

} // verus!
