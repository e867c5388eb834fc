//! The entity models: `Product` and `Country` record shapes, their input
//! counterparts used for mutation payloads, and the conversion from input to
//! persisted form (identifier assignment for products).
//!
//! A product's price is a 64-bit floating-point quantity at the service
//! boundary; inside the library it is carried as its decimal numeral, the
//! exact token that appeared on the wire, so that it is copied and emitted
//! verbatim and never rounded.

use vstd::prelude::*;

verus! {

/// A persisted product row. The `id` is server-generated at creation time,
/// never supplied by the client.
#[derive(Debug)]
pub struct Product {
    pub id: String,
    pub name: String,
    /// The decimal numeral of the 64-bit price, kept verbatim.
    pub price: String,
    pub description: Option<String>,
    pub country: Option<String>,
}

/// The client-supplied subset of a product, used only to construct a
/// `Product` by generating a fresh identifier.
#[derive(Debug)]
pub struct ProductInput {
    pub name: String,
    pub description: Option<String>,
    /// The decimal numeral of the 64-bit price, kept verbatim.
    pub price: String,
    pub country: Option<String>,
}

/// A persisted country row; the client supplies the full key set.
#[derive(Debug)]
pub struct Country {
    pub full_name: String,
    pub continent: String,
    pub short_name: String,
}

/// The client-supplied payload for creating a country; converted one-to-one.
#[derive(Debug)]
pub struct CountryInput {
    pub full_name: String,
    pub continent: String,
    pub short_name: String,
}

/// The mathematical view of a `Product`: every field as its text.
#[verifier::ext_equal]
pub struct ProductV {
    pub id: Seq<char>,
    pub name: Seq<char>,
    pub price: Seq<char>,
    pub description: Option<Seq<char>>,
    pub country: Option<Seq<char>>,
}

/// The mathematical view of a `ProductInput`.
#[verifier::ext_equal]
pub struct ProductInputV {
    pub name: Seq<char>,
    pub description: Option<Seq<char>>,
    pub price: Seq<char>,
    pub country: Option<Seq<char>>,
}

/// The mathematical view of a `Country`: every field as its text.
#[verifier::ext_equal]
pub struct CountryV {
    pub full_name: Seq<char>,
    pub continent: Seq<char>,
    pub short_name: Seq<char>,
}

/// The views of a product input list.
pub open spec fn pinputs_view(s: Seq<ProductInput>) -> Seq<ProductInputV> {
    s.map_values(|x: ProductInput| x@)
}

/// The views of a country input list.
pub open spec fn cinputs_view(s: Seq<CountryInput>) -> Seq<CountryV> {
    s.map_values(|x: CountryInput| x@)
}

/// The view of an optional string: its text, if present.
pub open spec fn opt_view(o: Option<String>) -> Option<Seq<char>> {
    match o {
        Some(s) => Some(s@),
        None => None,
    }
}

impl View for Product {
    type V = ProductV;

    open spec fn view(&self) -> ProductV {
        ProductV {
            id: self.id@,
            name: self.name@,
            price: self.price@,
            description: opt_view(self.description),
            country: opt_view(self.country),
        }
    }
}

impl View for ProductInput {
    type V = ProductInputV;

    open spec fn view(&self) -> ProductInputV {
        ProductInputV {
            name: self.name@,
            description: opt_view(self.description),
            price: self.price@,
            country: opt_view(self.country),
        }
    }
}

impl View for Country {
    type V = CountryV;

    open spec fn view(&self) -> CountryV {
        CountryV {
            full_name: self.full_name@,
            continent: self.continent@,
            short_name: self.short_name@,
        }
    }
}

impl View for CountryInput {
    type V = CountryV;

    open spec fn view(&self) -> CountryV {
        CountryV {
            full_name: self.full_name@,
            continent: self.continent@,
            short_name: self.short_name@,
        }
    }
}

/// Relies on `uuid::Uuid::new_v4` and its `Display` form: a version-4
/// identifier rendered as the canonical lowercase hyphenated text, which is
/// always 36 characters long. The value itself is random, so nothing more
/// is promised of it.
#[verifier::external_body]
fn fresh_uuid() -> (id: String)
    ensures
        id@.len() == 36,
{
    uuid::Uuid::new_v4().to_string()
}

impl ProductInput {
    /// Generate a `Product` from this input: a fresh 36-character identifier
    /// is assigned and every other field is copied verbatim.
    pub fn to_product(&self) -> (p: Product)
        ensures
            p.id@.len() == 36,
            p.name == self.name,
            p.price == self.price,
            p.description == self.description,
            p.country == self.country,
    {
        let uuid = fresh_uuid();

        Product {
            id: uuid,
            name: self.name.clone(),
            price: self.price.clone(),
            description: clone_opt(&self.description),
            country: clone_opt(&self.country),
        }
    }
}

impl CountryInput {
    /// Generate a `Country` from this input: a field-for-field copy, with no
    /// generated values.
    pub fn to_country(&self) -> (c: Country)
        ensures
            c.full_name == self.full_name,
            c.continent == self.continent,
            c.short_name == self.short_name,
    {
        Country {
            full_name: self.full_name.clone(),
            continent: self.continent.clone(),
            short_name: self.short_name.clone(),
        }
    }
}

/// Clone an optional string, keeping the value.
fn clone_opt(o: &Option<String>) -> (r: Option<String>)
    ensures
        r == *o,
{
    match o {
        Some(s) => Some(s.clone()),
        None => None,
    }
}

impl Clone for Product {
    fn clone(&self) -> (p: Self)
        ensures
            p == *self,
    {
        Product {
            id: self.id.clone(),
            name: self.name.clone(),
            price: self.price.clone(),
            description: clone_opt(&self.description),
            country: clone_opt(&self.country),
        }
    }
}

impl Clone for ProductInput {
    fn clone(&self) -> (p: Self)
        ensures
            p == *self,
    {
        ProductInput {
            name: self.name.clone(),
            description: clone_opt(&self.description),
            price: self.price.clone(),
            country: clone_opt(&self.country),
        }
    }
}

impl Clone for Country {
    fn clone(&self) -> (c: Self)
        ensures
            c == *self,
    {
        Country {
            full_name: self.full_name.clone(),
            continent: self.continent.clone(),
            short_name: self.short_name.clone(),
        }
    }
}

impl Clone for CountryInput {
    fn clone(&self) -> (c: Self)
        ensures
            c == *self,
    {
        CountryInput {
            full_name: self.full_name.clone(),
            continent: self.continent.clone(),
            short_name: self.short_name.clone(),
        }
    }
}

} // verus!
