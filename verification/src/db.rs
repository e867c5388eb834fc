//! The database handler: the relational store for the two entity types and
//! the CRUD operations a request resolves against, with their exact
//! semantics — a by-key read distinguishes the empty and the duplicated key,
//! a full read never fails, and a batch insert returns the full table
//! contents on success and leaves the table untouched on a key collision.

use vstd::prelude::*;

use crate::error::{Error, ErrorKind};
use crate::models::{Country, Product};

verus! {

/// The rows of a product table that carry the given key.
pub open spec fn products_with_id(rows: Seq<Product>, key: Seq<char>) -> Seq<Product> {
    rows.filter(|p: Product| p.id@ == key)
}

/// The rows of a country table that carry the given key.
pub open spec fn countries_with_key(rows: Seq<Country>, key: Seq<char>) -> Seq<Country> {
    rows.filter(|c: Country| c.short_name@ == key)
}

/// True when some row of the product table carries the given key.
pub open spec fn has_product_id(rows: Seq<Product>, key: Seq<char>) -> bool {
    exists|i: int| 0 <= i < rows.len() && rows[i].id@ == key
}

/// True when some row of the country table carries the given key.
pub open spec fn has_country_key(rows: Seq<Country>, key: Seq<char>) -> bool {
    exists|i: int| 0 <= i < rows.len() && rows[i].short_name@ == key
}

/// A product batch can be inserted: no key of the batch is already in the
/// table, and no key occurs twice within the batch.
pub open spec fn product_batch_ok(rows: Seq<Product>, batch: Seq<Product>) -> bool {
    &&& forall|i: int| 0 <= i < batch.len() ==> !has_product_id(rows, batch[i].id@)
    &&& forall|i: int, j: int| 0 <= i < j < batch.len() ==> batch[i].id@ != batch[j].id@
}

/// A country batch can be inserted: no key of the batch is already in the
/// table, and no key occurs twice within the batch.
pub open spec fn country_batch_ok(rows: Seq<Country>, batch: Seq<Country>) -> bool {
    &&& forall|i: int| 0 <= i < batch.len() ==> !has_country_key(rows, batch[i].short_name@)
    &&& forall|i: int, j: int| 0 <= i < j < batch.len()
        ==> batch[i].short_name@ != batch[j].short_name@
}

/// Every key of the product table occurs exactly once.
pub open spec fn product_keys_unique(rows: Seq<Product>) -> bool {
    forall|i: int, j: int| 0 <= i < j < rows.len() ==> rows[i].id@ != rows[j].id@
}

/// Every key of the country table occurs exactly once.
pub open spec fn country_keys_unique(rows: Seq<Country>) -> bool {
    forall|i: int, j: int| 0 <= i < j < rows.len() ==> rows[i].short_name@ != rows[j].short_name@
}

/// DatabaseHandler holds the table contents a single request reads and
/// writes, one table per entity type.
#[derive(Debug)]
pub struct DatabaseHandler {
    pub products: Vec<Product>,
    pub countries: Vec<Country>,
}

impl DatabaseHandler {
    /// An empty store: both tables hold no rows.
    pub fn new() -> (h: DatabaseHandler)
        ensures
            h.products@ =~= Seq::<Product>::empty(),
            h.countries@ =~= Seq::<Country>::empty(),
    {
        DatabaseHandler { products: Vec::new(), countries: Vec::new() }
    }

    /// Read the product with the given key. Zero matching rows is the logic
    /// error "product not found"; more than one is the (defensively checked)
    /// logic error "duplicate product id"; exactly one is returned.
    pub fn get_product_by_id(&self, product_id: &String) -> (r: Result<Product, Error>)
        ensures
            products_with_id(self.products@, product_id@).len() == 0 ==> {
                &&& r is Err
                &&& r->Err_0.kind == ErrorKind::LogicError
                &&& r->Err_0.message@ == "product not found"@
            },
            products_with_id(self.products@, product_id@).len() == 1 ==> {
                &&& r is Ok
                &&& r->Ok_0 == products_with_id(self.products@, product_id@)[0]
            },
            products_with_id(self.products@, product_id@).len() > 1 ==> {
                &&& r is Err
                &&& r->Err_0.kind == ErrorKind::LogicError
                &&& r->Err_0.message@ == "duplicate product id"@
            },
    {
        let rows = &self.products;
        let mut count: usize = 0;
        let mut first: usize = 0;
        let mut i: usize = 0;
        proof {
            reveal(Seq::filter);
        }
        while i < rows.len()
            invariant
                i <= rows.len(),
                count == products_with_id(rows@.subrange(0, i as int), product_id@).len(),
                count > 0 ==> first < i && rows@[first as int] == products_with_id(
                    rows@.subrange(0, i as int),
                    product_id@,
                )[0],
                count > 0 ==> products_with_id(rows@, product_id@).len() > 0 && products_with_id(
                    rows@,
                    product_id@,
                )[0] == products_with_id(rows@.subrange(0, i as int), product_id@)[0],
            decreases rows.len() - i,
        {
            let ghost pre = rows@.subrange(0, i as int);
            let ghost cur = rows@.subrange(0, i + 1 as int);
            proof {
                reveal(Seq::filter);
                assert(cur.drop_last() =~= pre);
                assert(cur.last() == rows@[i as int]);
                if rows@[i as int].id@ == product_id@ {
                    assert(products_with_id(cur, product_id@) == products_with_id(
                        pre,
                        product_id@,
                    ).push(rows@[i as int]));
                } else {
                    assert(products_with_id(cur, product_id@) == products_with_id(
                        pre,
                        product_id@,
                    ));
                }
                lemma_filter_of_prefix_is_prefix(rows@, i + 1 as int, product_id@);
            }
            if rows[i].id.eq(product_id) {
                if count == 0 {
                    first = i;
                }
                count = count + 1;
            }
            i = i + 1;
        }
        proof {
            assert(rows@.subrange(0, rows@.len() as int) =~= rows@);
        }
        if count == 0 {
            Err(Error::logic("product not found"))
        } else if count > 1 {
            Err(Error::logic("duplicate product id"))
        } else {
            Ok(self.products[first].clone())
        }
    }

    /// Read the country with the given key (its short name). Same shape as
    /// the product read: zero rows is "country not found", more than one is
    /// "duplicate country key".
    pub fn get_country_by_id(&self, country_id: &String) -> (r: Result<Country, Error>)
        ensures
            countries_with_key(self.countries@, country_id@).len() == 0 ==> {
                &&& r is Err
                &&& r->Err_0.kind == ErrorKind::LogicError
                &&& r->Err_0.message@ == "country not found"@
            },
            countries_with_key(self.countries@, country_id@).len() == 1 ==> {
                &&& r is Ok
                &&& r->Ok_0 == countries_with_key(self.countries@, country_id@)[0]
            },
            countries_with_key(self.countries@, country_id@).len() > 1 ==> {
                &&& r is Err
                &&& r->Err_0.kind == ErrorKind::LogicError
                &&& r->Err_0.message@ == "duplicate country key"@
            },
    {
        let rows = &self.countries;
        let mut count: usize = 0;
        let mut first: usize = 0;
        let mut i: usize = 0;
        proof {
            reveal(Seq::filter);
        }
        while i < rows.len()
            invariant
                i <= rows.len(),
                count == countries_with_key(rows@.subrange(0, i as int), country_id@).len(),
                count > 0 ==> first < i && rows@[first as int] == countries_with_key(
                    rows@.subrange(0, i as int),
                    country_id@,
                )[0],
                count > 0 ==> countries_with_key(rows@, country_id@).len() > 0
                    && countries_with_key(rows@, country_id@)[0] == countries_with_key(
                    rows@.subrange(0, i as int),
                    country_id@,
                )[0],
            decreases rows.len() - i,
        {
            let ghost pre = rows@.subrange(0, i as int);
            let ghost cur = rows@.subrange(0, i + 1 as int);
            proof {
                reveal(Seq::filter);
                assert(cur.drop_last() =~= pre);
                assert(cur.last() == rows@[i as int]);
                if rows@[i as int].short_name@ == country_id@ {
                    assert(countries_with_key(cur, country_id@) == countries_with_key(
                        pre,
                        country_id@,
                    ).push(rows@[i as int]));
                } else {
                    assert(countries_with_key(cur, country_id@) == countries_with_key(
                        pre,
                        country_id@,
                    ));
                }
                lemma_country_filter_of_prefix_is_prefix(rows@, i + 1 as int, country_id@);
            }
            if rows[i].short_name.eq(country_id) {
                if count == 0 {
                    first = i;
                }
                count = count + 1;
            }
            i = i + 1;
        }
        proof {
            assert(rows@.subrange(0, rows@.len() as int) =~= rows@);
        }
        if count == 0 {
            Err(Error::logic("country not found"))
        } else if count > 1 {
            Err(Error::logic("duplicate country key"))
        } else {
            Ok(self.countries[first].clone())
        }
    }

    /// Read all products. An empty table yields an empty list; the read
    /// itself never fails.
    pub fn get_products(&self) -> (r: Result<Vec<Product>, Error>)
        ensures
            r is Ok,
            r->Ok_0@ == self.products@,
    {
        Ok(clone_products(&self.products))
    }

    /// Read all countries. An empty table yields an empty list; the read
    /// itself never fails.
    pub fn get_countries(&self) -> (r: Result<Vec<Country>, Error>)
        ensures
            r is Ok,
            r->Ok_0@ == self.countries@,
    {
        Ok(clone_countries(&self.countries))
    }

    /// Insert a batch of fully-formed products. On a key collision — with the
    /// table or within the batch — nothing is inserted and a database error
    /// is returned; on success the batch is appended and the full table
    /// contents are returned, not only the inserted rows.
    pub fn insert_product(&mut self, val: &Vec<Product>) -> (r: Result<Vec<Product>, Error>)
        ensures
            r is Ok <==> product_batch_ok(old(self).products@, val@),
            r is Ok ==> final(self).products@ == old(self).products@ + val@,
            r is Ok ==> r->Ok_0@ == final(self).products@,
            r is Err ==> {
                &&& *final(self) == *old(self)
                &&& r->Err_0.kind == ErrorKind::DbError
                &&& r->Err_0.message@ == "could not insert product: duplicate key"@
            },
            final(self).countries@ == old(self).countries@,
    {
        if !product_batch_admissible(&self.products, val) {
            return Err(Error::db("could not insert product: duplicate key"));
        }
        let mut i: usize = 0;
        while i < val.len()
            invariant
                i <= val.len(),
                self.products@ == old(self).products@ + val@.subrange(0, i as int),
                self.countries@ == old(self).countries@,
            decreases val.len() - i,
        {
            self.products.push(val[i].clone());
            proof {
                assert(old(self).products@ + val@.subrange(0, i + 1 as int) =~= (old(
                    self,
                ).products@ + val@.subrange(0, i as int)).push(val@[i as int]));
            }
            i = i + 1;
        }
        proof {
            assert(val@.subrange(0, val@.len() as int) =~= val@);
        }
        Ok(clone_products(&self.products))
    }

    /// Insert a batch of countries, with the same contract shape as the
    /// product insert: all-or-nothing, returning the full table on success.
    pub fn insert_country(&mut self, val: &Vec<Country>) -> (r: Result<Vec<Country>, Error>)
        ensures
            r is Ok <==> country_batch_ok(old(self).countries@, val@),
            r is Ok ==> final(self).countries@ == old(self).countries@ + val@,
            r is Ok ==> r->Ok_0@ == final(self).countries@,
            r is Err ==> {
                &&& *final(self) == *old(self)
                &&& r->Err_0.kind == ErrorKind::DbError
                &&& r->Err_0.message@ == "could not insert country: duplicate key"@
            },
            final(self).products@ == old(self).products@,
    {
        if !country_batch_admissible(&self.countries, val) {
            return Err(Error::db("could not insert country: duplicate key"));
        }
        let mut i: usize = 0;
        while i < val.len()
            invariant
                i <= val.len(),
                self.countries@ == old(self).countries@ + val@.subrange(0, i as int),
                self.products@ == old(self).products@,
            decreases val.len() - i,
        {
            self.countries.push(val[i].clone());
            proof {
                assert(old(self).countries@ + val@.subrange(0, i + 1 as int) =~= (old(
                    self,
                ).countries@ + val@.subrange(0, i as int)).push(val@[i as int]));
            }
            i = i + 1;
        }
        proof {
            assert(val@.subrange(0, val@.len() as int) =~= val@);
        }
        Ok(clone_countries(&self.countries))
    }
}

/// Law: on an empty table no row matches any key, so by the contract of
/// `get_product_by_id` a read of an empty product table returns the
/// "product not found" logic error, whatever the key.
pub proof fn lemma_empty_product_read_matches_nothing(rows: Seq<Product>, key: Seq<char>)
    requires
        rows.len() == 0,
    ensures
        products_with_id(rows, key).len() == 0,
{
    reveal(Seq::filter);
    assert(rows =~= Seq::<Product>::empty());
}

/// Law: on an empty table no row matches any key, so by the contract of
/// `get_country_by_id` a read of an empty country table returns the
/// "country not found" logic error, whatever the key.
pub proof fn lemma_empty_country_read_matches_nothing(rows: Seq<Country>, key: Seq<char>)
    requires
        rows.len() == 0,
    ensures
        countries_with_key(rows, key).len() == 0,
{
    reveal(Seq::filter);
    assert(rows =~= Seq::<Country>::empty());
}

/// Law: read-after-write within one call. The hypotheses are the
/// postconditions of `insert_product` (a successful insert leaves the
/// store at `h` and returns `inserted`, the full table of `h`) and of a
/// `get_products` on that same untouched store (it returns `later`, also
/// the full table of `h`); the two lists are therefore the same rows.
pub proof fn lemma_product_read_after_write(
    h: DatabaseHandler,
    inserted: Seq<Product>,
    later: Seq<Product>,
)
    requires
        inserted == h.products@,
        later == h.products@,
    ensures
        inserted == later,
{
}

/// Law: the country twin of `lemma_product_read_after_write`.
pub proof fn lemma_country_read_after_write(
    h: DatabaseHandler,
    inserted: Seq<Country>,
    later: Seq<Country>,
)
    requires
        inserted == h.countries@,
        later == h.countries@,
    ensures
        inserted == later,
{
}

/// Law: an admissible insert followed by a full read yields exactly the old
/// rows together with the batch — every old row and every batch row is
/// present, nothing else is, and no key is duplicated if none was before.
pub proof fn lemma_product_insert_is_exact(rows: Seq<Product>, batch: Seq<Product>)
    requires
        product_batch_ok(rows, batch),
        product_keys_unique(rows),
    ensures
        (rows + batch).len() == rows.len() + batch.len(),
        forall|p: Product| #[trigger]
            (rows + batch).contains(p) <==> rows.contains(p) || batch.contains(p),
        product_keys_unique(rows + batch),
{
    let all = rows + batch;
    assert forall|p: Product| #[trigger] all.contains(p) implies rows.contains(p)
        || batch.contains(p) by {
        let i = choose|i: int| 0 <= i < all.len() && all[i] == p;
        if i < rows.len() {
            assert(rows[i] == p);
        } else {
            assert(batch[i - rows.len()] == p);
        }
    }
    assert forall|p: Product| rows.contains(p) || batch.contains(p) implies #[trigger] all.contains(
        p,
    ) by {
        if rows.contains(p) {
            let i = choose|i: int| 0 <= i < rows.len() && rows[i] == p;
            assert(all[i] == p);
        } else {
            let i = choose|i: int| 0 <= i < batch.len() && batch[i] == p;
            assert(all[rows.len() + i] == p);
        }
    }
    assert forall|i: int, j: int| 0 <= i < j < all.len() implies all[i].id@ != all[j].id@ by {
        if j >= rows.len() {
            if i < rows.len() {
                assert(!has_product_id(rows, batch[j - rows.len()].id@));
                assert(all[i] == rows[i]);
            }
        }
    }
}

/// Law: the country twin of `lemma_product_insert_is_exact`.
pub proof fn lemma_country_insert_is_exact(rows: Seq<Country>, batch: Seq<Country>)
    requires
        country_batch_ok(rows, batch),
        country_keys_unique(rows),
    ensures
        (rows + batch).len() == rows.len() + batch.len(),
        forall|c: Country| #[trigger]
            (rows + batch).contains(c) <==> rows.contains(c) || batch.contains(c),
        country_keys_unique(rows + batch),
{
    let all = rows + batch;
    assert forall|c: Country| #[trigger] all.contains(c) implies rows.contains(c)
        || batch.contains(c) by {
        let i = choose|i: int| 0 <= i < all.len() && all[i] == c;
        if i < rows.len() {
            assert(rows[i] == c);
        } else {
            assert(batch[i - rows.len()] == c);
        }
    }
    assert forall|c: Country| rows.contains(c) || batch.contains(c) implies #[trigger] all.contains(
        c,
    ) by {
        if rows.contains(c) {
            let i = choose|i: int| 0 <= i < rows.len() && rows[i] == c;
            assert(all[i] == c);
        } else {
            let i = choose|i: int| 0 <= i < batch.len() && batch[i] == c;
            assert(all[rows.len() + i] == c);
        }
    }
    assert forall|i: int, j: int| 0 <= i < j < all.len() implies all[i].short_name@
        != all[j].short_name@ by {
        if j >= rows.len() {
            if i < rows.len() {
                assert(!has_country_key(rows, batch[j - rows.len()].short_name@));
                assert(all[i] == rows[i]);
            }
        }
    }
}

/// The filtered rows of a prefix are a prefix of the filtered rows, so a
/// non-empty prefix match pins the first match of the whole table.
proof fn lemma_filter_of_prefix_is_prefix(rows: Seq<Product>, n: int, key: Seq<char>)
    requires
        0 <= n <= rows.len(),
    ensures
        products_with_id(rows, key).len() >= products_with_id(rows.subrange(0, n), key).len(),
        products_with_id(rows.subrange(0, n), key).len() > 0 ==> products_with_id(rows, key)[0]
            == products_with_id(rows.subrange(0, n), key)[0],
    decreases rows.len() - n,
{
    reveal(Seq::filter);
    if n < rows.len() {
        let pre = rows.subrange(0, n);
        let cur = rows.subrange(0, n + 1);
        assert(cur.drop_last() =~= pre);
        assert(cur.last() == rows[n]);
        lemma_filter_of_prefix_is_prefix(rows, n + 1, key);
    } else {
        assert(rows.subrange(0, n) =~= rows);
    }
}

/// The country twin of `lemma_filter_of_prefix_is_prefix`.
proof fn lemma_country_filter_of_prefix_is_prefix(rows: Seq<Country>, n: int, key: Seq<char>)
    requires
        0 <= n <= rows.len(),
    ensures
        countries_with_key(rows, key).len() >= countries_with_key(rows.subrange(0, n), key).len(),
        countries_with_key(rows.subrange(0, n), key).len() > 0 ==> countries_with_key(rows, key)[0]
            == countries_with_key(rows.subrange(0, n), key)[0],
    decreases rows.len() - n,
{
    reveal(Seq::filter);
    if n < rows.len() {
        let pre = rows.subrange(0, n);
        let cur = rows.subrange(0, n + 1);
        assert(cur.drop_last() =~= pre);
        assert(cur.last() == rows[n]);
        lemma_country_filter_of_prefix_is_prefix(rows, n + 1, key);
    } else {
        assert(rows.subrange(0, n) =~= rows);
    }
}

/// Decide whether a product batch can be inserted without a key collision.
fn product_batch_admissible(rows: &Vec<Product>, batch: &Vec<Product>) -> (ok: bool)
    ensures
        ok == product_batch_ok(rows@, batch@),
{
    let mut i: usize = 0;
    while i < batch.len()
        invariant
            i <= batch.len(),
            forall|k: int| 0 <= k < i ==> !has_product_id(rows@, batch@[k].id@),
            forall|k: int, l: int| 0 <= k < l < i ==> batch@[k].id@ != batch@[l].id@,
        decreases batch.len() - i,
    {
        let mut j: usize = 0;
        while j < rows.len()
            invariant
                i < batch.len(),
                j <= rows.len(),
                forall|k: int| 0 <= k < j ==> rows@[k].id@ != batch@[i as int].id@,
            decreases rows.len() - j,
        {
            if rows[j].id.eq(&batch[i].id) {
                return false;
            }
            j = j + 1;
        }
        let mut l: usize = 0;
        while l < i
            invariant
                i < batch.len(),
                l <= i,
                forall|k: int| 0 <= k < l ==> batch@[k].id@ != batch@[i as int].id@,
            decreases i - l,
        {
            if batch[l].id.eq(&batch[i].id) {
                return false;
            }
            l = l + 1;
        }
        i = i + 1;
    }
    true
}

/// Decide whether a country batch can be inserted without a key collision.
fn country_batch_admissible(rows: &Vec<Country>, batch: &Vec<Country>) -> (ok: bool)
    ensures
        ok == country_batch_ok(rows@, batch@),
{
    let mut i: usize = 0;
    while i < batch.len()
        invariant
            i <= batch.len(),
            forall|k: int| 0 <= k < i ==> !has_country_key(rows@, batch@[k].short_name@),
            forall|k: int, l: int| 0 <= k < l < i ==> batch@[k].short_name@ != batch@[l].short_name@,
        decreases batch.len() - i,
    {
        let mut j: usize = 0;
        while j < rows.len()
            invariant
                i < batch.len(),
                j <= rows.len(),
                forall|k: int| 0 <= k < j ==> rows@[k].short_name@ != batch@[i as int].short_name@,
            decreases rows.len() - j,
        {
            if rows[j].short_name.eq(&batch[i].short_name) {
                return false;
            }
            j = j + 1;
        }
        let mut l: usize = 0;
        while l < i
            invariant
                i < batch.len(),
                l <= i,
                forall|k: int| 0 <= k < l ==> batch@[k].short_name@ != batch@[i as int].short_name@,
            decreases i - l,
        {
            if batch[l].short_name.eq(&batch[i].short_name) {
                return false;
            }
            l = l + 1;
        }
        i = i + 1;
    }
    true
}

/// Clone a product list, keeping the rows.
fn clone_products(rows: &Vec<Product>) -> (r: Vec<Product>)
    ensures
        r@ == rows@,
{
    let mut out: Vec<Product> = Vec::new();
    let mut i: usize = 0;
    while i < rows.len()
        invariant
            i <= rows.len(),
            out@ =~= rows@.subrange(0, i as int),
        decreases rows.len() - i,
    {
        out.push(rows[i].clone());
        proof {
            assert(rows@.subrange(0, i + 1 as int) =~= rows@.subrange(0, i as int).push(
                rows@[i as int],
            ));
        }
        i = i + 1;
    }
    proof {
        assert(rows@.subrange(0, rows@.len() as int) =~= rows@);
    }
    out
}

/// Clone a country list, keeping the rows.
fn clone_countries(rows: &Vec<Country>) -> (r: Vec<Country>)
    ensures
        r@ == rows@,
{
    let mut out: Vec<Country> = Vec::new();
    let mut i: usize = 0;
    while i < rows.len()
        invariant
            i <= rows.len(),
            out@ =~= rows@.subrange(0, i as int),
        decreases rows.len() - i,
    {
        out.push(rows[i].clone());
        proof {
            assert(rows@.subrange(0, i + 1 as int) =~= rows@.subrange(0, i as int).push(
                rows@[i as int],
            ));
        }
        i = i + 1;
    }
    proof {
        assert(rows@.subrange(0, rows@.len() as int) =~= rows@);
    }
    out
}

} // verus!
