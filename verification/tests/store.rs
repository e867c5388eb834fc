use rustql::db::DatabaseHandler;
use rustql::error::ErrorKind;
use rustql::models::{Country, CountryInput, Product, ProductInput};

fn widget_input() -> ProductInput {
    ProductInput {
        name: "Widget".to_string(),
        description: Some("x".to_string()),
        price: "9.99".to_string(),
        country: None,
    }
}

fn germany_input() -> CountryInput {
    CountryInput {
        full_name: "Germany".to_string(),
        continent: "Europe".to_string(),
        short_name: "DE".to_string(),
    }
}

fn product(id: &str, name: &str) -> Product {
    Product {
        id: id.to_string(),
        name: name.to_string(),
        price: "1.5".to_string(),
        description: None,
        country: None,
    }
}

#[test]
fn to_product_assigns_fresh_id_and_copies_fields() {
    let input = widget_input();
    let p = input.to_product();
    assert_eq!(p.id.chars().count(), 36);
    assert!(!p.id.is_empty());
    assert_eq!(p.name, "Widget");
    assert_eq!(p.price, "9.99");
    assert_eq!(p.description, Some("x".to_string()));
    assert_eq!(p.country, None);
}

#[test]
fn to_product_ids_differ_across_calls() {
    let input = widget_input();
    let a = input.to_product();
    let b = input.to_product();
    assert_ne!(a.id, b.id);
}

#[test]
fn to_country_copies_all_fields() {
    let c = germany_input().to_country();
    assert_eq!(c.full_name, "Germany");
    assert_eq!(c.continent, "Europe");
    assert_eq!(c.short_name, "DE");
}

#[test]
fn get_by_id_on_empty_table_is_not_found() {
    let db = DatabaseHandler::new();
    let err = db.get_product_by_id(&"anything".to_string()).unwrap_err();
    assert!(matches!(err.kind, ErrorKind::LogicError));
    assert_eq!(err.message(), "product not found");

    let err = db.get_country_by_id(&"anything".to_string()).unwrap_err();
    assert!(matches!(err.kind, ErrorKind::LogicError));
    assert_eq!(err.message(), "country not found");
}

#[test]
fn get_by_id_reports_a_duplicated_key() {
    let db = DatabaseHandler {
        products: vec![product("p1", "a"), product("p1", "b")],
        countries: Vec::new(),
    };
    let err = db.get_product_by_id(&"p1".to_string()).unwrap_err();
    assert!(matches!(err.kind, ErrorKind::LogicError));
    assert_eq!(err.message(), "duplicate product id");
}

#[test]
fn get_by_id_finds_the_single_match() {
    let db = DatabaseHandler {
        products: vec![product("p1", "a"), product("p2", "b")],
        countries: Vec::new(),
    };
    let p = db.get_product_by_id(&"p2".to_string()).unwrap();
    assert_eq!(p.name, "b");
}

#[test]
fn insert_then_read_all_is_exactly_old_rows_plus_batch() {
    let mut db = DatabaseHandler::new();
    db.insert_product(&vec![product("p0", "before")]).unwrap();
    let batch = vec![product("p1", "one"), product("p2", "two")];
    db.insert_product(&batch).unwrap();
    let all = db.get_products().unwrap();
    assert_eq!(all.len(), 3);
    let ids: Vec<&str> = all.iter().map(|p| p.id.as_str()).collect();
    assert_eq!(ids, vec!["p0", "p1", "p2"]);
}

#[test]
fn insert_returns_what_a_following_read_returns() {
    let mut db = DatabaseHandler::new();
    let returned = db
        .insert_product(&vec![product("p1", "one"), product("p2", "two")])
        .unwrap();
    let read = db.get_products().unwrap();
    assert_eq!(returned.len(), read.len());
    for (a, b) in returned.iter().zip(read.iter()) {
        assert_eq!(a.id, b.id);
        assert_eq!(a.name, b.name);
    }
}

#[test]
fn insert_with_key_collision_fails_and_changes_nothing() {
    let mut db = DatabaseHandler::new();
    db.insert_product(&vec![product("p1", "one")]).unwrap();
    let err = db.insert_product(&vec![product("p1", "again")]).unwrap_err();
    assert!(matches!(err.kind, ErrorKind::DbError));
    assert_eq!(err.message(), "could not insert product: duplicate key");
    assert_eq!(db.get_products().unwrap().len(), 1);

    let err = db
        .insert_product(&vec![product("p9", "x"), product("p9", "y")])
        .unwrap_err();
    assert!(matches!(err.kind, ErrorKind::DbError));
    assert_eq!(db.get_products().unwrap().len(), 1);
}

#[test]
fn country_insert_mirrors_product_insert() {
    let mut db = DatabaseHandler::new();
    let c = germany_input().to_country();
    let returned = db.insert_country(&vec![c]).unwrap();
    assert_eq!(returned.len(), 1);
    assert_eq!(returned[0].short_name, "DE");
    let err = db
        .insert_country(&vec![germany_input().to_country()])
        .unwrap_err();
    assert!(matches!(err.kind, ErrorKind::DbError));
    assert_eq!(err.message(), "could not insert country: duplicate key");
}

#[test]
fn error_constructors_tag_and_keep_the_message() {
    let e = rustql::error::Error::db("boom");
    assert!(matches!(e.kind, ErrorKind::DbError));
    assert_eq!(e.message(), "boom");
    let e = rustql::error::Error::logic("nope");
    assert!(matches!(e.kind, ErrorKind::LogicError));
    assert_eq!(e.message(), "nope");
}

#[test]
fn product_wire_round_trip_preserves_fields() {
    let p = Product {
        id: "id-1".to_string(),
        name: "Widget".to_string(),
        price: "9.99".to_string(),
        description: Some("x".to_string()),
        country: Some("DE".to_string()),
    };
    let o = p.to_json();
    let q = Product::from_json(&o).unwrap();
    assert_eq!(q.id, p.id);
    assert_eq!(q.name, p.name);
    assert_eq!(q.price, p.price);
    assert_eq!(q.description, p.description);
    assert_eq!(q.country, p.country);
}

#[test]
fn product_wire_round_trip_keeps_absent_options() {
    let p = product("id-2", "bare");
    let q = Product::from_json(&p.to_json()).unwrap();
    assert_eq!(q.description, None);
    assert_eq!(q.country, None);
}

#[test]
fn country_wire_round_trip_preserves_fields() {
    let c = germany_input().to_country();
    let o = c.to_json();
    let d = Country::from_json(&o).unwrap();
    assert_eq!(d.full_name, "Germany");
    assert_eq!(d.continent, "Europe");
    assert_eq!(d.short_name, "DE");
}

#[test]
fn from_json_rejects_a_wrong_shape() {
    let c = germany_input().to_country();
    assert!(Product::from_json(&c.to_json()).is_none());
    let p = product("id-3", "p");
    assert!(Country::from_json(&p.to_json()).is_none());
}
