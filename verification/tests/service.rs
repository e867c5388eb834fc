use rustql::db::DatabaseHandler;
use rustql::endpoint::handle_post;
use rustql::graphql::GraphQLHandler;
use rustql::models::Product;

const JSON: &str = "application/json";

fn post(db: &mut DatabaseHandler, body: &str) -> (u16, String) {
    let r = handle_post(JSON, Some(body), db);
    (r.status, r.body)
}

fn parse(body: &str) -> serde_json::Value {
    serde_json::from_str(body).expect("response body must be valid JSON")
}

#[test]
fn api_version_query_answers_200_with_the_version() {
    let mut db = DatabaseHandler::new();
    let (status, body) = post(&mut db, "{\"query\": \"{ apiVersion }\"}");
    assert_eq!(status, 200);
    assert_eq!(body, "{\"apiVersion\":\"0.1\"}");
    let v = parse(&body);
    assert_eq!(v.get("apiVersion").unwrap().as_str().unwrap(), "0.1");
}

#[test]
fn missing_product_collapses_to_null() {
    let mut db = DatabaseHandler::new();
    let (status, body) = post(
        &mut db,
        "{\"query\": \"{ product(id: \\\"nonexistent\\\") { id } }\"}",
    );
    assert_eq!(status, 200);
    let v = parse(&body);
    assert!(v.get("product").unwrap().is_null());
}

#[test]
fn create_product_returns_the_new_row_with_a_fresh_id() {
    let mut db = DatabaseHandler::new();
    let (status, body) = post(
        &mut db,
        "{\"mutation\": \"{ createProduct(products: [{name:\\\"Widget\\\", price: 9.99, description: \\\"x\\\", country: null}]) { id name price } }\"}",
    );
    assert_eq!(status, 200);
    let v = parse(&body);
    let rows = v.get("createProduct").unwrap().as_array().unwrap();
    assert_eq!(rows.len(), 1);
    let row = &rows[0];
    assert_eq!(row.get("name").unwrap().as_str().unwrap(), "Widget");
    assert_eq!(row.get("price").unwrap().as_f64().unwrap(), 9.99);
    let id = row.get("id").unwrap().as_str().unwrap();
    assert_eq!(id.chars().count(), 36);
    assert_eq!(db.products.len(), 1);
}

#[test]
fn wrong_content_type_is_a_client_error() {
    let mut db = DatabaseHandler::new();
    let r = handle_post("text/plain", Some("{\"query\": \"{ apiVersion }\"}"), &mut db);
    assert_eq!(r.status, 400);
    assert_eq!(r.body, "'JSON' only supported.");
}

#[test]
fn malformed_json_is_a_client_error() {
    let mut db = DatabaseHandler::new();
    let (status, body) = post(&mut db, "{ this is not json");
    assert_eq!(status, 400);
    assert_eq!(body, "could not decode request body");
}

#[test]
fn failed_body_read_is_a_server_error() {
    let mut db = DatabaseHandler::new();
    let r = handle_post(JSON, None, &mut db);
    assert_eq!(r.status, 500);
    assert_eq!(r.body, "could not read request body");
}

#[test]
fn envelope_rejects_unknown_members_and_duplicates() {
    let mut db = DatabaseHandler::new();
    let (status, _) = post(&mut db, "{\"query\": \"{ apiVersion }\", \"extra\": 1}");
    assert_eq!(status, 400);
    let (status, _) = post(
        &mut db,
        "{\"query\": \"{ apiVersion }\", \"query\": \"{ apiVersion }\"}",
    );
    assert_eq!(status, 400);
}

#[test]
fn empty_envelope_reaches_the_engine_and_fails_there() {
    let mut db = DatabaseHandler::new();
    let (status, body) = post(&mut db, "{}");
    assert_eq!(status, 200);
    assert_eq!(body, "{\"message\":\"invalid operation syntax\"}");
    let (status, body) = post(&mut db, "{\"query\": null}");
    assert_eq!(status, 200);
    assert_eq!(body, "{\"message\":\"invalid operation syntax\"}");
}

#[test]
fn unknown_field_is_an_execution_error() {
    let mut db = DatabaseHandler::new();
    let (status, body) = post(&mut db, "{\"query\": \"{ nosuch }\"}");
    assert_eq!(status, 200);
    assert_eq!(body, "[{\"message\":\"unknown field: nosuch\"}]");
}

#[test]
fn mismatched_arguments_are_an_execution_error() {
    let mut db = DatabaseHandler::new();
    let (status, body) = post(&mut db, "{\"query\": \"{ product(name: \\\"x\\\") { id } }\"}");
    assert_eq!(status, 200);
    assert_eq!(body, "[{\"message\":\"invalid arguments: product\"}]");
    let (status, body) = post(&mut db, "{\"query\": \"{ product(id: 5) { id } }\"}");
    assert_eq!(status, 200);
    assert_eq!(body, "[{\"message\":\"invalid arguments: product\"}]");
}

#[test]
fn all_products_on_an_empty_table_is_an_empty_list() {
    let mut db = DatabaseHandler::new();
    let (status, body) = post(&mut db, "{\"query\": \"{ allProducts { id } }\"}");
    assert_eq!(status, 200);
    assert_eq!(body, "{\"allProducts\":[]}");
}

#[test]
fn country_round_trip_through_the_api() {
    let mut db = DatabaseHandler::new();
    let (status, body) = post(
        &mut db,
        "{\"mutation\": \"{ createCountry(countries: [{fullName:\\\"Germany\\\", continent:\\\"Europe\\\", shortName:\\\"DE\\\"}]) { shortName } }\"}",
    );
    assert_eq!(status, 200);
    let v = parse(&body);
    let rows = v.get("createCountry").unwrap().as_array().unwrap();
    assert_eq!(rows.len(), 1);
    assert_eq!(rows[0].get("shortName").unwrap().as_str().unwrap(), "DE");

    // The lookup argument is named fullName but keys on the primary key,
    // the short name.
    let (status, body) = post(
        &mut db,
        "{\"query\": \"{ country(fullName: \\\"DE\\\") { fullName continent } }\"}",
    );
    assert_eq!(status, 200);
    let v = parse(&body);
    let c = v.get("country").unwrap();
    assert_eq!(c.get("fullName").unwrap().as_str().unwrap(), "Germany");
    assert_eq!(c.get("continent").unwrap().as_str().unwrap(), "Europe");
}

#[test]
fn all_countries_lists_every_row() {
    let mut db = DatabaseHandler::new();
    post(
        &mut db,
        "{\"mutation\": \"{ createCountry(countries: [{fullName:\\\"Germany\\\", continent:\\\"Europe\\\", shortName:\\\"DE\\\"}, {fullName:\\\"France\\\", continent:\\\"Europe\\\", shortName:\\\"FR\\\"}]) { shortName } }\"}",
    );
    let (status, body) = post(&mut db, "{\"query\": \"{ allCountries { shortName } }\"}");
    assert_eq!(status, 200);
    assert_eq!(body, "{\"allCountries\":[{\"shortName\":\"DE\"},{\"shortName\":\"FR\"}]}");
}

#[test]
fn a_colliding_create_collapses_to_an_empty_list() {
    let mut db = DatabaseHandler::new();
    let body = "{\"mutation\": \"{ createCountry(countries: [{fullName:\\\"Germany\\\", continent:\\\"Europe\\\", shortName:\\\"DE\\\"}]) { shortName } }\"}";
    let (status, _) = post(&mut db, body);
    assert_eq!(status, 200);
    let (status, second) = post(&mut db, body);
    assert_eq!(status, 200);
    assert_eq!(second, "{\"createCountry\":[]}");
    assert_eq!(db.countries.len(), 1);
}

#[test]
fn a_query_without_subselection_returns_the_whole_row() {
    let mut db = DatabaseHandler {
        products: vec![Product {
            id: "p1".to_string(),
            name: "Widget".to_string(),
            price: "9.99".to_string(),
            description: None,
            country: None,
        }],
        countries: Vec::new(),
    };
    let (status, body) = post(&mut db, "{\"query\": \"{ product(id: \\\"p1\\\") }\"}");
    assert_eq!(status, 200);
    assert_eq!(
        body,
        "{\"product\":{\"id\":\"p1\",\"name\":\"Widget\",\"price\":9.99,\"description\":null,\"country\":null}}"
    );
}

#[test]
fn string_escapes_survive_both_wire_layers() {
    let mut db = DatabaseHandler::new();
    // The JSON envelope decodes A to A; the GraphQL literal decodes
    // \" and \n; the response re-escapes what needs escaping.
    let (status, body) = post(
        &mut db,
        "{\"mutation\": \"{ createProduct(products: [{name:\\\"s\\\\\\\"y\\\\nz \\u0041\\\", price: 1}]) { name } }\"}",
    );
    assert_eq!(status, 200);
    let v = parse(&body);
    let rows = v.get("createProduct").unwrap().as_array().unwrap();
    assert_eq!(rows[0].get("name").unwrap().as_str().unwrap(), "s\"y\nz A");
}

#[test]
fn surrogate_pair_escapes_decode_to_one_character() {
    let mut db = DatabaseHandler::new();
    let (status, body) = post(
        &mut db,
        "{\"mutation\": \"{ createProduct(products: [{name:\\\"\\uD83D\\uDE00\\\", price: 1}]) { name } }\"}",
    );
    assert_eq!(status, 200);
    let v = parse(&body);
    let rows = v.get("createProduct").unwrap().as_array().unwrap();
    assert_eq!(rows[0].get("name").unwrap().as_str().unwrap(), "\u{1F600}");
}

#[test]
fn execute_reports_unparsable_text_as_a_schema_error() {
    let mut db = DatabaseHandler::new();
    let err = GraphQLHandler::execute("not a query", &mut db).unwrap_err();
    assert_eq!(err.message, "invalid operation syntax");
    let (value, errs) = GraphQLHandler::execute("query { apiVersion }", &mut db).unwrap();
    assert!(errs.is_empty());
    assert_eq!(value.fields.len(), 1);
    assert_eq!(value.fields[0].0, "apiVersion");
}

#[test]
fn read_after_write_through_the_api() {
    let mut db = DatabaseHandler::new();
    let (_, create_body) = post(
        &mut db,
        "{\"mutation\": \"{ createProduct(products: [{name:\\\"A\\\", price: 1}, {name:\\\"B\\\", price: 2}]) { id name } }\"}",
    );
    let (_, read_body) = post(&mut db, "{\"query\": \"{ allProducts { id name } }\"}");
    let created = parse(&create_body);
    let read = parse(&read_body);
    assert_eq!(
        created.get("createProduct").unwrap(),
        read.get("allProducts").unwrap()
    );
}

#[test]
fn several_selections_resolve_in_order() {
    let mut db = DatabaseHandler::new();
    let (status, body) = post(&mut db, "{\"query\": \"{ apiVersion allProducts { id } allCountries { shortName } }\"}");
    assert_eq!(status, 200);
    assert_eq!(
        body,
        "{\"apiVersion\":\"0.1\",\"allProducts\":[],\"allCountries\":[]}"
    );
}

#[test]
fn an_unknown_field_among_known_ones_keeps_the_errors_first() {
    let mut db = DatabaseHandler::new();
    let (status, body) = post(&mut db, "{\"query\": \"{ apiVersion nosuch }\"}");
    assert_eq!(status, 200);
    // Execution errors take precedence over the value.
    assert_eq!(body, "[{\"message\":\"unknown field: nosuch\"}]");
}

#[test]
fn a_subselection_name_that_is_no_field_selects_nothing() {
    let mut db = DatabaseHandler {
        products: vec![Product {
            id: "p1".to_string(),
            name: "Widget".to_string(),
            price: "9.99".to_string(),
            description: None,
            country: None,
        }],
        countries: Vec::new(),
    };
    let (status, body) = post(
        &mut db,
        "{\"query\": \"{ product(id: \\\"p1\\\") { name bogus price } }\"}",
    );
    assert_eq!(status, 200);
    assert_eq!(body, "{\"product\":{\"name\":\"Widget\",\"price\":9.99}}");
}

#[test]
fn the_query_member_wins_over_the_mutation_member() {
    let mut db = DatabaseHandler::new();
    let (status, body) = post(
        &mut db,
        "{\"mutation\": \"{ createProduct(products: [{name:\\\"X\\\", price: 1}]) { id } }\", \"query\": \"{ apiVersion }\"}",
    );
    assert_eq!(status, 200);
    assert_eq!(body, "{\"apiVersion\":\"0.1\"}");
    assert_eq!(db.products.len(), 0);
}

#[test]
fn the_mutation_keyword_prefix_is_accepted() {
    let mut db = DatabaseHandler::new();
    let (status, body) = post(
        &mut db,
        "{\"mutation\": \"mutation { createProduct(products: []) { id } }\"}",
    );
    assert_eq!(status, 200);
    assert_eq!(body, "{\"createProduct\":[]}");
}

#[test]
fn duplicate_input_members_are_an_argument_error() {
    let mut db = DatabaseHandler::new();
    let (status, body) = post(
        &mut db,
        "{\"mutation\": \"{ createProduct(products: [{name:\\\"A\\\", name:\\\"B\\\", price: 1}]) { id } }\"}",
    );
    assert_eq!(status, 200);
    assert_eq!(body, "[{\"message\":\"invalid arguments: createProduct\"}]");
}

#[test]
fn an_input_without_its_required_members_is_an_argument_error() {
    let mut db = DatabaseHandler::new();
    let (status, body) = post(
        &mut db,
        "{\"mutation\": \"{ createProduct(products: [{name:\\\"A\\\"}]) { id } }\"}",
    );
    assert_eq!(status, 200);
    assert_eq!(body, "[{\"message\":\"invalid arguments: createProduct\"}]");
}
