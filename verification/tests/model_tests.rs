use specscan::json::parse_json_tokens;
use specscan::lexer::tokenize;
use specscan::openapi::OpenApiDoc;
use specscan::openapi::project_document;
use specscan::parser::Document;

fn project(text: &str) -> OpenApiDoc {
    let toks = tokenize(text).unwrap();
    let v = parse_json_tokens(&toks).unwrap();
    project_document(&v).unwrap()
}

#[test]
fn new_document_only_records_the_version() {
    let d = OpenApiDoc::new("3.0.1");
    assert_eq!(d.openapi.as_deref(), Some("3.0.1"));
    assert!(d.info.is_none());
    assert!(d.servers().is_none());
    assert!(d.paths().is_empty());
    assert!(d.components().is_none());
}

#[test]
fn missing_optional_sections_yield_empty_collections() {
    let d = project("{\"openapi\": \"3.0.1\"}");
    assert!(d.servers().is_none());
    assert!(d.paths().is_empty());
    assert!(d.components().is_none());
    assert!(d.security_schemes().is_empty());
}

#[test]
fn servers_keep_their_declared_urls_in_order() {
    let d = project("{\"servers\": [{\"url\": \"a\"}, {\"url\": \"b\"}]}");
    let servers = d.servers().as_ref().unwrap();
    assert_eq!(servers.len(), 2);
    assert_eq!(servers[0].url, "a");
    assert_eq!(servers[1].url, "b");
}

#[test]
fn paths_keep_declaration_order_and_verbs() {
    let t = "{\"paths\": {\"/b\": {\"post\": {\"responses\": {}}}, \"/a\": {\"get\": {\"tags\": [\"x\"]}}}}";
    let d = project(t);
    let paths = d.paths();
    assert_eq!(paths.len(), 2);
    assert_eq!(paths[0].0, "/b");
    assert_eq!(paths[1].0, "/a");
    assert!(paths[0].1.post.is_some());
    assert!(paths[0].1.get.is_none());
    let get_op = paths[1].1.get.as_ref().unwrap();
    assert_eq!(get_op.tags, vec![String::from("x")]);
}

#[test]
fn operations_expose_parameter_names_and_responses() {
    let t = "{\"paths\": {\"/a\": {\"get\": {\"parameters\": [{\"name\": \"id\"}], \"responses\": {\"200\": {\"description\": \"ok\"}, \"404\": {\"description\": \"missing\"}}}}}}";
    let d = project(t);
    let op = d.paths()[0].1.get.as_ref().unwrap();
    assert_eq!(op.parameters, vec![String::from("id")]);
    assert_eq!(op.responses.len(), 2);
    assert_eq!(op.responses[0].0, "200");
    assert_eq!(op.responses[0].1.description, "ok");
    assert_eq!(op.responses[1].0, "404");
}

#[test]
fn content_entries_carry_their_schema_references() {
    let t = "{\"paths\": {\"/a\": {\"get\": {\"responses\": {\"200\": {\"content\": {\"application/json\": {\"schema\": {\"$ref\": \"#/components/schemas/Pet\"}}, \"text/plain\": {}}}}}}}}";
    let d = project(t);
    let op = d.paths()[0].1.get.as_ref().unwrap();
    let content = &op.responses[0].1.content;
    assert_eq!(content.len(), 2);
    assert_eq!(content[0].0, "application/json");
    assert_eq!(
        content[0].1.as_ref().unwrap().reference,
        "#/components/schemas/Pet"
    );
    assert!(content[1].1.is_none());
}

#[test]
fn properties_keep_their_bounds_and_patterns() {
    let t = "{\"components\": {\"schemas\": {\"Pet\": {\"type\": \"object\", \"required\": [\"name\"], \"properties\": {\"name\": {\"type\": \"string\", \"maxLength\": 64, \"minLength\": 1, \"pattern\": \"abc\"}, \"tags\": {\"type\": \"array\", \"maxItems\": 4294967295}}}}}}";
    let d = project(t);
    let components = d.components().as_ref().unwrap();
    assert_eq!(components.schemas.len(), 1);
    let (name, schema) = &components.schemas[0];
    assert_eq!(name, "Pet");
    assert_eq!(schema.type_, "object");
    assert_eq!(schema.required, vec![String::from("name")]);
    let (pname, prop) = &schema.properties[0];
    assert_eq!(pname, "name");
    assert_eq!(prop.type_, "string");
    assert_eq!(prop.max_length, Some(64));
    assert_eq!(prop.min_length, Some(1));
    assert_eq!(prop.pattern.as_deref(), Some("abc"));
    assert_eq!(prop.max_items, None);
    let (_, tags) = &schema.properties[1];
    assert_eq!(tags.max_items, Some(4294967295));
}

#[test]
fn security_schemes_are_exposed_through_the_document() {
    let t = "{\"components\": {\"securitySchemes\": {\"bearer\": {\"type\": \"http\", \"scheme\": \"bearer\", \"bearerFormat\": \"JWT\", \"description\": \"d\"}}}}";
    let d = project(t);
    let schemes = d.security_schemes();
    assert_eq!(schemes.len(), 1);
    assert_eq!(schemes[0].0, "bearer");
    assert_eq!(schemes[0].1.type_, "http");
    assert_eq!(schemes[0].1.scheme, "bearer");
    assert_eq!(schemes[0].1.bearer_format, "JWT");
    assert_eq!(schemes[0].1.description, "d");
}

#[test]
fn info_section_keeps_title_and_version() {
    let d = project("{\"info\": {\"title\": \"Pets\", \"version\": \"1.0\"}}");
    let info = d.info.as_ref().unwrap();
    assert_eq!(info.title, "Pets");
    assert_eq!(info.version, "1.0");
}

#[test]
fn numeric_bound_too_large_for_u32_is_rejected() {
    let t = "{\"components\": {\"schemas\": {\"P\": {\"properties\": {\"n\": {\"maxLength\": 4294967296}}}}}}";
    let toks = tokenize(t).unwrap();
    let v = parse_json_tokens(&toks).unwrap();
    assert!(project_document(&v).is_err());
}

#[test]
fn a_document_names_its_own_type() {
    let d = project("{\"openapi\": \"3.0.1\"}");
    let wrapped = Document::OpenAPI(d);
    assert_eq!(wrapped.display_name(), "Open API");
}
