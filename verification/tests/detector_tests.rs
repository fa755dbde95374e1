use specscan::openapi::guess_spec_type_from_text;
use specscan::parser::ApiSpecificationType;
use specscan::parser::is_wsdl_spec_v2;

#[test]
fn json_with_openapi_key_is_openapi_rest() {
    let t = "{\"openapi\": \"3.0.1\"}";
    assert_eq!(guess_spec_type_from_text(t), ApiSpecificationType::OpenApiRest);
}

#[test]
fn json_with_openapi_key_among_others_is_openapi_rest() {
    let t = "{\"info\": {\"title\": \"t\"}, \"openapi\": \"3.0.1\", \"paths\": {}}";
    assert_eq!(guess_spec_type_from_text(t), ApiSpecificationType::OpenApiRest);
}

#[test]
fn json_without_openapi_key_is_unknown() {
    let t = "{\"swagger\": \"2.0\"}";
    assert_eq!(guess_spec_type_from_text(t), ApiSpecificationType::Unknown);
}

#[test]
fn wsdl_root_marker_is_soap_wsdl() {
    let t = "<definitions xmlns=\"http://schemas.xmlsoap.org/wsdl/\"></definitions>";
    assert_eq!(guess_spec_type_from_text(t), ApiSpecificationType::SoapWSDL);
}

#[test]
fn wsdl_marker_is_found_despite_case_and_spaces() {
    let t = "  < DEFINITIONS name=\"svc\">";
    assert_eq!(guess_spec_type_from_text(t), ApiSpecificationType::SoapWSDL);
    assert!(is_wsdl_spec_v2(t));
}

#[test]
fn wsdl_marker_outside_the_first_fifty_characters_is_not_seen() {
    let pad = "x".repeat(60);
    let t = format!("{}<definitions>", pad);
    assert!(!is_wsdl_spec_v2(&t));
    assert_eq!(guess_spec_type_from_text(&t), ApiSpecificationType::Unknown);
}

#[test]
fn short_non_wsdl_text_does_not_panic() {
    assert!(!is_wsdl_spec_v2("<def"));
    assert!(!is_wsdl_spec_v2(""));
}

#[test]
fn plain_prose_is_unknown() {
    assert_eq!(
        guess_spec_type_from_text("hello there, this is not a specification"),
        ApiSpecificationType::Unknown
    );
}

#[test]
fn dialects_have_display_names() {
    assert_eq!(ApiSpecificationType::OpenApiRest.display_name(), "Open API");
    assert_eq!(ApiSpecificationType::SoapWSDL.display_name(), "SOAP WSDL");
    assert_eq!(ApiSpecificationType::Unknown.display_name(), "Unknown");
}
