use specscan::openapi::Fixable;
use specscan::openapi::FixableType;
use specscan::openapi::IssueScoreImpact;
use specscan::openapi::Scanner;
use specscan::openapi::ScoreState;
use specscan::openapi::WeightScore;
use specscan::parser::ApiSpecificationType;
use specscan::parser::Parser;
use specscan::parser::ParserError;
use specscan::parser::modify_score;

fn scan(text: &str) -> Result<Vec<Fixable>, ParserError> {
    let mut scanner = Scanner::new(text);
    scanner.scan()
}

fn scan_with_scores(text: &str) -> (Vec<Fixable>, ScoreState) {
    let mut scanner = Scanner::new(text);
    let fixables = scanner.scan().unwrap();
    (fixables, scanner.scores())
}

#[test]
fn empty_input_fails_with_invalid_input_text() {
    assert!(matches!(scan(""), Err(ParserError::InvalidInputText)));
}

#[test]
fn unknown_dialect_fails_with_invalid_specification_type() {
    assert!(matches!(
        scan("{\"swagger\": \"2.0\"}"),
        Err(ParserError::InvalidSpecificationType)
    ));
    assert!(matches!(
        scan("no specification here"),
        Err(ParserError::InvalidSpecificationType)
    ));
}

#[test]
fn wsdl_dialect_fails_as_an_unsupported_extension() {
    assert!(matches!(
        scan("<definitions xmlns=\"x\"></definitions>"),
        Err(ParserError::ParseFailed(_))
    ));
}

#[test]
fn empty_servers_array_yields_one_critical_finding() {
    let (fixables, scores) = scan_with_scores("{\"openapi\": \"3.0.1\", \"servers\": []}");
    assert_eq!(fixables.len(), 1);
    assert_eq!(fixables[0].weight_score(), WeightScore::Critical);
    assert_eq!(fixables[0].fixable_type(), FixableType::Error);
    assert_eq!(fixables[0].line(), 0);
    assert_eq!(
        scores.security_score,
        30 - IssueScoreImpact::NO_SERVER_BASE_URL_DEFINED_VALUE
    );
    assert_eq!(scores.data_validation_score, 70);
}

#[test]
fn absent_servers_section_yields_one_critical_finding() {
    let (fixables, scores) = scan_with_scores("{\"openapi\": \"3.0.1\"}");
    assert_eq!(fixables.len(), 1);
    assert_eq!(fixables[0].weight_score(), WeightScore::Critical);
    assert_eq!(scores.security_score, 20);
}

#[test]
fn servers_with_only_empty_urls_yield_one_critical_finding() {
    let (fixables, scores) = scan_with_scores(
        "{\"openapi\": \"3.0.1\", \"servers\": [{\"url\": \"\"}, {\"url\": \"\"}]}",
    );
    assert_eq!(fixables.len(), 1);
    assert_eq!(fixables[0].weight_score(), WeightScore::Critical);
    assert_eq!(scores.security_score, 20);
}

#[test]
fn a_non_empty_server_url_satisfies_the_server_rule() {
    let (fixables, scores) = scan_with_scores(
        "{\"openapi\": \"3.0.1\", \"servers\": [{\"url\": \"https://api.example\"}]}",
    );
    assert_eq!(fixables.len(), 0);
    assert_eq!(scores.security_score, 30);
    assert_eq!(scores.data_validation_score, 70);
}

#[test]
fn response_content_without_schema_is_flagged() {
    let t = "{\"openapi\": \"3.0.1\", \"servers\": [{\"url\": \"u\"}], \"paths\": {\"/pets\": {\"get\": {\"responses\": {\"200\": {\"description\": \"ok\", \"content\": {\"application/json\": {}}}}}}}}";
    let (fixables, scores) = scan_with_scores(t);
    assert_eq!(fixables.len(), 1);
    assert_eq!(fixables[0].weight_score(), WeightScore::High);
    assert_eq!(
        fixables[0].error(),
        "Undocumented media-type schema. Path: /pets, status: 200, media type: application/json"
    );
    assert_eq!(
        scores.data_validation_score,
        70 - IssueScoreImpact::RESPONSE_CONTENT_WITHOUT_SCHEMA_VALUE
    );
    assert_eq!(scores.security_score, 30);
}

#[test]
fn response_content_with_schema_ref_is_not_flagged() {
    let t = "{\"openapi\": \"3.0.1\", \"servers\": [{\"url\": \"u\"}], \"paths\": {\"/pets\": {\"get\": {\"responses\": {\"200\": {\"content\": {\"application/json\": {\"schema\": {\"$ref\": \"#/components/schemas/Pet\"}}}}}}}}}";
    let (fixables, scores) = scan_with_scores(t);
    assert_eq!(fixables.len(), 0);
    assert_eq!(scores.data_validation_score, 70);
}

#[test]
fn unbounded_array_and_string_properties_are_flagged_in_rule_order() {
    let t = "{\"openapi\": \"3.0.1\", \"servers\": [{\"url\": \"u\"}], \"components\": {\"schemas\": {\"Pet\": {\"type\": \"object\", \"properties\": {\"tags\": {\"type\": \"array\"}, \"name\": {\"type\": \"string\"}}}}}}";
    let (fixables, scores) = scan_with_scores(t);
    // Rule order: unbounded array, then unbounded string, then unvalidated
    // string.
    assert_eq!(fixables.len(), 3);
    assert_eq!(
        fixables[0].error(),
        "Unbounded array property. Schema: Pet, property: tags"
    );
    assert_eq!(fixables[0].weight_score(), WeightScore::High);
    assert_eq!(
        fixables[1].error(),
        "String property without a maximum length. Schema: Pet, property: name"
    );
    assert_eq!(fixables[1].weight_score(), WeightScore::Medium);
    assert_eq!(
        fixables[2].error(),
        "String property without a validation pattern. Schema: Pet, property: name"
    );
    assert_eq!(fixables[2].weight_score(), WeightScore::Medium);
    assert_eq!(scores.data_validation_score, 70 - 7 - 2 - 3);
}

#[test]
fn bounded_and_validated_properties_are_not_flagged() {
    let t = "{\"openapi\": \"3.0.1\", \"servers\": [{\"url\": \"u\"}], \"components\": {\"schemas\": {\"Pet\": {\"properties\": {\"tags\": {\"type\": \"array\", \"maxItems\": 10}, \"name\": {\"type\": \"string\", \"maxLength\": 64, \"pattern\": \"abc\"}}}}}}";
    let (fixables, scores) = scan_with_scores(t);
    assert_eq!(fixables.len(), 0);
    assert_eq!(scores.data_validation_score, 70);
}

#[test]
fn string_with_max_length_but_no_pattern_is_flagged_once() {
    let t = "{\"openapi\": \"3.0.1\", \"servers\": [{\"url\": \"u\"}], \"components\": {\"schemas\": {\"Pet\": {\"properties\": {\"name\": {\"type\": \"string\", \"maxLength\": 64}}}}}}";
    let (fixables, scores) = scan_with_scores(t);
    assert_eq!(fixables.len(), 1);
    assert_eq!(
        fixables[0].error(),
        "String property without a validation pattern. Schema: Pet, property: name"
    );
    assert_eq!(
        scores.data_validation_score,
        70 - IssueScoreImpact::STRING_PROPERTY_WITHOUT_REGEX_PATTERN_VALUE
    );
}

#[test]
fn server_finding_comes_before_data_findings() {
    let t = "{\"openapi\": \"3.0.1\", \"components\": {\"schemas\": {\"Pet\": {\"properties\": {\"tags\": {\"type\": \"array\"}}}}}}";
    let (fixables, scores) = scan_with_scores(t);
    assert_eq!(fixables.len(), 2);
    assert_eq!(fixables[0].weight_score(), WeightScore::Critical);
    assert_eq!(
        fixables[1].error(),
        "Unbounded array property. Schema: Pet, property: tags"
    );
    assert_eq!(scores.security_score, 20);
    assert_eq!(scores.data_validation_score, 70 - 7);
}

#[test]
fn saturating_subtraction_stops_at_zero() {
    let mut score: u8 = 5;
    modify_score(&mut score, 10);
    assert_eq!(score, 0);
    let mut other: u8 = 10;
    modify_score(&mut other, 3);
    assert_eq!(other, 7);
}

#[test]
fn scanning_twice_reports_identical_findings_and_scores() {
    let t = "{\"openapi\": \"3.0.1\", \"components\": {\"schemas\": {\"Pet\": {\"properties\": {\"tags\": {\"type\": \"array\"}, \"name\": {\"type\": \"string\"}}}}}}";
    let (f1, s1) = scan_with_scores(t);
    let (f2, s2) = scan_with_scores(t);
    assert_eq!(f1.len(), f2.len());
    for (a, b) in f1.iter().zip(f2.iter()) {
        assert_eq!(a.error(), b.error());
        assert_eq!(a.line(), b.line());
        assert_eq!(a.weight_score(), b.weight_score());
        assert_eq!(a.fixable_type(), b.fixable_type());
    }
    assert_eq!(s1, s2);
}

#[test]
fn scanner_keeps_findings_and_scores_of_the_last_scan() {
    let t = "{\"openapi\": \"3.0.1\", \"servers\": []}";
    let mut scanner = Scanner::new(t);
    let returned = scanner.scan().unwrap();
    assert_eq!(scanner.fixables().len(), returned.len());
    assert_eq!(scanner.fixables()[0].error(), returned[0].error());
    assert_eq!(scanner.scores().security_score, 20);
}

#[test]
fn structural_error_in_a_detected_openapi_text_is_a_json_parse_error() {
    // serde_json accepts the exponent form, the scanner's own syntax does
    // not: the dialect is detected but the structural parse fails.
    let t = "{\"openapi\": \"3.0.1\", \"n\": 1e5}";
    assert!(matches!(scan(t), Err(ParserError::JSONParseError(_))));
}

#[test]
fn malformed_known_section_is_a_parse_failure() {
    let t = "{\"openapi\": \"3.0.1\", \"servers\": \"not an array\"}";
    assert!(matches!(scan(t), Err(ParserError::ParseFailed(_))));
}

#[test]
fn server_entry_without_url_is_a_parse_failure() {
    let t = "{\"openapi\": \"3.0.1\", \"servers\": [{\"name\": \"x\"}]}";
    assert!(matches!(scan(t), Err(ParserError::ParseFailed(_))));
}

#[test]
fn numeric_bound_with_a_dot_is_a_parse_failure() {
    let t = "{\"openapi\": \"3.0.1\", \"components\": {\"schemas\": {\"P\": {\"properties\": {\"n\": {\"type\": \"string\", \"maxLength\": 1.5}}}}}}";
    assert!(matches!(scan(t), Err(ParserError::ParseFailed(_))));
}

#[test]
fn parser_rejects_empty_text_before_dialect_dispatch() {
    let mut parser = Parser::new("");
    let r = parser.parse(&ApiSpecificationType::OpenApiRest);
    assert!(matches!(r, Err(ParserError::InvalidInputText)));
}

#[test]
fn parser_rejects_the_unknown_dialect() {
    let mut parser = Parser::new("{\"openapi\": \"3.0.1\"}");
    let r = parser.parse(&ApiSpecificationType::Unknown);
    assert!(matches!(r, Err(ParserError::InvalidSpecificationType)));
}

#[test]
fn parser_reports_wsdl_as_unsupported() {
    let mut parser = Parser::new("<definitions/>");
    let r = parser.parse(&ApiSpecificationType::SoapWSDL);
    assert!(matches!(r, Err(ParserError::ParseFailed(_))));
}

#[test]
fn parser_keeps_the_scores_of_a_successful_parse() {
    let mut parser = Parser::new("{\"openapi\": \"3.0.1\", \"servers\": []}");
    let fixables = parser.parse(&ApiSpecificationType::OpenApiRest).unwrap();
    assert_eq!(fixables.len(), 1);
    assert_eq!(parser.scores().security_score, 20);
    assert_eq!(parser.scores().data_validation_score, 70);
}

#[test]
fn error_messages_describe_the_failure() {
    let e = ParserError::InvalidInputText;
    assert_eq!(
        e.message(),
        "Invalid input text. Either input specification text is empty or not valid"
    );
    let p = ParserError::ParseFailed(String::from("cause"));
    assert_eq!(
        p.message(),
        "Error occurred while parsing input specification text: cause"
    );
}

#[test]
fn score_state_starts_at_its_category_budgets() {
    let s = ScoreState::initial();
    assert_eq!(s.data_validation_score, ScoreState::INITIAL_DATA_VALIDATION_SCORE);
    assert_eq!(s.security_score, ScoreState::INITIAL_SECURITY_SCORE);
    assert_eq!(s.data_validation_score, 70);
    assert_eq!(s.security_score, 30);
}

#[test]
fn rule_weights_match_the_rule_table() {
    assert_eq!(IssueScoreImpact::ARRAY_WITHOUT_MAX_ITEMS_VALUE, 7);
    assert_eq!(IssueScoreImpact::STRING_PROPERTY_WITHOUT_MAX_LENGTH_VALUE, 2);
    assert_eq!(IssueScoreImpact::STRING_PROPERTY_WITHOUT_REGEX_PATTERN_VALUE, 3);
    assert_eq!(IssueScoreImpact::RESPONSE_CONTENT_WITHOUT_SCHEMA_VALUE, 3);
    assert_eq!(IssueScoreImpact::NO_SERVER_BASE_URL_DEFINED_VALUE, 10);
    assert_eq!(WeightScore::LOW_VALUE, 1);
    assert_eq!(WeightScore::MEDIUM_VALUE, 2);
    assert_eq!(WeightScore::HIGH_VALUE, 3);
    assert_eq!(WeightScore::CRITICAL_VALUE, 4);
}

#[test]
fn severity_maps_to_category_at_the_medium_threshold() {
    let low = Fixable::new(String::from("m"), 0, WeightScore::Low);
    assert_eq!(low.fixable_type(), FixableType::Warning);
    let medium = Fixable::new(String::from("m"), 0, WeightScore::Medium);
    assert_eq!(medium.fixable_type(), FixableType::Error);
    let high = Fixable::new(String::from("m"), 0, WeightScore::High);
    assert_eq!(high.fixable_type(), FixableType::Error);
    let critical = Fixable::new(String::from("m"), 0, WeightScore::Critical);
    assert_eq!(critical.fixable_type(), FixableType::Error);
}

#[test]
fn every_error_variant_has_a_message() {
    assert!(ParserError::InvalidSOAPSpec.message().contains("SOAP"));
    assert!(ParserError::InvalidSpecificationType.message().contains("Specification Type"));
    assert_eq!(ParserError::JSONParseError(String::from("j")).message(), "j");
    assert_eq!(ParserError::NumberFormatError(String::from("n")).message(), "n");
    assert_eq!(ParserError::DataValidationError(String::from("d")).message(), "d");
    assert_eq!(
        ParserError::IncompatibleSpecificationAndDocumentType(
            String::from("SOAP WSDL"),
            String::from("Open API")
        )
        .message(),
        "Specification type: SOAP WSDL is incompatible with Open API type documents"
    );
}
