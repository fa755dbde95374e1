//! The OpenAPI document model, the findings report types, and the scanner
//! entry point.
//!
//! The model generalizes the deeply nested schema data of an OpenAPI
//! document into a small number of shapes: a document exposes servers,
//! paths (one optional operation per HTTP verb), components and security
//! schemes, all in declaration order.

use vstd::prelude::*;

use crate::json::JsonVal;
use crate::json::JsonValue;
use crate::json::membs_abs;
use crate::json::obj_get;
use crate::json::sp_obj_get;
use crate::json::vals_abs;
use crate::lexer::is_digit_char;
use crate::parser::ParserError;

verus! {

// ---------------------------------------------------------------------------
// Severity weights, score impacts, findings
// ---------------------------------------------------------------------------

/// The severity of a finding.
#[derive(Debug, Clone, Copy, PartialEq, Eq, Structural)]
pub enum WeightScore {
    Low,
    Medium,
    High,
    Critical,
}

impl WeightScore {
    pub const LOW_VALUE: u8 = 1;

    pub const MEDIUM_VALUE: u8 = 2;

    pub const HIGH_VALUE: u8 = 3;

    pub const CRITICAL_VALUE: u8 = 4;
}

/// How much each rule violation erodes its category score.
#[derive(Debug, Clone, Copy, PartialEq, Eq, Structural)]
pub enum IssueScoreImpact {
    ArrayWithoutMaxItems,
    StringPropertyWithoutMaxLength,
    StringPropertyWithoutRegexPattern,
    ResponseContentWithoutSchema,
    NoServerBaseUrlDefined,
}

impl IssueScoreImpact {
    pub const ARRAY_WITHOUT_MAX_ITEMS_VALUE: u8 = 7;

    pub const STRING_PROPERTY_WITHOUT_MAX_LENGTH_VALUE: u8 = 2;

    pub const STRING_PROPERTY_WITHOUT_REGEX_PATTERN_VALUE: u8 = 3;

    pub const RESPONSE_CONTENT_WITHOUT_SCHEMA_VALUE: u8 = 3;

    pub const NO_SERVER_BASE_URL_DEFINED_VALUE: u8 = 10;
}

/// Whether a finding must be fixed or may be ignored.
#[derive(Debug, Clone, Copy, PartialEq, Eq, Structural)]
pub enum FixableType {
    Error,
    Warning,
}

/// The category a severity maps to: anything of medium severity or above is
/// an error, the rest are warnings.
pub open spec fn sp_fixable_type(w: WeightScore) -> FixableType {
    match w {
        WeightScore::Low => FixableType::Warning,
        _ => FixableType::Error,
    }
}

impl From<WeightScore> for FixableType {
    fn from(value: WeightScore) -> (r: Self) {
        match value {
            WeightScore::Medium | WeightScore::Critical | WeightScore::High => FixableType::Error,
            _ => FixableType::Warning,
        }
    }
}

impl vstd::std_specs::convert::FromSpecImpl<WeightScore> for FixableType {
    open spec fn obeys_from_spec() -> bool {
        true
    }

    open spec fn from_spec(t: WeightScore) -> FixableType {
        sp_fixable_type(t)
    }
}

/// The abstraction of one finding.
pub ghost struct FixView {
    pub message: Seq<char>,
    pub line: u64,
    pub weight: WeightScore,
    pub category: FixableType,
}

/// One reported defect: a message, the line it concerns (0 when unknown),
/// its severity, and the derived category.
#[derive(Debug)]
pub struct Fixable {
    error: String,
    line: u64,
    weight_score: WeightScore,
    fixable_type: FixableType,
}

impl View for Fixable {
    type V = FixView;

    closed spec fn view(&self) -> FixView {
        FixView {
            message: self.error@,
            line: self.line,
            weight: self.weight_score,
            category: self.fixable_type,
        }
    }
}

impl Fixable {
    pub fn new(error: String, line: u64, weight_score: WeightScore) -> (r: Self)
        ensures
            r@.message == error@,
            r@.line == line,
            r@.weight == weight_score,
            r@.category == sp_fixable_type(weight_score),
    {
        let fixable_type = FixableType::from(weight_score);
        Self { error, line, weight_score, fixable_type }
    }

    /// The finding's message.
    pub fn error(&self) -> (r: &String)
        ensures
            r@ == self@.message,
    {
        &self.error
    }

    /// The line the finding concerns; 0 when unknown.
    pub fn line(&self) -> (r: u64)
        ensures
            r == self@.line,
    {
        self.line
    }

    /// The finding's severity.
    pub fn weight_score(&self) -> (r: WeightScore)
        ensures
            r == self@.weight,
    {
        self.weight_score
    }

    /// The finding's category, derived from its severity.
    pub fn fixable_type(&self) -> (r: FixableType)
        ensures
            r == self@.category,
    {
        self.fixable_type
    }
}

impl Clone for Fixable {
    fn clone(&self) -> (r: Self)
        ensures
            r@ == self@,
    {
        Fixable {
            error: self.error.clone(),
            line: self.line,
            weight_score: self.weight_score,
            fixable_type: self.fixable_type,
        }
    }
}

/// The abstraction of a list of findings.
pub open spec fn fixes_abs(fs: Seq<Fixable>) -> Seq<FixView> {
    Seq::new(fs.len(), |i: int| fs[i]@)
}

/// The two category scores of a scan: saturating counters that rule
/// violations erode and that never fall below zero.
#[derive(Debug, Clone, Copy, PartialEq, Eq, Structural)]
pub struct ScoreState {
    pub data_validation_score: u8,
    pub security_score: u8,
}

impl ScoreState {
    /// The initial budget of the data-validation category.
    pub const INITIAL_DATA_VALIDATION_SCORE: u8 = 70;

    /// The initial budget of the security category.
    pub const INITIAL_SECURITY_SCORE: u8 = 30;

    /// Both counters at their initial budgets.
    pub fn initial() -> (r: Self)
        ensures
            r.data_validation_score == 70,
            r.security_score == 30,
    {
        ScoreState { data_validation_score: 70, security_score: 30 }
    }
}

// ---------------------------------------------------------------------------
// Document model
// ---------------------------------------------------------------------------

/// One server entry: its base URL.
#[derive(Debug)]
pub struct Server {
    pub url: String,
}

impl View for Server {
    type V = Seq<char>;

    open spec fn view(&self) -> Seq<char> {
        self.url@
    }
}

/// The abstraction of the optional `info` section.
pub ghost struct InfoView {
    pub title: Seq<char>,
    pub version: Seq<char>,
}

/// The name and version of the described API.
#[derive(Debug)]
pub struct Info {
    pub title: String,
    pub version: String,
}

impl View for Info {
    type V = InfoView;

    open spec fn view(&self) -> InfoView {
        InfoView { title: self.title@, version: self.version@ }
    }
}

/// A reference string into the components/schemas namespace.
#[derive(Debug)]
pub struct SchemaRef {
    pub reference: String,
}

impl View for SchemaRef {
    type V = Seq<char>;

    open spec fn view(&self) -> Seq<char> {
        self.reference@
    }
}

/// The abstraction of one media-type entry of a response or request body:
/// the media type and its schema reference, if it declares one.
pub ghost struct ContentView {
    pub media_type: Seq<char>,
    pub schema: Option<Seq<char>>,
}

/// The abstraction of one response.
pub ghost struct RespView {
    pub description: Seq<char>,
    pub content: Seq<ContentView>,
}

/// One declared response: its description and its content entries (media
/// type and optional schema reference), in declaration order.
#[derive(Debug)]
pub struct Response {
    pub description: String,
    pub content: Vec<(String, Option<SchemaRef>)>,
}

impl View for Response {
    type V = RespView;

    open spec fn view(&self) -> RespView {
        RespView { description: self.description@, content: content_abs(self.content@) }
    }
}

/// The abstraction of one content entry.
pub open spec fn content1_abs(c: (String, Option<SchemaRef>)) -> ContentView {
    ContentView {
        media_type: c.0@,
        schema: match c.1 {
            Some(sr) => Some(sr@),
            None => None,
        },
    }
}

/// The abstraction of a list of content entries.
pub open spec fn content_abs(cs: Seq<(String, Option<SchemaRef>)>) -> Seq<ContentView> {
    Seq::new(cs.len(), |i: int| content1_abs(cs[i]))
}

/// The abstraction of a list of strings.
pub open spec fn strs_abs(v: Seq<String>) -> Seq<Seq<char>> {
    Seq::new(v.len(), |i: int| v[i]@)
}

/// The request body of an operation: its content entries.
#[derive(Debug)]
pub struct RequestBody {
    pub content: Vec<(String, Option<SchemaRef>)>,
}

impl View for RequestBody {
    type V = Seq<ContentView>;

    open spec fn view(&self) -> Seq<ContentView> {
        content_abs(self.content@)
    }
}

/// The abstraction of one operation.
pub ghost struct OpView {
    pub tags: Seq<Seq<char>>,
    pub parameters: Seq<Seq<char>>,
    pub request_body: Option<Seq<ContentView>>,
    pub responses: Seq<(Seq<char>, RespView)>,
}

/// One operation of a path: its tags, parameter names, optional request
/// body, and declared responses in declaration order.
#[derive(Debug)]
pub struct Operation {
    pub tags: Vec<String>,
    pub parameters: Vec<String>,
    pub request_body: Option<RequestBody>,
    pub responses: Vec<(String, Response)>,
}

impl View for Operation {
    type V = OpView;

    open spec fn view(&self) -> OpView {
        OpView {
            tags: strs_abs(self.tags@),
            parameters: strs_abs(self.parameters@),
            request_body: match self.request_body {
                Some(ref b) => Some(b@),
                None => None,
            },
            responses: resps_abs(self.responses@),
        }
    }
}

/// The abstraction of a list of named responses.
pub open spec fn resps_abs(v: Seq<(String, Response)>) -> Seq<(Seq<char>, RespView)> {
    Seq::new(v.len(), |i: int| (v[i].0@, v[i].1@))
}

/// The abstraction of one path item.
pub ghost struct PathView {
    pub get: Option<OpView>,
    pub post: Option<OpView>,
    pub put: Option<OpView>,
    pub patch: Option<OpView>,
    pub delete: Option<OpView>,
}

/// One path of the API: an optional operation per HTTP verb.
#[derive(Debug)]
pub struct PathData {
    pub get: Option<Operation>,
    pub post: Option<Operation>,
    pub put: Option<Operation>,
    pub patch: Option<Operation>,
    pub delete: Option<Operation>,
}

/// The abstraction of an optional operation.
pub open spec fn op_abs(o: Option<Operation>) -> Option<OpView> {
    match o {
        Some(op) => Some(op@),
        None => None,
    }
}

impl View for PathData {
    type V = PathView;

    open spec fn view(&self) -> PathView {
        PathView {
            get: op_abs(self.get),
            post: op_abs(self.post),
            put: op_abs(self.put),
            patch: op_abs(self.patch),
            delete: op_abs(self.delete),
        }
    }
}

/// The abstraction of one schema property.
pub ghost struct PropView {
    pub type_: Seq<char>,
    pub max_length: Option<u32>,
    pub min_length: Option<u32>,
    pub pattern: Option<Seq<char>>,
    pub max_items: Option<u32>,
}

/// One property of a component schema: its declared type and the bounds and
/// validation it declares.
#[derive(Debug)]
pub struct Property {
    pub type_: String,
    pub max_length: Option<u32>,
    pub min_length: Option<u32>,
    pub pattern: Option<String>,
    pub max_items: Option<u32>,
}

impl View for Property {
    type V = PropView;

    open spec fn view(&self) -> PropView {
        PropView {
            type_: self.type_@,
            max_length: self.max_length,
            min_length: self.min_length,
            pattern: match self.pattern {
                Some(ref p) => Some(p@),
                None => None,
            },
            max_items: self.max_items,
        }
    }
}

/// The abstraction of one component schema.
pub ghost struct ComponentSchemaView {
    pub required: Seq<Seq<char>>,
    pub type_: Seq<char>,
    pub properties: Seq<(Seq<char>, PropView)>,
}

/// One named schema under the components section.
#[derive(Debug)]
pub struct ComponentSchema {
    pub required: Vec<String>,
    pub type_: String,
    pub properties: Vec<(String, Property)>,
}

impl View for ComponentSchema {
    type V = ComponentSchemaView;

    open spec fn view(&self) -> ComponentSchemaView {
        ComponentSchemaView {
            required: strs_abs(self.required@),
            type_: self.type_@,
            properties: props_abs(self.properties@),
        }
    }
}

/// The abstraction of a list of named properties.
pub open spec fn props_abs(v: Seq<(String, Property)>) -> Seq<(Seq<char>, PropView)> {
    Seq::new(v.len(), |i: int| (v[i].0@, v[i].1@))
}

/// The abstraction of one security scheme.
pub ghost struct SecuritySchemeView {
    pub type_: Seq<char>,
    pub description: Seq<char>,
    pub scheme: Seq<char>,
    pub bearer_format: Seq<char>,
}

/// One declared security scheme.
#[derive(Debug)]
pub struct SecurityScheme {
    pub type_: String,
    pub description: String,
    pub scheme: String,
    pub bearer_format: String,
}

impl View for SecurityScheme {
    type V = SecuritySchemeView;

    open spec fn view(&self) -> SecuritySchemeView {
        SecuritySchemeView {
            type_: self.type_@,
            description: self.description@,
            scheme: self.scheme@,
            bearer_format: self.bearer_format@,
        }
    }
}

/// The abstraction of the components section.
pub ghost struct ComponentsView {
    pub schemas: Seq<(Seq<char>, ComponentSchemaView)>,
    pub security_schemes: Seq<(Seq<char>, SecuritySchemeView)>,
}

/// The components section: named schemas and named security schemes, in
/// declaration order.
#[derive(Debug)]
pub struct Components {
    pub schemas: Vec<(String, ComponentSchema)>,
    pub security_schemes: Vec<(String, SecurityScheme)>,
}

impl View for Components {
    type V = ComponentsView;

    open spec fn view(&self) -> ComponentsView {
        ComponentsView {
            schemas: schemas_abs(self.schemas@),
            security_schemes: secs_abs(self.security_schemes@),
        }
    }
}

/// The abstraction of a list of named schemas.
pub open spec fn schemas_abs(v: Seq<(String, ComponentSchema)>) -> Seq<
    (Seq<char>, ComponentSchemaView),
> {
    Seq::new(v.len(), |i: int| (v[i].0@, v[i].1@))
}

/// The abstraction of a list of named security schemes.
pub open spec fn secs_abs(v: Seq<(String, SecurityScheme)>) -> Seq<
    (Seq<char>, SecuritySchemeView),
> {
    Seq::new(v.len(), |i: int| (v[i].0@, v[i].1@))
}

/// The abstraction of a parsed document.
pub ghost struct DocView {
    pub openapi: Option<Seq<char>>,
    pub info: Option<InfoView>,
    pub servers: Option<Seq<Seq<char>>>,
    pub paths: Seq<(Seq<char>, PathView)>,
    pub components: Option<ComponentsView>,
}

/// A parsed OpenAPI document: the queryable model a scan evaluates.
/// Missing optional sections are `None` or empty; the document is never
/// mutated after construction.
#[derive(Debug)]
pub struct OpenApiDoc {
    pub openapi: Option<String>,
    pub info: Option<Info>,
    pub servers: Option<Vec<Server>>,
    pub paths: Vec<(String, PathData)>,
    pub components: Option<Components>,
}

/// The abstraction of a list of servers: their base URLs.
pub open spec fn urls_abs(v: Seq<Server>) -> Seq<Seq<char>> {
    Seq::new(v.len(), |i: int| v[i]@)
}

/// The abstraction of the optional servers section.
pub open spec fn servers_abs(ss: Option<Vec<Server>>) -> Option<Seq<Seq<char>>> {
    match ss {
        Some(v) => Some(urls_abs(v@)),
        None => None,
    }
}

/// The abstraction of a list of named paths.
pub open spec fn paths_abs(v: Seq<(String, PathData)>) -> Seq<(Seq<char>, PathView)> {
    Seq::new(v.len(), |i: int| (v[i].0@, v[i].1@))
}

impl View for OpenApiDoc {
    type V = DocView;

    open spec fn view(&self) -> DocView {
        DocView {
            openapi: match self.openapi {
                Some(ref s) => Some(s@),
                None => None,
            },
            info: match self.info {
                Some(ref i) => Some(i@),
                None => None,
            },
            servers: servers_abs(self.servers),
            paths: paths_abs(self.paths@),
            components: match self.components {
                Some(ref c) => Some(c@),
                None => None,
            },
        }
    }
}

impl OpenApiDoc {
    /// An empty document that only records the given specification version.
    pub fn new(version: &str) -> (r: Self)
        ensures
            r@.openapi == Some(version@),
            r@.info is None,
            r@.servers is None,
            r@.paths == Seq::<(Seq<char>, PathView)>::empty(),
            r@.components is None,
    {
        let r = OpenApiDoc {
            openapi: Some(version.to_owned()),
            info: None,
            servers: None,
            paths: Vec::new(),
            components: None,
        };
        proof {
            assert(r@.paths =~= Seq::<(Seq<char>, PathView)>::empty());
        }
        r
    }

    /// The servers section, if the document declares one.
    pub fn servers(&self) -> (r: &Option<Vec<Server>>)
        ensures
            servers_abs(*r) == self@.servers,
    {
        &self.servers
    }

    /// The paths of the document, in declaration order.
    pub fn paths(&self) -> (r: &Vec<(String, PathData)>)
        ensures
            paths_abs(r@) == self@.paths,
    {
        &self.paths
    }

    /// The components section, if the document declares one.
    pub fn components(&self) -> (r: &Option<Components>)
        ensures
            match r {
                Some(c) => self@.components == Some(c@),
                None => self@.components is None,
            },
    {
        &self.components
    }

    /// The declared security schemes, in declaration order; empty when the
    /// document has no components section.
    pub fn security_schemes(&self) -> (r: Vec<(String, SecurityScheme)>)
        ensures
            match self@.components {
                Some(c) => secs_abs(r@) == c.security_schemes,
                None => r@.len() == 0,
            },
    {
        match &self.components {
            Some(c) => clone_sec_schemes(&c.security_schemes),
            None => Vec::new(),
        }
    }
}

// ---------------------------------------------------------------------------
// Projection: from the generic structured value to the document model
// ---------------------------------------------------------------------------

/// The numeric value of a sequence of decimal digits.
pub open spec fn sp_digits_val(s: Seq<char>) -> int
    decreases s.len(),
{
    if s.len() == 0 {
        0
    } else {
        sp_digits_val(s.drop_last()) * 10 + (s.last() as u32 - 48)
    }
}

/// Whether every character of `s` is a decimal digit.
pub open spec fn sp_all_digits(s: Seq<char>) -> bool {
    forall|i: int| 0 <= i < s.len() ==> is_digit_char(s[i])
}

/// The `u32` a numeric literal denotes: defined only for non-empty
/// all-digit literals whose value fits.
pub open spec fn sp_u32_of_digits(s: Seq<char>) -> Option<u32> {
    if s.len() > 0 && sp_all_digits(s) && sp_digits_val(s) <= u32::MAX {
        Some(sp_digits_val(s) as u32)
    } else {
        None
    }
}

/// Digit strings denote non-negative values, and every prefix denotes at
/// most as much as the whole.
pub proof fn lemma_digits_prefix_le(s: Seq<char>, k: int)
    requires
        sp_all_digits(s),
        0 <= k <= s.len(),
    ensures
        0 <= sp_digits_val(s.subrange(0, k)) <= sp_digits_val(s),
    decreases s.len(),
{
    if s.len() == 0 {
        assert(s.subrange(0, k) =~= s);
    } else if k == s.len() {
        assert(s.subrange(0, k) =~= s);
        lemma_digits_prefix_le(s.drop_last(), s.len() - 1);
        assert(s.drop_last().subrange(0, s.len() - 1) =~= s.drop_last());
    } else {
        let s1 = s.drop_last();
        assert(sp_all_digits(s1));
        lemma_digits_prefix_le(s1, k);
        assert(s.subrange(0, k) =~= s1.subrange(0, k));
        assert(is_digit_char(s.last()));
        assert(sp_digits_val(s) == sp_digits_val(s1) * 10 + (s.last() as u32 - 48));
        lemma_digits_prefix_le(s1, s1.len() as int);
        assert(s1.subrange(0, s1.len() as int) =~= s1);
        assert(sp_digits_val(s1) * 10 >= sp_digits_val(s1));
    }
}

/// An array of strings.
pub open spec fn sp_strs_of(es: Seq<JsonVal>) -> Option<Seq<Seq<char>>>
    decreases es.len(),
{
    if es.len() == 0 {
        Some(Seq::empty())
    } else {
        match es[0] {
            JsonVal::Str(s) => match sp_strs_of(es.drop_first()) {
                Some(r) => Some(seq![s] + r),
                None => None,
            },
            _ => None,
        }
    }
}

/// The name of one parameter object; a parameter without a name yields the
/// empty string.
pub open spec fn sp_param_name_of(v: JsonVal) -> Option<Seq<char>> {
    match v {
        JsonVal::Obj(ms) => match sp_obj_get(ms, "name"@) {
            None => Some(Seq::empty()),
            Some(JsonVal::Str(n)) => Some(n),
            Some(_) => None,
        },
        _ => None,
    }
}

/// The names of an array of parameter objects.
pub open spec fn sp_params_of(es: Seq<JsonVal>) -> Option<Seq<Seq<char>>>
    decreases es.len(),
{
    if es.len() == 0 {
        Some(Seq::empty())
    } else {
        match sp_param_name_of(es[0]) {
            Some(n) => match sp_params_of(es.drop_first()) {
                Some(r) => Some(seq![n] + r),
                None => None,
            },
            None => None,
        }
    }
}

/// One media-type entry: its schema reference is the `$ref` string of its
/// `schema` object, when both are declared.
pub open spec fn sp_content_entry(mt: Seq<char>, v: JsonVal) -> Option<ContentView> {
    match v {
        JsonVal::Obj(ems) => match sp_obj_get(ems, "schema"@) {
            None => Some(ContentView { media_type: mt, schema: None }),
            Some(sv) => match sv {
                JsonVal::Obj(sms) => match sp_obj_get(sms, "$ref"@) {
                    None => Some(ContentView { media_type: mt, schema: None }),
                    Some(JsonVal::Str(r)) => Some(ContentView { media_type: mt, schema: Some(r) }),
                    Some(_) => None,
                },
                _ => None,
            },
        },
        _ => None,
    }
}

/// The entries of a content object, in declaration order.
pub open spec fn sp_content_entries(ms: Seq<(Seq<char>, JsonVal)>) -> Option<Seq<ContentView>>
    decreases ms.len(),
{
    if ms.len() == 0 {
        Some(Seq::empty())
    } else {
        match sp_content_entry(ms[0].0, ms[0].1) {
            Some(c) => match sp_content_entries(ms.drop_first()) {
                Some(r) => Some(seq![c] + r),
                None => None,
            },
            None => None,
        }
    }
}

/// A content value must be an object of media-type entries.
pub open spec fn sp_content_of(v: JsonVal) -> Option<Seq<ContentView>> {
    match v {
        JsonVal::Obj(ms) => sp_content_entries(ms),
        _ => None,
    }
}

/// One response object: its description (empty when absent) and its
/// content entries (empty when absent).
pub open spec fn sp_resp_of(v: JsonVal) -> Option<RespView> {
    match v {
        JsonVal::Obj(rms) => {
            let d = sp_str_or_empty(rms, "description"@);
            let c = match sp_obj_get(rms, "content"@) {
                None => Some(Seq::<ContentView>::empty()),
                Some(cv) => sp_content_of(cv),
            };
            match (d, c) {
                (Some(dd), Some(cc)) => Some(RespView { description: dd, content: cc }),
                _ => None,
            }
        },
        _ => None,
    }
}

/// The declared responses of an operation, in declaration order.
pub open spec fn sp_responses_of(ms: Seq<(Seq<char>, JsonVal)>) -> Option<
    Seq<(Seq<char>, RespView)>,
>
    decreases ms.len(),
{
    if ms.len() == 0 {
        Some(Seq::empty())
    } else {
        match sp_resp_of(ms[0].1) {
            Some(rv) => match sp_responses_of(ms.drop_first()) {
                Some(r) => Some(seq![(ms[0].0, rv)] + r),
                None => None,
            },
            None => None,
        }
    }
}

/// A request body object: its content entries (empty when absent).
pub open spec fn sp_body_of(v: JsonVal) -> Option<Seq<ContentView>> {
    match v {
        JsonVal::Obj(bms) => match sp_obj_get(bms, "content"@) {
            None => Some(Seq::empty()),
            Some(cv) => sp_content_of(cv),
        },
        _ => None,
    }
}

/// One operation object.
pub open spec fn sp_op_of(v: JsonVal) -> Option<OpView> {
    match v {
        JsonVal::Obj(oms) => {
            let tags = match sp_obj_get(oms, "tags"@) {
                None => Some(Seq::<Seq<char>>::empty()),
                Some(JsonVal::Arr(es)) => sp_strs_of(es),
                Some(_) => None,
            };
            let params = match sp_obj_get(oms, "parameters"@) {
                None => Some(Seq::<Seq<char>>::empty()),
                Some(JsonVal::Arr(es)) => sp_params_of(es),
                Some(_) => None,
            };
            let body = match sp_obj_get(oms, "requestBody"@) {
                None => Some(None),
                Some(bv) => match sp_body_of(bv) {
                    Some(b) => Some(Some(b)),
                    None => None,
                },
            };
            let resps = match sp_obj_get(oms, "responses"@) {
                None => Some(Seq::<(Seq<char>, RespView)>::empty()),
                Some(JsonVal::Obj(rms)) => sp_responses_of(rms),
                Some(_) => None,
            };
            match (tags, params, body, resps) {
                (Some(t), Some(p), Some(b), Some(r)) => Some(
                    OpView { tags: t, parameters: p, request_body: b, responses: r },
                ),
                _ => None,
            }
        },
        _ => None,
    }
}

/// The operation a path item declares under the given verb, if any.
pub open spec fn sp_verb_of(ms: Seq<(Seq<char>, JsonVal)>, verb: Seq<char>) -> Option<
    Option<OpView>,
> {
    match sp_obj_get(ms, verb) {
        None => Some(None),
        Some(ov) => match sp_op_of(ov) {
            Some(o) => Some(Some(o)),
            None => None,
        },
    }
}

/// One path item: an optional operation per HTTP verb.
pub open spec fn sp_path_of(v: JsonVal) -> Option<PathView> {
    match v {
        JsonVal::Obj(pms) => {
            let g = sp_verb_of(pms, "get"@);
            let po = sp_verb_of(pms, "post"@);
            let pu = sp_verb_of(pms, "put"@);
            let pa = sp_verb_of(pms, "patch"@);
            let d = sp_verb_of(pms, "delete"@);
            match (g, po, pu, pa, d) {
                (Some(g1), Some(po1), Some(pu1), Some(pa1), Some(d1)) => Some(
                    PathView { get: g1, post: po1, put: pu1, patch: pa1, delete: d1 },
                ),
                _ => None,
            }
        },
        _ => None,
    }
}

/// The paths of the document, in declaration order.
pub open spec fn sp_paths_of(ms: Seq<(Seq<char>, JsonVal)>) -> Option<Seq<(Seq<char>, PathView)>>
    decreases ms.len(),
{
    if ms.len() == 0 {
        Some(Seq::empty())
    } else {
        match sp_path_of(ms[0].1) {
            Some(pv) => match sp_paths_of(ms.drop_first()) {
                Some(r) => Some(seq![(ms[0].0, pv)] + r),
                None => None,
            },
            None => None,
        }
    }
}

/// The base URLs of an array of server objects; every entry must declare a
/// `url` string.
pub open spec fn sp_servers_of(es: Seq<JsonVal>) -> Option<Seq<Seq<char>>>
    decreases es.len(),
{
    if es.len() == 0 {
        Some(Seq::empty())
    } else {
        match es[0] {
            JsonVal::Obj(sms) => match sp_obj_get(sms, "url"@) {
                Some(JsonVal::Str(u)) => match sp_servers_of(es.drop_first()) {
                    Some(r) => Some(seq![u] + r),
                    None => None,
                },
                _ => None,
            },
            _ => None,
        }
    }
}

/// The info section: title and version, each empty when absent.
pub open spec fn sp_info_of(v: JsonVal) -> Option<InfoView> {
    match v {
        JsonVal::Obj(ims) => {
            let t = sp_str_or_empty(ims, "title"@);
            let ve = sp_str_or_empty(ims, "version"@);
            match (t, ve) {
                (Some(t1), Some(v1)) => Some(InfoView { title: t1, version: v1 }),
                _ => None,
            }
        },
        _ => None,
    }
}

/// An optional string member: absent yields the empty string, any
/// non-string value is malformed.
pub open spec fn sp_str_or_empty(ms: Seq<(Seq<char>, JsonVal)>, key: Seq<char>) -> Option<
    Seq<char>,
> {
    match sp_obj_get(ms, key) {
        None => Some(Seq::empty()),
        Some(JsonVal::Str(s)) => Some(s),
        Some(_) => None,
    }
}

/// An optional string member kept optional: any non-string value is
/// malformed.
pub open spec fn sp_str_opt(ms: Seq<(Seq<char>, JsonVal)>, key: Seq<char>) -> Option<
    Option<Seq<char>>,
> {
    match sp_obj_get(ms, key) {
        None => Some(None),
        Some(JsonVal::Str(s)) => Some(Some(s)),
        Some(_) => None,
    }
}

/// An optional numeric bound of a property object.
pub open spec fn sp_num_opt(ms: Seq<(Seq<char>, JsonVal)>, key: Seq<char>) -> Option<Option<u32>> {
    match sp_obj_get(ms, key) {
        None => Some(None),
        Some(JsonVal::Num(s)) => match sp_u32_of_digits(s) {
            Some(n) => Some(Some(n)),
            None => None,
        },
        Some(_) => None,
    }
}

/// One schema property object.
pub open spec fn sp_prop_of(v: JsonVal) -> Option<PropView> {
    match v {
        JsonVal::Obj(pms) => {
            let ty = sp_str_or_empty(pms, "type"@);
            let maxl = sp_num_opt(pms, "maxLength"@);
            let minl = sp_num_opt(pms, "minLength"@);
            let pat = sp_str_opt(pms, "pattern"@);
            let maxi = sp_num_opt(pms, "maxItems"@);
            match (ty, maxl, minl, pat, maxi) {
                (Some(t), Some(ml), Some(mi), Some(pa), Some(mx)) => Some(
                    PropView {
                        type_: t,
                        max_length: ml,
                        min_length: mi,
                        pattern: pa,
                        max_items: mx,
                    },
                ),
                _ => None,
            }
        },
        _ => None,
    }
}

/// The properties of a schema, in declaration order.
pub open spec fn sp_props_of(ms: Seq<(Seq<char>, JsonVal)>) -> Option<Seq<(Seq<char>, PropView)>>
    decreases ms.len(),
{
    if ms.len() == 0 {
        Some(Seq::empty())
    } else {
        match sp_prop_of(ms[0].1) {
            Some(pv) => match sp_props_of(ms.drop_first()) {
                Some(r) => Some(seq![(ms[0].0, pv)] + r),
                None => None,
            },
            None => None,
        }
    }
}

/// One component schema object.
pub open spec fn sp_schema_of(v: JsonVal) -> Option<ComponentSchemaView> {
    match v {
        JsonVal::Obj(sms) => {
            let req = match sp_obj_get(sms, "required"@) {
                None => Some(Seq::<Seq<char>>::empty()),
                Some(JsonVal::Arr(es)) => sp_strs_of(es),
                Some(_) => None,
            };
            let ty = sp_str_or_empty(sms, "type"@);
            let props = match sp_obj_get(sms, "properties"@) {
                None => Some(Seq::<(Seq<char>, PropView)>::empty()),
                Some(JsonVal::Obj(pms)) => sp_props_of(pms),
                Some(_) => None,
            };
            match (req, ty, props) {
                (Some(r), Some(t), Some(p)) => Some(
                    ComponentSchemaView { required: r, type_: t, properties: p },
                ),
                _ => None,
            }
        },
        _ => None,
    }
}

/// The named schemas of the components section, in declaration order.
pub open spec fn sp_schemas_of(ms: Seq<(Seq<char>, JsonVal)>) -> Option<
    Seq<(Seq<char>, ComponentSchemaView)>,
>
    decreases ms.len(),
{
    if ms.len() == 0 {
        Some(Seq::empty())
    } else {
        match sp_schema_of(ms[0].1) {
            Some(sv) => match sp_schemas_of(ms.drop_first()) {
                Some(r) => Some(seq![(ms[0].0, sv)] + r),
                None => None,
            },
            None => None,
        }
    }
}

/// One security scheme object; every field is empty when absent.
pub open spec fn sp_sec_of(v: JsonVal) -> Option<SecuritySchemeView> {
    match v {
        JsonVal::Obj(sms) => {
            let ty = sp_str_or_empty(sms, "type"@);
            let de = sp_str_or_empty(sms, "description"@);
            let sc = sp_str_or_empty(sms, "scheme"@);
            let bf = sp_str_or_empty(sms, "bearerFormat"@);
            match (ty, de, sc, bf) {
                (Some(t), Some(d), Some(s), Some(b)) => Some(
                    SecuritySchemeView { type_: t, description: d, scheme: s, bearer_format: b },
                ),
                _ => None,
            }
        },
        _ => None,
    }
}

/// The named security schemes, in declaration order.
pub open spec fn sp_secs_of(ms: Seq<(Seq<char>, JsonVal)>) -> Option<
    Seq<(Seq<char>, SecuritySchemeView)>,
>
    decreases ms.len(),
{
    if ms.len() == 0 {
        Some(Seq::empty())
    } else {
        match sp_sec_of(ms[0].1) {
            Some(sv) => match sp_secs_of(ms.drop_first()) {
                Some(r) => Some(seq![(ms[0].0, sv)] + r),
                None => None,
            },
            None => None,
        }
    }
}

/// The components section.
pub open spec fn sp_components_of(v: JsonVal) -> Option<ComponentsView> {
    match v {
        JsonVal::Obj(cms) => {
            let sch = match sp_obj_get(cms, "schemas"@) {
                None => Some(Seq::<(Seq<char>, ComponentSchemaView)>::empty()),
                Some(JsonVal::Obj(sms)) => sp_schemas_of(sms),
                Some(_) => None,
            };
            let sec = match sp_obj_get(cms, "securitySchemes"@) {
                None => Some(Seq::<(Seq<char>, SecuritySchemeView)>::empty()),
                Some(JsonVal::Obj(sms)) => sp_secs_of(sms),
                Some(_) => None,
            };
            match (sch, sec) {
                (Some(s1), Some(s2)) => Some(
                    ComponentsView { schemas: s1, security_schemes: s2 },
                ),
                _ => None,
            }
        },
        _ => None,
    }
}

/// The projection of a parsed structured value onto the document model.
/// The value must be an object; known sections of the wrong shape make the
/// whole projection fail.
pub open spec fn sp_doc_of(v: JsonVal) -> Option<DocView> {
    match v {
        JsonVal::Obj(ms) => {
            let oa = sp_str_opt(ms, "openapi"@);
            let inf = match sp_obj_get(ms, "info"@) {
                None => Some(None),
                Some(iv) => match sp_info_of(iv) {
                    Some(i) => Some(Some(i)),
                    None => None,
                },
            };
            let srv = match sp_obj_get(ms, "servers"@) {
                None => Some(None),
                Some(JsonVal::Arr(es)) => match sp_servers_of(es) {
                    Some(u) => Some(Some(u)),
                    None => None,
                },
                Some(_) => None,
            };
            let pth = match sp_obj_get(ms, "paths"@) {
                None => Some(Seq::<(Seq<char>, PathView)>::empty()),
                Some(JsonVal::Obj(pms)) => sp_paths_of(pms),
                Some(_) => None,
            };
            let cmp = match sp_obj_get(ms, "components"@) {
                None => Some(None),
                Some(cv) => match sp_components_of(cv) {
                    Some(c) => Some(Some(c)),
                    None => None,
                },
            };
            match (oa, inf, srv, pth, cmp) {
                (Some(o), Some(i), Some(s), Some(p), Some(c)) => Some(
                    DocView { openapi: o, info: i, servers: s, paths: p, components: c },
                ),
                _ => None,
            }
        },
        _ => None,
    }
}

/// A projection error with the given cause.
fn proj_err(cause: &str) -> (r: ParserError)
    ensures
        r is ParseFailed,
{
    ParserError::ParseFailed(String::from_str(cause))
}

/// The `u32` a numeric literal denotes, if it is a plain decimal number
/// that fits.
fn parse_u32_digits(s: &String) -> (r: Option<u32>)
    ensures
        r == sp_u32_of_digits(s@),
{
    let st = s.as_str();
    let n = st.unicode_len();
    if n == 0 {
        return None;
    }
    let mut val: u64 = 0;
    let mut i: usize = 0;
    while i < n
        invariant
            i <= n,
            n == st@.len(),
            st@ == s@,
            sp_all_digits(st@.subrange(0, i as int)),
            val == sp_digits_val(st@.subrange(0, i as int)),
            val <= u32::MAX,
        decreases n - i,
    {
        let c = st.get_char(i);
        let u = c as u32;
        if !(48 <= u && u <= 57) {
            assert(!is_digit_char(s@[i as int]));
            return None;
        }
        let nv = val * 10 + ((u - 48) as u64);
        proof {
            assert(st@.subrange(0, i + 1 as int).drop_last() =~= st@.subrange(0, i as int));
            assert(st@.subrange(0, i + 1 as int).last() == st@[i as int]);
        }
        if nv > 0xFFFF_FFFF {
            proof {
                if sp_all_digits(s@) {
                    lemma_digits_prefix_le(s@, i + 1);
                    assert(sp_digits_val(s@) > u32::MAX);
                }
            }
            return None;
        }
        val = nv;
        i = i + 1;
    }
    proof {
        assert(st@.subrange(0, n as int) =~= s@);
    }
    Some(val as u32)
}

/// An optional numeric bound of an object.
fn get_num_opt(ms: &Vec<(String, JsonValue)>, key: &String) -> (r: Result<
    Option<u32>,
    ParserError,
>)
    ensures
        r matches Ok(o) ==> sp_num_opt(membs_abs(ms@), key@) == Some(o),
        r matches Err(e) ==> sp_num_opt(membs_abs(ms@), key@) is None && e is ParseFailed,
{
    match obj_get(ms, key) {
        None => Ok(None),
        Some(v) => match v {
            JsonValue::Num(s) => match parse_u32_digits(s) {
                Some(nv) => Ok(Some(nv)),
                None => Err(proj_err("a numeric bound does not denote an unsigned integer")),
            },
            _ => Err(proj_err("a numeric bound must be a number")),
        },
    }
}

/// An optional string member of an object, empty when absent.
fn get_str_or_empty(ms: &Vec<(String, JsonValue)>, key: &String) -> (r: Result<
    String,
    ParserError,
>)
    ensures
        r matches Ok(s) ==> sp_str_or_empty(membs_abs(ms@), key@) == Some(s@),
        r matches Err(e) ==> sp_str_or_empty(membs_abs(ms@), key@) is None && e is ParseFailed,
{
    match obj_get(ms, key) {
        None => Ok(String::new()),
        Some(v) => match v {
            JsonValue::Str(s) => Ok(s.clone()),
            _ => Err(proj_err("expected a string member")),
        },
    }
}

/// An optional string member of an object, kept optional.
fn get_str_opt(ms: &Vec<(String, JsonValue)>, key: &String) -> (r: Result<
    Option<String>,
    ParserError,
>)
    ensures
        r matches Ok(o) ==> sp_str_opt(membs_abs(ms@), key@) == Some(
            match o {
                Some(s) => Some(s@),
                None => None,
            },
        ),
        r matches Err(e) ==> sp_str_opt(membs_abs(ms@), key@) is None && e is ParseFailed,
{
    match obj_get(ms, key) {
        None => Ok(None),
        Some(v) => match v {
            JsonValue::Str(s) => Ok(Some(s.clone())),
            _ => Err(proj_err("expected a string member")),
        },
    }
}

/// An array of strings.
fn project_strs(es: &Vec<JsonValue>) -> (r: Result<Vec<String>, ParserError>)
    ensures
        r matches Ok(v) ==> sp_strs_of(vals_abs(es@)) == Some(strs_abs(v@)),
        r matches Err(e) ==> sp_strs_of(vals_abs(es@)) is None && e is ParseFailed,
{
    let ghost ses = vals_abs(es@);
    let n = es.len();
    proof {
        assert(ses.subrange(0, n as int) =~= ses);
    }
    let mut out: Vec<String> = Vec::new();
    let mut i: usize = 0;
    while i < n
        invariant
            i <= n,
            n == es@.len(),
            ses == vals_abs(es@),
            match sp_strs_of(ses.subrange(i as int, n as int)) {
                Some(rest) => sp_strs_of(ses) == Some(strs_abs(out@) + rest),
                None => sp_strs_of(ses) is None,
            },
        decreases n - i,
    {
        proof {
            assert(ses.subrange(i as int, n as int).drop_first() =~= ses.subrange(
                i + 1,
                n as int,
            ));
        }
        let ev = &es[i];
        match ev {
            JsonValue::Str(s) => {
                let ghost out0 = out@;
                out.push(s.clone());
                proof {
                    assert(strs_abs(out@) =~= strs_abs(out0) + seq![s@]);
                    match sp_strs_of(ses.subrange(i + 1, n as int)) {
                        Some(rest) => {
                            assert(strs_abs(out0) + (seq![s@] + rest) =~= strs_abs(out@) + rest);
                        },
                        None => {},
                    }
                }
            },
            _ => {
                return Err(proj_err("expected an array of strings"));
            },
        }
        i = i + 1;
    }
    proof {
        assert(strs_abs(out@) + Seq::<Seq<char>>::empty() =~= strs_abs(out@));
    }
    Ok(out)
}

/// The names of an array of parameter objects.
fn project_params(es: &Vec<JsonValue>) -> (r: Result<Vec<String>, ParserError>)
    ensures
        r matches Ok(v) ==> sp_params_of(vals_abs(es@)) == Some(strs_abs(v@)),
        r matches Err(e) ==> sp_params_of(vals_abs(es@)) is None && e is ParseFailed,
{
    let ghost ses = vals_abs(es@);
    let n = es.len();
    proof {
        assert(ses.subrange(0, n as int) =~= ses);
    }
    let mut out: Vec<String> = Vec::new();
    let mut i: usize = 0;
    while i < n
        invariant
            i <= n,
            n == es@.len(),
            ses == vals_abs(es@),
            match sp_params_of(ses.subrange(i as int, n as int)) {
                Some(rest) => sp_params_of(ses) == Some(strs_abs(out@) + rest),
                None => sp_params_of(ses) is None,
            },
        decreases n - i,
    {
        proof {
            assert(ses.subrange(i as int, n as int).drop_first() =~= ses.subrange(
                i + 1,
                n as int,
            ));
        }
        let ev = &es[i];
        match ev {
            JsonValue::Obj(pms) => {
                let nm = match get_str_or_empty(pms, &String::from_str("name")) {
                    Ok(s) => s,
                    Err(e) => {
                        return Err(e);
                    },
                };
                let ghost out0 = out@;
                out.push(nm);
                proof {
                    assert(strs_abs(out@) =~= strs_abs(out0) + seq![out@.last()@]);
                    match sp_params_of(ses.subrange(i + 1, n as int)) {
                        Some(rest) => {
                            assert(strs_abs(out0) + (seq![out@.last()@] + rest) =~= strs_abs(out@)
                                + rest);
                        },
                        None => {},
                    }
                }
            },
            _ => {
                return Err(proj_err("a parameter must be an object"));
            },
        }
        i = i + 1;
    }
    proof {
        assert(strs_abs(out@) + Seq::<Seq<char>>::empty() =~= strs_abs(out@));
    }
    Ok(out)
}

/// One media-type entry of a content object.
fn project_content_entry(mt: &String, v: &JsonValue) -> (r: Result<
    (String, Option<SchemaRef>),
    ParserError,
>)
    ensures
        r matches Ok(c) ==> sp_content_entry(mt@, v.abs()) == Some(content1_abs(c)),
        r matches Err(e) ==> sp_content_entry(mt@, v.abs()) is None && e is ParseFailed,
{
    match v {
        JsonValue::Obj(ems) => {
            match obj_get(ems, &String::from_str("schema")) {
                None => Ok((mt.clone(), None)),
                Some(sv) => match sv {
                    JsonValue::Obj(sms) => match obj_get(sms, &String::from_str("$ref")) {
                        None => Ok((mt.clone(), None)),
                        Some(rv) => match rv {
                            JsonValue::Str(rs) => Ok(
                                (mt.clone(), Some(SchemaRef { reference: rs.clone() })),
                            ),
                            _ => Err(proj_err("a $ref must be a string")),
                        },
                    },
                    _ => Err(proj_err("a schema must be an object")),
                },
            }
        },
        _ => Err(proj_err("a content entry must be an object")),
    }
}

/// The entries of a content object, in declaration order.
fn project_content(ms: &Vec<(String, JsonValue)>) -> (r: Result<
    Vec<(String, Option<SchemaRef>)>,
    ParserError,
>)
    ensures
        r matches Ok(v) ==> sp_content_entries(membs_abs(ms@)) == Some(content_abs(v@)),
        r matches Err(e) ==> sp_content_entries(membs_abs(ms@)) is None && e is ParseFailed,
{
    let ghost sms = membs_abs(ms@);
    let n = ms.len();
    proof {
        assert(sms.subrange(0, n as int) =~= sms);
    }
    let mut out: Vec<(String, Option<SchemaRef>)> = Vec::new();
    let mut i: usize = 0;
    while i < n
        invariant
            i <= n,
            n == ms@.len(),
            sms == membs_abs(ms@),
            match sp_content_entries(sms.subrange(i as int, n as int)) {
                Some(rest) => sp_content_entries(sms) == Some(content_abs(out@) + rest),
                None => sp_content_entries(sms) is None,
            },
        decreases n - i,
    {
        proof {
            assert(sms.subrange(i as int, n as int).drop_first() =~= sms.subrange(
                i + 1,
                n as int,
            ));
        }
        let p = &ms[i];
        match project_content_entry(&p.0, &p.1) {
            Ok(c) => {
                let ghost out0 = out@;
                out.push(c);
                proof {
                    assert(content_abs(out@) =~= content_abs(out0) + seq![
                        content1_abs(out@.last()),
                    ]);
                    match sp_content_entries(sms.subrange(i + 1, n as int)) {
                        Some(rest) => {
                            assert(content_abs(out0) + (seq![content1_abs(out@.last())] + rest)
                                =~= content_abs(out@) + rest);
                        },
                        None => {},
                    }
                }
            },
            Err(e) => {
                return Err(e);
            },
        }
        i = i + 1;
    }
    proof {
        assert(content_abs(out@) + Seq::<ContentView>::empty() =~= content_abs(out@));
    }
    Ok(out)
}

/// One response object.
fn project_resp(v: &JsonValue) -> (r: Result<Response, ParserError>)
    ensures
        r matches Ok(resp) ==> sp_resp_of(v.abs()) == Some(resp@),
        r matches Err(e) ==> sp_resp_of(v.abs()) is None && e is ParseFailed,
{
    match v {
        JsonValue::Obj(rms) => {
            let d = match get_str_or_empty(rms, &String::from_str("description")) {
                Ok(s) => s,
                Err(e) => {
                    return Err(e);
                },
            };
            let content = match obj_get(rms, &String::from_str("content")) {
                None => Vec::new(),
                Some(cv) => match cv {
                    JsonValue::Obj(cms) => match project_content(cms) {
                        Ok(c) => c,
                        Err(e) => {
                            return Err(e);
                        },
                    },
                    _ => {
                        return Err(proj_err("a content section must be an object"));
                    },
                },
            };
            proof {
                if sp_obj_get(membs_abs(rms@), "content"@) is None {
                    assert(content_abs(Seq::<(String, Option<SchemaRef>)>::empty()) =~= Seq::<
                        ContentView,
                    >::empty());
                }
            }
            Ok(Response { description: d, content })
        },
        _ => Err(proj_err("a response must be an object")),
    }
}

/// The declared responses of an operation, in declaration order.
fn project_responses(ms: &Vec<(String, JsonValue)>) -> (r: Result<
    Vec<(String, Response)>,
    ParserError,
>)
    ensures
        r matches Ok(v) ==> sp_responses_of(membs_abs(ms@)) == Some(resps_abs(v@)),
        r matches Err(e) ==> sp_responses_of(membs_abs(ms@)) is None && e is ParseFailed,
{
    let ghost sms = membs_abs(ms@);
    let n = ms.len();
    proof {
        assert(sms.subrange(0, n as int) =~= sms);
    }
    let mut out: Vec<(String, Response)> = Vec::new();
    let mut i: usize = 0;
    while i < n
        invariant
            i <= n,
            n == ms@.len(),
            sms == membs_abs(ms@),
            match sp_responses_of(sms.subrange(i as int, n as int)) {
                Some(rest) => sp_responses_of(sms) == Some(resps_abs(out@) + rest),
                None => sp_responses_of(sms) is None,
            },
        decreases n - i,
    {
        proof {
            assert(sms.subrange(i as int, n as int).drop_first() =~= sms.subrange(
                i + 1,
                n as int,
            ));
        }
        let p = &ms[i];
        match project_resp(&p.1) {
            Ok(resp) => {
                let ghost out0 = out@;
                out.push((p.0.clone(), resp));
                proof {
                    assert(resps_abs(out@) =~= resps_abs(out0) + seq![
                        (out@.last().0@, out@.last().1@),
                    ]);
                    match sp_responses_of(sms.subrange(i + 1, n as int)) {
                        Some(rest) => {
                            assert(resps_abs(out0) + (seq![(out@.last().0@, out@.last().1@)]
                                + rest) =~= resps_abs(out@) + rest);
                        },
                        None => {},
                    }
                }
            },
            Err(e) => {
                return Err(e);
            },
        }
        i = i + 1;
    }
    proof {
        assert(resps_abs(out@) + Seq::<(Seq<char>, RespView)>::empty() =~= resps_abs(out@));
    }
    Ok(out)
}

/// One operation object.
fn project_op(v: &JsonValue) -> (r: Result<Operation, ParserError>)
    ensures
        r matches Ok(op) ==> sp_op_of(v.abs()) == Some(op@),
        r matches Err(e) ==> sp_op_of(v.abs()) is None && e is ParseFailed,
{
    match v {
        JsonValue::Obj(oms) => {
            let tags = match obj_get(oms, &String::from_str("tags")) {
                None => Vec::new(),
                Some(tv) => match tv {
                    JsonValue::Arr(es) => match project_strs(es) {
                        Ok(t) => t,
                        Err(e) => {
                            return Err(e);
                        },
                    },
                    _ => {
                        return Err(proj_err("tags must be an array"));
                    },
                },
            };
            let params = match obj_get(oms, &String::from_str("parameters")) {
                None => Vec::new(),
                Some(pv) => match pv {
                    JsonValue::Arr(es) => match project_params(es) {
                        Ok(ps) => ps,
                        Err(e) => {
                            return Err(e);
                        },
                    },
                    _ => {
                        return Err(proj_err("parameters must be an array"));
                    },
                },
            };
            let body = match obj_get(oms, &String::from_str("requestBody")) {
                None => None,
                Some(bv) => match bv {
                    JsonValue::Obj(bms) => {
                        let content = match obj_get(bms, &String::from_str("content")) {
                            None => Vec::new(),
                            Some(cv) => match cv {
                                JsonValue::Obj(cms) => match project_content(cms) {
                                    Ok(c) => c,
                                    Err(e) => {
                                        return Err(e);
                                    },
                                },
                                _ => {
                                    return Err(proj_err("a content section must be an object"));
                                },
                            },
                        };
                        proof {
                            if sp_obj_get(membs_abs(bms@), "content"@) is None {
                                assert(content_abs(Seq::<(String, Option<SchemaRef>)>::empty())
                                    =~= Seq::<ContentView>::empty());
                            }
                        }
                        Some(RequestBody { content })
                    },
                    _ => {
                        return Err(proj_err("a request body must be an object"));
                    },
                },
            };
            let responses = match obj_get(oms, &String::from_str("responses")) {
                None => Vec::new(),
                Some(rv) => match rv {
                    JsonValue::Obj(rms) => match project_responses(rms) {
                        Ok(rs) => rs,
                        Err(e) => {
                            return Err(e);
                        },
                    },
                    _ => {
                        return Err(proj_err("responses must be an object"));
                    },
                },
            };
            proof {
                if sp_obj_get(membs_abs(oms@), "tags"@) is None {
                    assert(strs_abs(Seq::<String>::empty()) =~= Seq::<Seq<char>>::empty());
                }
                if sp_obj_get(membs_abs(oms@), "parameters"@) is None {
                    assert(strs_abs(Seq::<String>::empty()) =~= Seq::<Seq<char>>::empty());
                }
                if sp_obj_get(membs_abs(oms@), "responses"@) is None {
                    assert(resps_abs(Seq::<(String, Response)>::empty()) =~= Seq::<
                        (Seq<char>, RespView),
                    >::empty());
                }
            }
            Ok(Operation { tags, parameters: params, request_body: body, responses })
        },
        _ => Err(proj_err("an operation must be an object")),
    }
}

/// The operation a path item declares under the given verb, if any.
fn project_verb(ms: &Vec<(String, JsonValue)>, verb: &String) -> (r: Result<
    Option<Operation>,
    ParserError,
>)
    ensures
        r matches Ok(o) ==> sp_verb_of(membs_abs(ms@), verb@) == Some(op_abs(o)),
        r matches Err(e) ==> sp_verb_of(membs_abs(ms@), verb@) is None && e is ParseFailed,
{
    match obj_get(ms, verb) {
        None => Ok(None),
        Some(ov) => match project_op(ov) {
            Ok(o) => Ok(Some(o)),
            Err(e) => Err(e),
        },
    }
}

/// One path item object.
fn project_path(v: &JsonValue) -> (r: Result<PathData, ParserError>)
    ensures
        r matches Ok(pd) ==> sp_path_of(v.abs()) == Some(pd@),
        r matches Err(e) ==> sp_path_of(v.abs()) is None && e is ParseFailed,
{
    match v {
        JsonValue::Obj(pms) => {
            let g = match project_verb(pms, &String::from_str("get")) {
                Ok(o) => o,
                Err(e) => {
                    return Err(e);
                },
            };
            let po = match project_verb(pms, &String::from_str("post")) {
                Ok(o) => o,
                Err(e) => {
                    return Err(e);
                },
            };
            let pu = match project_verb(pms, &String::from_str("put")) {
                Ok(o) => o,
                Err(e) => {
                    return Err(e);
                },
            };
            let pa = match project_verb(pms, &String::from_str("patch")) {
                Ok(o) => o,
                Err(e) => {
                    return Err(e);
                },
            };
            let d = match project_verb(pms, &String::from_str("delete")) {
                Ok(o) => o,
                Err(e) => {
                    return Err(e);
                },
            };
            Ok(PathData { get: g, post: po, put: pu, patch: pa, delete: d })
        },
        _ => Err(proj_err("a path item must be an object")),
    }
}

/// The paths of the document, in declaration order.
fn project_paths(ms: &Vec<(String, JsonValue)>) -> (r: Result<
    Vec<(String, PathData)>,
    ParserError,
>)
    ensures
        r matches Ok(v) ==> sp_paths_of(membs_abs(ms@)) == Some(paths_abs(v@)),
        r matches Err(e) ==> sp_paths_of(membs_abs(ms@)) is None && e is ParseFailed,
{
    let ghost sms = membs_abs(ms@);
    let n = ms.len();
    proof {
        assert(sms.subrange(0, n as int) =~= sms);
    }
    let mut out: Vec<(String, PathData)> = Vec::new();
    let mut i: usize = 0;
    while i < n
        invariant
            i <= n,
            n == ms@.len(),
            sms == membs_abs(ms@),
            match sp_paths_of(sms.subrange(i as int, n as int)) {
                Some(rest) => sp_paths_of(sms) == Some(paths_abs(out@) + rest),
                None => sp_paths_of(sms) is None,
            },
        decreases n - i,
    {
        proof {
            assert(sms.subrange(i as int, n as int).drop_first() =~= sms.subrange(
                i + 1,
                n as int,
            ));
        }
        let p = &ms[i];
        match project_path(&p.1) {
            Ok(pd) => {
                let ghost out0 = out@;
                out.push((p.0.clone(), pd));
                proof {
                    assert(paths_abs(out@) =~= paths_abs(out0) + seq![
                        (out@.last().0@, out@.last().1@),
                    ]);
                    match sp_paths_of(sms.subrange(i + 1, n as int)) {
                        Some(rest) => {
                            assert(paths_abs(out0) + (seq![(out@.last().0@, out@.last().1@)]
                                + rest) =~= paths_abs(out@) + rest);
                        },
                        None => {},
                    }
                }
            },
            Err(e) => {
                return Err(e);
            },
        }
        i = i + 1;
    }
    proof {
        assert(paths_abs(out@) + Seq::<(Seq<char>, PathView)>::empty() =~= paths_abs(out@));
    }
    Ok(out)
}

/// The server entries of the servers array.
fn project_servers(es: &Vec<JsonValue>) -> (r: Result<Vec<Server>, ParserError>)
    ensures
        r matches Ok(v) ==> sp_servers_of(vals_abs(es@)) == Some(urls_abs(v@)),
        r matches Err(e) ==> sp_servers_of(vals_abs(es@)) is None && e is ParseFailed,
{
    let ghost ses = vals_abs(es@);
    let n = es.len();
    proof {
        assert(ses.subrange(0, n as int) =~= ses);
    }
    let mut out: Vec<Server> = Vec::new();
    let mut i: usize = 0;
    while i < n
        invariant
            i <= n,
            n == es@.len(),
            ses == vals_abs(es@),
            match sp_servers_of(ses.subrange(i as int, n as int)) {
                Some(rest) => sp_servers_of(ses) == Some(urls_abs(out@) + rest),
                None => sp_servers_of(ses) is None,
            },
        decreases n - i,
    {
        proof {
            assert(ses.subrange(i as int, n as int).drop_first() =~= ses.subrange(
                i + 1,
                n as int,
            ));
        }
        let ev = &es[i];
        match ev {
            JsonValue::Obj(sms) => {
                match obj_get(sms, &String::from_str("url")) {
                    Some(uv) => match uv {
                        JsonValue::Str(u) => {
                            let ghost out0 = out@;
                            out.push(Server { url: u.clone() });
                            proof {
                                assert(urls_abs(out@) =~= urls_abs(out0) + seq![u@]);
                                match sp_servers_of(ses.subrange(i + 1, n as int)) {
                                    Some(rest) => {
                                        assert(urls_abs(out0) + (seq![u@] + rest) =~= urls_abs(
                                            out@,
                                        ) + rest);
                                    },
                                    None => {},
                                }
                            }
                        },
                        _ => {
                            return Err(proj_err("a server url must be a string"));
                        },
                    },
                    None => {
                        return Err(proj_err("a server entry must declare a url"));
                    },
                }
            },
            _ => {
                return Err(proj_err("a server entry must be an object"));
            },
        }
        i = i + 1;
    }
    proof {
        assert(urls_abs(out@) + Seq::<Seq<char>>::empty() =~= urls_abs(out@));
    }
    Ok(out)
}

/// The info section.
fn project_info(v: &JsonValue) -> (r: Result<Info, ParserError>)
    ensures
        r matches Ok(inf) ==> sp_info_of(v.abs()) == Some(inf@),
        r matches Err(e) ==> sp_info_of(v.abs()) is None && e is ParseFailed,
{
    match v {
        JsonValue::Obj(ims) => {
            let t = match get_str_or_empty(ims, &String::from_str("title")) {
                Ok(s) => s,
                Err(e) => {
                    return Err(e);
                },
            };
            let ve = match get_str_or_empty(ims, &String::from_str("version")) {
                Ok(s) => s,
                Err(e) => {
                    return Err(e);
                },
            };
            Ok(Info { title: t, version: ve })
        },
        _ => Err(proj_err("the info section must be an object")),
    }
}

/// One schema property object.
fn project_prop(v: &JsonValue) -> (r: Result<Property, ParserError>)
    ensures
        r matches Ok(p) ==> sp_prop_of(v.abs()) == Some(p@),
        r matches Err(e) ==> sp_prop_of(v.abs()) is None && e is ParseFailed,
{
    match v {
        JsonValue::Obj(pms) => {
            let ty = match get_str_or_empty(pms, &String::from_str("type")) {
                Ok(s) => s,
                Err(e) => {
                    return Err(e);
                },
            };
            let maxl = match get_num_opt(pms, &String::from_str("maxLength")) {
                Ok(o) => o,
                Err(e) => {
                    return Err(e);
                },
            };
            let minl = match get_num_opt(pms, &String::from_str("minLength")) {
                Ok(o) => o,
                Err(e) => {
                    return Err(e);
                },
            };
            let pat = match get_str_opt(pms, &String::from_str("pattern")) {
                Ok(o) => o,
                Err(e) => {
                    return Err(e);
                },
            };
            let maxi = match get_num_opt(pms, &String::from_str("maxItems")) {
                Ok(o) => o,
                Err(e) => {
                    return Err(e);
                },
            };
            Ok(
                Property {
                    type_: ty,
                    max_length: maxl,
                    min_length: minl,
                    pattern: pat,
                    max_items: maxi,
                },
            )
        },
        _ => Err(proj_err("a property must be an object")),
    }
}

/// The properties of a schema, in declaration order.
fn project_props(ms: &Vec<(String, JsonValue)>) -> (r: Result<
    Vec<(String, Property)>,
    ParserError,
>)
    ensures
        r matches Ok(v) ==> sp_props_of(membs_abs(ms@)) == Some(props_abs(v@)),
        r matches Err(e) ==> sp_props_of(membs_abs(ms@)) is None && e is ParseFailed,
{
    let ghost sms = membs_abs(ms@);
    let n = ms.len();
    proof {
        assert(sms.subrange(0, n as int) =~= sms);
    }
    let mut out: Vec<(String, Property)> = Vec::new();
    let mut i: usize = 0;
    while i < n
        invariant
            i <= n,
            n == ms@.len(),
            sms == membs_abs(ms@),
            match sp_props_of(sms.subrange(i as int, n as int)) {
                Some(rest) => sp_props_of(sms) == Some(props_abs(out@) + rest),
                None => sp_props_of(sms) is None,
            },
        decreases n - i,
    {
        proof {
            assert(sms.subrange(i as int, n as int).drop_first() =~= sms.subrange(
                i + 1,
                n as int,
            ));
        }
        let p = &ms[i];
        match project_prop(&p.1) {
            Ok(pv) => {
                let ghost out0 = out@;
                out.push((p.0.clone(), pv));
                proof {
                    assert(props_abs(out@) =~= props_abs(out0) + seq![
                        (out@.last().0@, out@.last().1@),
                    ]);
                    match sp_props_of(sms.subrange(i + 1, n as int)) {
                        Some(rest) => {
                            assert(props_abs(out0) + (seq![(out@.last().0@, out@.last().1@)]
                                + rest) =~= props_abs(out@) + rest);
                        },
                        None => {},
                    }
                }
            },
            Err(e) => {
                return Err(e);
            },
        }
        i = i + 1;
    }
    proof {
        assert(props_abs(out@) + Seq::<(Seq<char>, PropView)>::empty() =~= props_abs(out@));
    }
    Ok(out)
}

/// One component schema object.
fn project_schema(v: &JsonValue) -> (r: Result<ComponentSchema, ParserError>)
    ensures
        r matches Ok(s) ==> sp_schema_of(v.abs()) == Some(s@),
        r matches Err(e) ==> sp_schema_of(v.abs()) is None && e is ParseFailed,
{
    match v {
        JsonValue::Obj(sms) => {
            let req = match obj_get(sms, &String::from_str("required")) {
                None => Vec::new(),
                Some(rv) => match rv {
                    JsonValue::Arr(es) => match project_strs(es) {
                        Ok(t) => t,
                        Err(e) => {
                            return Err(e);
                        },
                    },
                    _ => {
                        return Err(proj_err("required must be an array"));
                    },
                },
            };
            let ty = match get_str_or_empty(sms, &String::from_str("type")) {
                Ok(s) => s,
                Err(e) => {
                    return Err(e);
                },
            };
            let props = match obj_get(sms, &String::from_str("properties")) {
                None => Vec::new(),
                Some(pv) => match pv {
                    JsonValue::Obj(pms) => match project_props(pms) {
                        Ok(ps) => ps,
                        Err(e) => {
                            return Err(e);
                        },
                    },
                    _ => {
                        return Err(proj_err("properties must be an object"));
                    },
                },
            };
            proof {
                if sp_obj_get(membs_abs(sms@), "required"@) is None {
                    assert(strs_abs(Seq::<String>::empty()) =~= Seq::<Seq<char>>::empty());
                }
                if sp_obj_get(membs_abs(sms@), "properties"@) is None {
                    assert(props_abs(Seq::<(String, Property)>::empty()) =~= Seq::<
                        (Seq<char>, PropView),
                    >::empty());
                }
            }
            Ok(ComponentSchema { required: req, type_: ty, properties: props })
        },
        _ => Err(proj_err("a schema must be an object")),
    }
}

/// The named schemas of the components section, in declaration order.
fn project_schemas(ms: &Vec<(String, JsonValue)>) -> (r: Result<
    Vec<(String, ComponentSchema)>,
    ParserError,
>)
    ensures
        r matches Ok(v) ==> sp_schemas_of(membs_abs(ms@)) == Some(schemas_abs(v@)),
        r matches Err(e) ==> sp_schemas_of(membs_abs(ms@)) is None && e is ParseFailed,
{
    let ghost sms = membs_abs(ms@);
    let n = ms.len();
    proof {
        assert(sms.subrange(0, n as int) =~= sms);
    }
    let mut out: Vec<(String, ComponentSchema)> = Vec::new();
    let mut i: usize = 0;
    while i < n
        invariant
            i <= n,
            n == ms@.len(),
            sms == membs_abs(ms@),
            match sp_schemas_of(sms.subrange(i as int, n as int)) {
                Some(rest) => sp_schemas_of(sms) == Some(schemas_abs(out@) + rest),
                None => sp_schemas_of(sms) is None,
            },
        decreases n - i,
    {
        proof {
            assert(sms.subrange(i as int, n as int).drop_first() =~= sms.subrange(
                i + 1,
                n as int,
            ));
        }
        let p = &ms[i];
        match project_schema(&p.1) {
            Ok(sv) => {
                let ghost out0 = out@;
                out.push((p.0.clone(), sv));
                proof {
                    assert(schemas_abs(out@) =~= schemas_abs(out0) + seq![
                        (out@.last().0@, out@.last().1@),
                    ]);
                    match sp_schemas_of(sms.subrange(i + 1, n as int)) {
                        Some(rest) => {
                            assert(schemas_abs(out0) + (seq![(out@.last().0@, out@.last().1@)]
                                + rest) =~= schemas_abs(out@) + rest);
                        },
                        None => {},
                    }
                }
            },
            Err(e) => {
                return Err(e);
            },
        }
        i = i + 1;
    }
    proof {
        assert(schemas_abs(out@) + Seq::<(Seq<char>, ComponentSchemaView)>::empty()
            =~= schemas_abs(out@));
    }
    Ok(out)
}

/// One security scheme object.
fn project_sec(v: &JsonValue) -> (r: Result<SecurityScheme, ParserError>)
    ensures
        r matches Ok(s) ==> sp_sec_of(v.abs()) == Some(s@),
        r matches Err(e) ==> sp_sec_of(v.abs()) is None && e is ParseFailed,
{
    match v {
        JsonValue::Obj(sms) => {
            let ty = match get_str_or_empty(sms, &String::from_str("type")) {
                Ok(s) => s,
                Err(e) => {
                    return Err(e);
                },
            };
            let de = match get_str_or_empty(sms, &String::from_str("description")) {
                Ok(s) => s,
                Err(e) => {
                    return Err(e);
                },
            };
            let sc = match get_str_or_empty(sms, &String::from_str("scheme")) {
                Ok(s) => s,
                Err(e) => {
                    return Err(e);
                },
            };
            let bf = match get_str_or_empty(sms, &String::from_str("bearerFormat")) {
                Ok(s) => s,
                Err(e) => {
                    return Err(e);
                },
            };
            Ok(SecurityScheme { type_: ty, description: de, scheme: sc, bearer_format: bf })
        },
        _ => Err(proj_err("a security scheme must be an object")),
    }
}

/// The named security schemes, in declaration order.
fn project_secs(ms: &Vec<(String, JsonValue)>) -> (r: Result<
    Vec<(String, SecurityScheme)>,
    ParserError,
>)
    ensures
        r matches Ok(v) ==> sp_secs_of(membs_abs(ms@)) == Some(secs_abs(v@)),
        r matches Err(e) ==> sp_secs_of(membs_abs(ms@)) is None && e is ParseFailed,
{
    let ghost sms = membs_abs(ms@);
    let n = ms.len();
    proof {
        assert(sms.subrange(0, n as int) =~= sms);
    }
    let mut out: Vec<(String, SecurityScheme)> = Vec::new();
    let mut i: usize = 0;
    while i < n
        invariant
            i <= n,
            n == ms@.len(),
            sms == membs_abs(ms@),
            match sp_secs_of(sms.subrange(i as int, n as int)) {
                Some(rest) => sp_secs_of(sms) == Some(secs_abs(out@) + rest),
                None => sp_secs_of(sms) is None,
            },
        decreases n - i,
    {
        proof {
            assert(sms.subrange(i as int, n as int).drop_first() =~= sms.subrange(
                i + 1,
                n as int,
            ));
        }
        let p = &ms[i];
        match project_sec(&p.1) {
            Ok(sv) => {
                let ghost out0 = out@;
                out.push((p.0.clone(), sv));
                proof {
                    assert(secs_abs(out@) =~= secs_abs(out0) + seq![
                        (out@.last().0@, out@.last().1@),
                    ]);
                    match sp_secs_of(sms.subrange(i + 1, n as int)) {
                        Some(rest) => {
                            assert(secs_abs(out0) + (seq![(out@.last().0@, out@.last().1@)]
                                + rest) =~= secs_abs(out@) + rest);
                        },
                        None => {},
                    }
                }
            },
            Err(e) => {
                return Err(e);
            },
        }
        i = i + 1;
    }
    proof {
        assert(secs_abs(out@) + Seq::<(Seq<char>, SecuritySchemeView)>::empty() =~= secs_abs(
            out@,
        ));
    }
    Ok(out)
}

/// The components section.
fn project_components(v: &JsonValue) -> (r: Result<Components, ParserError>)
    ensures
        r matches Ok(c) ==> sp_components_of(v.abs()) == Some(c@),
        r matches Err(e) ==> sp_components_of(v.abs()) is None && e is ParseFailed,
{
    match v {
        JsonValue::Obj(cms) => {
            let schemas = match obj_get(cms, &String::from_str("schemas")) {
                None => Vec::new(),
                Some(sv) => match sv {
                    JsonValue::Obj(sms) => match project_schemas(sms) {
                        Ok(s) => s,
                        Err(e) => {
                            return Err(e);
                        },
                    },
                    _ => {
                        return Err(proj_err("schemas must be an object"));
                    },
                },
            };
            let secs = match obj_get(cms, &String::from_str("securitySchemes")) {
                None => Vec::new(),
                Some(sv) => match sv {
                    JsonValue::Obj(sms) => match project_secs(sms) {
                        Ok(s) => s,
                        Err(e) => {
                            return Err(e);
                        },
                    },
                    _ => {
                        return Err(proj_err("securitySchemes must be an object"));
                    },
                },
            };
            proof {
                if sp_obj_get(membs_abs(cms@), "schemas"@) is None {
                    assert(schemas_abs(Seq::<(String, ComponentSchema)>::empty()) =~= Seq::<
                        (Seq<char>, ComponentSchemaView),
                    >::empty());
                }
                if sp_obj_get(membs_abs(cms@), "securitySchemes"@) is None {
                    assert(secs_abs(Seq::<(String, SecurityScheme)>::empty()) =~= Seq::<
                        (Seq<char>, SecuritySchemeView),
                    >::empty());
                }
            }
            Ok(Components { schemas, security_schemes: secs })
        },
        _ => Err(proj_err("the components section must be an object")),
    }
}

/// Project a parsed structured value onto the document model.  The value
/// must be an object; known sections of the wrong shape fail the whole
/// projection, missing optional sections yield empty collections.
pub fn project_document(v: &JsonValue) -> (r: Result<OpenApiDoc, ParserError>)
    ensures
        r matches Ok(d) ==> sp_doc_of(v.abs()) == Some(d@),
        r matches Err(e) ==> sp_doc_of(v.abs()) is None && e is ParseFailed,
{
    match v {
        JsonValue::Obj(ms) => {
            let oa = match get_str_opt(ms, &String::from_str("openapi")) {
                Ok(o) => o,
                Err(e) => {
                    return Err(e);
                },
            };
            let inf = match obj_get(ms, &String::from_str("info")) {
                None => None,
                Some(iv) => match project_info(iv) {
                    Ok(i) => Some(i),
                    Err(e) => {
                        return Err(e);
                    },
                },
            };
            let srv = match obj_get(ms, &String::from_str("servers")) {
                None => None,
                Some(sv) => match sv {
                    JsonValue::Arr(es) => match project_servers(es) {
                        Ok(s) => Some(s),
                        Err(e) => {
                            return Err(e);
                        },
                    },
                    _ => {
                        return Err(proj_err("servers must be an array"));
                    },
                },
            };
            let pth = match obj_get(ms, &String::from_str("paths")) {
                None => Vec::new(),
                Some(pv) => match pv {
                    JsonValue::Obj(pms) => match project_paths(pms) {
                        Ok(p) => p,
                        Err(e) => {
                            return Err(e);
                        },
                    },
                    _ => {
                        return Err(proj_err("paths must be an object"));
                    },
                },
            };
            let cmp = match obj_get(ms, &String::from_str("components")) {
                None => None,
                Some(cv) => match project_components(cv) {
                    Ok(c) => Some(c),
                    Err(e) => {
                        return Err(e);
                    },
                },
            };
            proof {
                if sp_obj_get(membs_abs(ms@), "paths"@) is None {
                    assert(paths_abs(Seq::<(String, PathData)>::empty()) =~= Seq::<
                        (Seq<char>, PathView),
                    >::empty());
                }
            }
            Ok(OpenApiDoc { openapi: oa, info: inf, servers: srv, paths: pth, components: cmp })
        },
        _ => Err(proj_err("an OpenAPI document must be a structured object")),
    }
}

// ---------------------------------------------------------------------------
// Dialect detection and the scanner entry point
// ---------------------------------------------------------------------------

/// Whether a text is valid generic structured data in serde_json's JSON
/// syntax.  The judgment depends on the characters of the text alone.
pub uninterp spec fn json_parses(s: Seq<char>) -> bool;

/// Whether the top level of a JSON text holds a member named `openapi`.
/// The judgment depends on the characters of the text alone.
pub uninterp spec fn json_has_openapi_key(s: Seq<char>) -> bool;

/// Relies on `serde_json::from_str::<Value>`, which parses a text exactly
/// when it is valid JSON, and on `serde_json::Value::get`, which finds a
/// member of the top-level object exactly when one with that name exists.
/// Both depend on the text alone.
#[verifier::external_body]
fn probe_openapi_marker(text: &str) -> (r: Option<bool>)
    ensures
        r is Some <==> json_parses(text@),
        r == Some(true) <==> (json_parses(text@) && json_has_openapi_key(text@)),
{
    match serde_json::from_str::<serde_json::Value>(text) {
        Ok(v) => Some(v.get("openapi").is_some()),
        Err(_) => None,
    }
}

/// The dialect of a specification text: a JSON text with a top-level
/// `openapi` member is an OpenAPI document; a text that is not JSON but
/// whose case/space-normalized first 50 characters contain `<definitions`
/// is a SOAP WSDL document; everything else is unknown.
pub open spec fn sp_detect(s: Seq<char>) -> crate::parser::ApiSpecificationType {
    if json_parses(s) {
        if json_has_openapi_key(s) {
            crate::parser::ApiSpecificationType::OpenApiRest
        } else {
            crate::parser::ApiSpecificationType::Unknown
        }
    } else {
        if crate::parser::sp_wsdl_marker(s) {
            crate::parser::ApiSpecificationType::SoapWSDL
        } else {
            crate::parser::ApiSpecificationType::Unknown
        }
    }
}

/// Sniff the dialect of a specification text without a full parse.
pub fn guess_spec_type_from_text(text: &str) -> (r: crate::parser::ApiSpecificationType)
    ensures
        r == sp_detect(text@),
{
    match probe_openapi_marker(text) {
        Some(true) => crate::parser::ApiSpecificationType::OpenApiRest,
        Some(false) => crate::parser::ApiSpecificationType::Unknown,
        None => {
            if crate::parser::is_wsdl_spec_v2(text) {
                crate::parser::ApiSpecificationType::SoapWSDL
            } else {
                crate::parser::ApiSpecificationType::Unknown
            }
        },
    }
}

/// The detector's classification, for every text: OpenAPI exactly for
/// valid JSON with a top-level `openapi` member; SOAP WSDL exactly for a
/// text that is not valid JSON but whose case/space-normalized first 50
/// characters contain the WSDL root marker; unknown otherwise.
pub proof fn lemma_detect_classification(t: Seq<char>)
    ensures
        sp_detect(t) is OpenApiRest <==> (json_parses(t) && json_has_openapi_key(t)),
        sp_detect(t) is SoapWSDL <==> (!json_parses(t) && crate::parser::sp_wsdl_marker(t)),
        sp_detect(t) is Unknown <==> (!(json_parses(t) && json_has_openapi_key(t)) && !(
        !json_parses(t) && crate::parser::sp_wsdl_marker(t))),
{
}

/// Copy a list of findings.
fn clone_fixables(v: &Vec<Fixable>) -> (r: Vec<Fixable>)
    ensures
        fixes_abs(r@) == fixes_abs(v@),
{
    let mut r: Vec<Fixable> = Vec::new();
    let mut i: usize = 0;
    while i < v.len()
        invariant
            i <= v@.len(),
            r@.len() == i,
            forall|k: int| 0 <= k < i ==> r@[k]@ == v@[k]@,
        decreases v@.len() - i,
    {
        r.push(v[i].clone());
        i = i + 1;
    }
    proof {
        assert(fixes_abs(r@) =~= fixes_abs(v@));
    }
    r
}

/// A scanner over one specification text.  A scan detects the dialect,
/// parses the text into a document, evaluates the rule battery, and keeps
/// the findings and the category scores of the last successful scan.
#[derive(Debug)]
pub struct Scanner {
    text: String,
    fixables: Vec<Fixable>,
    scores: ScoreState,
}

impl Scanner {
    /// The text this scanner works on.
    pub closed spec fn spec_text(&self) -> Seq<char> {
        self.text@
    }

    /// The findings of the last successful scan.
    pub closed spec fn spec_fixables(&self) -> Seq<FixView> {
        fixes_abs(self.fixables@)
    }

    /// The category scores of the last successful scan.
    pub closed spec fn spec_scores(&self) -> ScoreState {
        self.scores
    }

    pub fn new(text: &str) -> (r: Self)
        ensures
            r.spec_text() == text@,
            r.spec_fixables() == Seq::<FixView>::empty(),
            r.spec_scores() == (ScoreState { data_validation_score: 70, security_score: 30 }),
    {
        let r = Scanner { text: text.to_owned(), fixables: Vec::new(), scores: ScoreState::initial() };
        proof {
            assert(fixes_abs(Seq::<Fixable>::empty()) =~= Seq::<FixView>::empty());
        }
        r
    }

    /// Scan the text for structural and security-hygiene defects.
    ///
    /// An empty text is rejected before any tokenization; a text of
    /// unknown dialect is rejected after detection; the SOAP WSDL dialect
    /// is an unimplemented extension point and fails distinguishably.  For
    /// an OpenAPI text the scan parses the document and returns the
    /// ordered findings of the rule battery, keeping them and the category
    /// scores on the scanner.  The whole outcome is a function of the text
    /// alone: two scans of equal texts report equal findings and scores.
    pub fn scan(&mut self) -> (r: Result<Vec<Fixable>, ParserError>)
        ensures
            final(self).spec_text() == old(self).spec_text(),
            r matches Ok(fs) ==> crate::parser::sp_scan_report(
                old(self).spec_text(),
                fixes_abs(fs@),
                final(self).spec_scores(),
            ),
            old(self).spec_text().len() == 0 ==> (r matches Err(e) && e is InvalidInputText),
            old(self).spec_text().len() > 0 ==> match sp_detect(old(self).spec_text()) {
                crate::parser::ApiSpecificationType::OpenApiRest => {
                    &&& (r matches Ok(fs) ==> crate::parser::sp_doc_of_text(old(self).spec_text())
                        matches Some(d) && fixes_abs(fs@) == crate::parser::sp_findings(d)
                        && final(self).spec_fixables() == crate::parser::sp_findings(d)
                        && final(self).spec_scores() == crate::parser::sp_scores(d))
                    &&& (r matches Err(e) ==> crate::parser::sp_doc_of_text(old(self).spec_text())
                        is None && match crate::lexer::sp_tokenize(old(self).spec_text()) {
                        None => e is NumberFormatError,
                        Some(ts) => match crate::json::sp_parse_json(ts) {
                            None => e is JSONParseError,
                            Some(v) => crate::openapi::sp_doc_of(v) is None && e is ParseFailed,
                        },
                    })
                },
                crate::parser::ApiSpecificationType::SoapWSDL => r matches Err(e) && e
                    is ParseFailed,
                crate::parser::ApiSpecificationType::Unknown => r matches Err(e) && e
                    is InvalidSpecificationType,
            },
    {
        let spec_type = guess_spec_type_from_text(self.text.as_str());
        let mut parser = crate::parser::Parser::new(self.text.as_str());
        match parser.parse(&spec_type) {
            Ok(fs) => {
                self.scores = parser.scores();
                self.fixables = clone_fixables(&fs);
                Ok(fs)
            },
            Err(e) => Err(e),
        }
    }

    /// The findings of the last successful scan.
    pub fn fixables(&self) -> (r: &Vec<Fixable>)
        ensures
            fixes_abs(r@) == self.spec_fixables(),
    {
        &self.fixables
    }

    /// The category scores of the last successful scan.
    pub fn scores(&self) -> (r: ScoreState)
        ensures
            r == self.spec_scores(),
    {
        self.scores
    }
}

/// Copy a list of named security schemes.
fn clone_sec_schemes(v: &Vec<(String, SecurityScheme)>) -> (r: Vec<(String, SecurityScheme)>)
    ensures
        secs_abs(r@) == secs_abs(v@),
{
    let mut r: Vec<(String, SecurityScheme)> = Vec::new();
    let mut i: usize = 0;
    while i < v.len()
        invariant
            i <= v@.len(),
            r@.len() == i,
            forall|k: int| 0 <= k < i ==> r@[k].0@ == v@[k].0@ && r@[k].1@ == v@[k].1@,
        decreases v@.len() - i,
    {
        let p = &v[i];
        let s = SecurityScheme {
            type_: p.1.type_.clone(),
            description: p.1.description.clone(),
            scheme: p.1.scheme.clone(),
            bearer_format: p.1.bearer_format.clone(),
        };
        r.push((p.0.clone(), s));
        i = i + 1;
    }
    proof {
        assert(secs_abs(r@) =~= secs_abs(v@));
    }
    r
}

} // verus!
