//! Errors, dialect classification, the rule battery and the structural
//! parse driver.
//!
//! A scan of an OpenAPI document runs an ordered battery of checks against
//! the document model and produces a list of findings together with two
//! saturating category scores.  Rules run in declaration order, and each
//! rule walks the document in declaration order (paths as declared, verbs
//! in the fixed order get, post, put, patch, delete).

use vstd::prelude::*;
use vstd::string::StringExecFns;

use crate::json::parse_json_tokens;
use crate::json::sp_parse_json;
use crate::lexer::sp_tokenize;
use crate::lexer::tokenize;
use crate::openapi::ContentView;
use crate::openapi::DocView;
use crate::openapi::FixView;
use crate::openapi::Fixable;
use crate::openapi::FixableType;
use crate::openapi::IssueScoreImpact;
use crate::openapi::OpView;
use crate::openapi::OpenApiDoc;
use crate::openapi::PathView;
use crate::openapi::PropView;
use crate::openapi::RespView;
use crate::openapi::ScoreState;
use crate::openapi::Server;
use crate::openapi::WeightScore;
use crate::openapi::fixes_abs;
use crate::openapi::project_document;
use crate::openapi::sp_doc_of;
use crate::openapi::sp_fixable_type;
use crate::openapi::urls_abs;

verus! {

/// Every error the scanner core can surface to its caller.  Lexical and
/// structural failures are returned as values of this type, never as
/// process aborts.
#[derive(Debug)]
pub enum ParserError {
    /// The input specification text is empty or unusable.
    InvalidInputText,
    /// The input claims to be a SOAP WSDL definition but is not usable as one.
    InvalidSOAPSpec,
    /// The dialect of the input text could not be classified.
    InvalidSpecificationType,
    /// A structural parse failure for a recognized dialect; the payload names
    /// the underlying cause.
    ParseFailed(String),
    /// A failure while parsing the generic JSON-like structure.
    JSONParseError(String),
    /// A malformed numeric token (more than one dot).
    NumberFormatError(String),
    /// A rule's precondition could not be evaluated.
    DataValidationError(String),
    /// A rule battery for one dialect was invoked against a document of
    /// another; the payloads name the dialect and the document type.
    IncompatibleSpecificationAndDocumentType(String, String),
}

impl ParserError {
    /// A human-readable description of the error, in place of a `Display`
    /// implementation.
    pub fn message(&self) -> String {
        match self {
            ParserError::InvalidInputText => String::from_str(
                "Invalid input text. Either input specification text is empty or not valid",
            ),
            ParserError::InvalidSOAPSpec => String::from_str(
                "Invalid SOAP specification (WSDL definition) file. Please fix the errors and try again.",
            ),
            ParserError::InvalidSpecificationType => String::from_str(
                "Invalid Specification Type. Allowed Specification Types are OpenAPI REST and SOAP WSDL.",
            ),
            ParserError::ParseFailed(cause) => String::from_str(
                "Error occurred while parsing input specification text: ",
            ).concat(cause.as_str()),
            ParserError::JSONParseError(cause) => cause.clone(),
            ParserError::NumberFormatError(cause) => cause.clone(),
            ParserError::DataValidationError(cause) => cause.clone(),
            ParserError::IncompatibleSpecificationAndDocumentType(spec, doc) => String::from_str(
                "Specification type: ",
            ).concat(spec.as_str()).concat(" is incompatible with ").concat(doc.as_str()).concat(
                " type documents",
            ),
        }
    }
}

/// The detected specification dialect; immutable once detected for a scan.
#[derive(Debug, Clone, Copy, PartialEq, Eq, Structural)]
pub enum ApiSpecificationType {
    OpenApiRest,
    SoapWSDL,
    Unknown,
}

impl ApiSpecificationType {
    /// The dialect's display name.
    pub fn display_name(&self) -> String {
        match self {
            ApiSpecificationType::OpenApiRest => String::from_str("Open API"),
            ApiSpecificationType::SoapWSDL => String::from_str("SOAP WSDL"),
            ApiSpecificationType::Unknown => String::from_str("Unknown"),
        }
    }
}

/// A parsed specification document of a recognized dialect.
#[derive(Debug)]
pub enum Document {
    OpenAPI(OpenApiDoc),
}

impl Document {
    /// The document type's display name.
    pub fn display_name(&self) -> String {
        match self {
            Document::OpenAPI(_) => String::from_str("Open API"),
        }
    }
}

// ---------------------------------------------------------------------------
// Scoring
// ---------------------------------------------------------------------------

/// Saturating subtraction on a category score: never below zero.
pub open spec fn sat_sub(a: u8, b: u8) -> u8 {
    if a >= b {
        (a - b) as u8
    } else {
        0
    }
}

/// `n` saturating subtractions of the same weight.
pub open spec fn sp_sat_sub_n(a: u8, w: u8, n: nat) -> u8
    decreases n,
{
    if n == 0 {
        a
    } else {
        sp_sat_sub_n(sat_sub(a, w), w, (n - 1) as nat)
    }
}

/// Subtract a rule weight from a category score, saturating at zero.
pub fn modify_score(final_score: &mut u8, weight_value: u8)
    ensures
        *final(final_score) == sat_sub(*old(final_score), weight_value),
{
    if *final_score >= weight_value {
        *final_score = *final_score - weight_value;
    } else {
        *final_score = 0;
    }
}

// ---------------------------------------------------------------------------
// The rule battery
// ---------------------------------------------------------------------------

/// A finding of the given severity, with the category the severity maps to
/// and no line information.
pub open spec fn sp_fix(msg: Seq<char>, w: WeightScore) -> FixView {
    FixView { message: msg, line: 0, weight: w, category: sp_fixable_type(w) }
}

/// Missing server base URL: the servers section is absent, empty, or holds
/// only empty URLs.
pub open spec fn sp_r1_triggers(d: DocView) -> bool {
    match d.servers {
        None => true,
        Some(urls) => forall|i: int| 0 <= i < urls.len() ==> urls[i].len() == 0,
    }
}

/// The message of a missing-server finding.
pub open spec fn sp_r1_msg() -> Seq<char> {
    "Invalid server. You must provide a server BASEURL for your API. Read OpenAPI specification standards for more information"@
}

/// The findings of the missing-server rule: exactly one critical finding
/// when the rule triggers.
pub open spec fn sp_r1_findings(d: DocView) -> Seq<FixView> {
    if sp_r1_triggers(d) {
        seq![sp_fix(sp_r1_msg(), WeightScore::Critical)]
    } else {
        Seq::empty()
    }
}

/// The message of an undocumented media-type schema finding.
pub open spec fn sp_r2_msg(url: Seq<char>, status: Seq<char>, mt: Seq<char>) -> Seq<char> {
    "Undocumented media-type schema. Path: "@ + url + ", status: "@ + status + ", media type: "@
        + mt
}

/// Undocumented media-type schema over the content entries of one response.
pub open spec fn sp_r2_content(url: Seq<char>, status: Seq<char>, cs: Seq<ContentView>) -> Seq<
    FixView,
>
    decreases cs.len(),
{
    if cs.len() == 0 {
        Seq::empty()
    } else {
        (if cs[0].schema is None {
            seq![sp_fix(sp_r2_msg(url, status, cs[0].media_type), WeightScore::High)]
        } else {
            Seq::empty()
        }) + sp_r2_content(url, status, cs.drop_first())
    }
}

/// Undocumented media-type schema over the responses of one operation.
pub open spec fn sp_r2_responses(url: Seq<char>, rs: Seq<(Seq<char>, RespView)>) -> Seq<FixView>
    decreases rs.len(),
{
    if rs.len() == 0 {
        Seq::empty()
    } else {
        sp_r2_content(url, rs[0].0, rs[0].1.content) + sp_r2_responses(url, rs.drop_first())
    }
}

/// Undocumented media-type schema over one optional operation.
pub open spec fn sp_r2_op(url: Seq<char>, o: Option<OpView>) -> Seq<FixView> {
    match o {
        None => Seq::empty(),
        Some(op) => sp_r2_responses(url, op.responses),
    }
}

/// Undocumented media-type schema over one path item, verbs in canonical
/// order.
pub open spec fn sp_r2_path(url: Seq<char>, p: PathView) -> Seq<FixView> {
    sp_r2_op(url, p.get) + sp_r2_op(url, p.post) + sp_r2_op(url, p.put) + sp_r2_op(url, p.patch)
        + sp_r2_op(url, p.delete)
}

/// Undocumented media-type schema over all paths, in declaration order.
pub open spec fn sp_r2_paths(ps: Seq<(Seq<char>, PathView)>) -> Seq<FixView>
    decreases ps.len(),
{
    if ps.len() == 0 {
        Seq::empty()
    } else {
        sp_r2_path(ps[0].0, ps[0].1) + sp_r2_paths(ps.drop_first())
    }
}

/// The findings of the undocumented media-type schema rule.
pub open spec fn sp_r2_findings(d: DocView) -> Seq<FixView> {
    sp_r2_paths(d.paths)
}

/// Whether a property violates the unbounded-array rule.
pub open spec fn sp_r3_violates(p: PropView) -> bool {
    p.type_ == "array"@ && p.max_items is None
}

/// The message of an unbounded-array finding.
pub open spec fn sp_r3_msg(schema: Seq<char>, prop: Seq<char>) -> Seq<char> {
    "Unbounded array property. Schema: "@ + schema + ", property: "@ + prop
}

/// Whether a property violates the unbounded-string rule.
pub open spec fn sp_r4_violates(p: PropView) -> bool {
    p.type_ == "string"@ && p.max_length is None
}

/// The message of an unbounded-string finding.
pub open spec fn sp_r4_msg(schema: Seq<char>, prop: Seq<char>) -> Seq<char> {
    "String property without a maximum length. Schema: "@ + schema + ", property: "@ + prop
}

/// Whether a property violates the unvalidated-string rule.
pub open spec fn sp_r5_violates(p: PropView) -> bool {
    p.type_ == "string"@ && p.pattern is None
}

/// The message of an unvalidated-string finding.
pub open spec fn sp_r5_msg(schema: Seq<char>, prop: Seq<char>) -> Seq<char> {
    "String property without a validation pattern. Schema: "@ + schema + ", property: "@ + prop
}

/// Unbounded arrays over the properties of one schema.
pub open spec fn sp_r3_props(schema: Seq<char>, ps: Seq<(Seq<char>, PropView)>) -> Seq<FixView>
    decreases ps.len(),
{
    if ps.len() == 0 {
        Seq::empty()
    } else {
        (if sp_r3_violates(ps[0].1) {
            seq![sp_fix(sp_r3_msg(schema, ps[0].0), WeightScore::High)]
        } else {
            Seq::empty()
        }) + sp_r3_props(schema, ps.drop_first())
    }
}

/// Unbounded strings over the properties of one schema.
pub open spec fn sp_r4_props(schema: Seq<char>, ps: Seq<(Seq<char>, PropView)>) -> Seq<FixView>
    decreases ps.len(),
{
    if ps.len() == 0 {
        Seq::empty()
    } else {
        (if sp_r4_violates(ps[0].1) {
            seq![sp_fix(sp_r4_msg(schema, ps[0].0), WeightScore::Medium)]
        } else {
            Seq::empty()
        }) + sp_r4_props(schema, ps.drop_first())
    }
}

/// Unvalidated strings over the properties of one schema.
pub open spec fn sp_r5_props(schema: Seq<char>, ps: Seq<(Seq<char>, PropView)>) -> Seq<FixView>
    decreases ps.len(),
{
    if ps.len() == 0 {
        Seq::empty()
    } else {
        (if sp_r5_violates(ps[0].1) {
            seq![sp_fix(sp_r5_msg(schema, ps[0].0), WeightScore::Medium)]
        } else {
            Seq::empty()
        }) + sp_r5_props(schema, ps.drop_first())
    }
}

/// Unbounded arrays over all schemas, in declaration order.
pub open spec fn sp_r3_schemas(ss: Seq<(Seq<char>, crate::openapi::ComponentSchemaView)>) -> Seq<
    FixView,
>
    decreases ss.len(),
{
    if ss.len() == 0 {
        Seq::empty()
    } else {
        sp_r3_props(ss[0].0, ss[0].1.properties) + sp_r3_schemas(ss.drop_first())
    }
}

/// Unbounded strings over all schemas, in declaration order.
pub open spec fn sp_r4_schemas(ss: Seq<(Seq<char>, crate::openapi::ComponentSchemaView)>) -> Seq<
    FixView,
>
    decreases ss.len(),
{
    if ss.len() == 0 {
        Seq::empty()
    } else {
        sp_r4_props(ss[0].0, ss[0].1.properties) + sp_r4_schemas(ss.drop_first())
    }
}

/// Unvalidated strings over all schemas, in declaration order.
pub open spec fn sp_r5_schemas(ss: Seq<(Seq<char>, crate::openapi::ComponentSchemaView)>) -> Seq<
    FixView,
>
    decreases ss.len(),
{
    if ss.len() == 0 {
        Seq::empty()
    } else {
        sp_r5_props(ss[0].0, ss[0].1.properties) + sp_r5_schemas(ss.drop_first())
    }
}

/// The findings of the unbounded-array rule.
pub open spec fn sp_r3_findings(d: DocView) -> Seq<FixView> {
    match d.components {
        None => Seq::empty(),
        Some(c) => sp_r3_schemas(c.schemas),
    }
}

/// The findings of the unbounded-string rule.
pub open spec fn sp_r4_findings(d: DocView) -> Seq<FixView> {
    match d.components {
        None => Seq::empty(),
        Some(c) => sp_r4_schemas(c.schemas),
    }
}

/// The findings of the unvalidated-string rule.
pub open spec fn sp_r5_findings(d: DocView) -> Seq<FixView> {
    match d.components {
        None => Seq::empty(),
        Some(c) => sp_r5_schemas(c.schemas),
    }
}

/// All findings of a scan, in rule-declaration order, each rule in document
/// traversal order.
pub open spec fn sp_findings(d: DocView) -> Seq<FixView> {
    sp_r1_findings(d) + sp_r2_findings(d) + sp_r3_findings(d) + sp_r4_findings(d) + sp_r5_findings(
        d,
    )
}

/// The security score after a scan: the missing-server rule erodes it.
pub open spec fn sp_security_score(d: DocView) -> u8 {
    if sp_r1_triggers(d) {
        sat_sub(30, 10)
    } else {
        30
    }
}

/// The data-validation score after a scan: each data-rule finding erodes it
/// by its rule's weight, in rule order.
pub open spec fn sp_data_score(d: DocView) -> u8 {
    sp_sat_sub_n(
        sp_sat_sub_n(
            sp_sat_sub_n(sp_sat_sub_n(70, 3, sp_r2_findings(d).len()), 7, sp_r3_findings(d).len()),
            2,
            sp_r4_findings(d).len(),
        ),
        3,
        sp_r5_findings(d).len(),
    )
}

/// Both category scores after a scan of the given document.
pub open spec fn sp_scores(d: DocView) -> ScoreState {
    ScoreState {
        data_validation_score: sp_data_score(d),
        security_score: sp_security_score(d),
    }
}

/// Applying one more saturating subtraction extends the repetition at the
/// end.
proof fn lemma_sat_sub_n_snoc(a: u8, w: u8, n: nat)
    ensures
        sp_sat_sub_n(a, w, n + 1) == sat_sub(sp_sat_sub_n(a, w, n), w),
    decreases n,
{
    assert(sp_sat_sub_n(a, w, n + 1) == sp_sat_sub_n(sat_sub(a, w), w, (n + 1 - 1) as nat));
    assert((n + 1 - 1) as nat == n);
    if n > 0 {
        lemma_sat_sub_n_snoc(sat_sub(a, w), w, (n - 1) as nat);
    }
}

/// Subtract the same weight once per collected finding.
fn apply_weight_n(score: &mut u8, w: u8, n: usize)
    ensures
        *final(score) == sp_sat_sub_n(*old(score), w, n as nat),
{
    let ghost pre = *score;
    let mut j: usize = 0;
    while j < n
        invariant
            j <= n,
            *score == sp_sat_sub_n(pre, w, j as nat),
        decreases n - j,
    {
        proof {
            lemma_sat_sub_n_snoc(pre, w, j as nat);
        }
        modify_score(score, w);
        j = j + 1;
    }
}

/// Whether some server entry declares a non-empty URL.
fn has_non_empty_server(servers: &Vec<Server>) -> (r: bool)
    ensures
        r == !(forall|i: int| 0 <= i < servers@.len() ==> urls_abs(servers@)[i].len() == 0),
{
    let n = servers.len();
    let mut i: usize = 0;
    while i < n
        invariant
            i <= n,
            n == servers@.len(),
            forall|k: int| 0 <= k < i ==> urls_abs(servers@)[k].len() == 0,
        decreases n - i,
    {
        if !servers[i].url.as_str().is_empty() {
            assert(urls_abs(servers@)[i as int].len() > 0);
            return true;
        }
        i = i + 1;
    }
    false
}

/// The message of an undocumented media-type schema finding.
fn r2_message(url: &String, status: &String, mt: &String) -> (r: String)
    ensures
        r@ == sp_r2_msg(url@, status@, mt@),
{
    String::from_str("Undocumented media-type schema. Path: ").concat(url.as_str()).concat(
        ", status: ",
    ).concat(status.as_str()).concat(", media type: ").concat(mt.as_str())
}

/// Undocumented media-type schema over the content entries of one response.
fn collect_r2_content(
    url: &String,
    status: &String,
    cs: &Vec<(String, Option<crate::openapi::SchemaRef>)>,
    out: &mut Vec<Fixable>,
)
    ensures
        fixes_abs(final(out)@) == fixes_abs(old(out)@) + sp_r2_content(
            url@,
            status@,
            crate::openapi::content_abs(cs@),
        ),
{
    let ghost out0 = old(out)@;
    let ghost cabs = crate::openapi::content_abs(cs@);
    let n = cs.len();
    proof {
        assert(cabs.subrange(0, n as int) =~= cabs);
    }
    let mut i: usize = 0;
    while i < n
        invariant
            i <= n,
            n == cs@.len(),
            cabs == crate::openapi::content_abs(cs@),
            fixes_abs(out@) + sp_r2_content(url@, status@, cabs.subrange(i as int, n as int))
                == fixes_abs(out0) + sp_r2_content(url@, status@, cabs),
        decreases n - i,
    {
        proof {
            assert(cabs.subrange(i as int, n as int).drop_first() =~= cabs.subrange(
                i + 1,
                n as int,
            ));
        }
        let entry = &cs[i];
        match entry.1 {
            None => {
                let ghost outpre = out@;
                let msg = r2_message(url, status, &entry.0);
                out.push(Fixable::new(msg, 0, WeightScore::High));
                proof {
                    assert(fixes_abs(out@) =~= fixes_abs(outpre) + seq![out@.last()@]);
                    assert(fixes_abs(outpre) + (seq![out@.last()@] + sp_r2_content(
                        url@,
                        status@,
                        cabs.subrange(i + 1, n as int),
                    )) =~= fixes_abs(out@) + sp_r2_content(
                        url@,
                        status@,
                        cabs.subrange(i + 1, n as int),
                    ));
                }
            },
            Some(_) => {
                proof {
                    assert(Seq::<FixView>::empty() + sp_r2_content(
                        url@,
                        status@,
                        cabs.subrange(i + 1, n as int),
                    ) =~= sp_r2_content(url@, status@, cabs.subrange(i + 1, n as int)));
                }
            },
        }
        i = i + 1;
    }
    proof {
        assert(cabs.subrange(n as int, n as int).len() == 0);
        assert(fixes_abs(out@) + Seq::<FixView>::empty() =~= fixes_abs(out@));
        assert(fixes_abs(out0) + sp_r2_content(url@, status@, cabs) =~= fixes_abs(out@));
    }
}

/// Undocumented media-type schema over one optional operation.
fn collect_r2_op(url: &String, o: &Option<crate::openapi::Operation>, out: &mut Vec<Fixable>)
    ensures
        fixes_abs(final(out)@) == fixes_abs(old(out)@) + sp_r2_op(url@, crate::openapi::op_abs(*o)),
{
    let ghost out0 = old(out)@;
    match o {
        None => {
            proof {
                assert(fixes_abs(out@) + Seq::<FixView>::empty() =~= fixes_abs(out@));
            }
        },
        Some(op) => {
            let ghost rabs = crate::openapi::resps_abs(op.responses@);
            let n = op.responses.len();
            proof {
                assert(rabs.subrange(0, n as int) =~= rabs);
            }
            let mut i: usize = 0;
            while i < n
                invariant
                    i <= n,
                    n == op.responses@.len(),
                    rabs == crate::openapi::resps_abs(op.responses@),
                    fixes_abs(out@) + sp_r2_responses(url@, rabs.subrange(i as int, n as int))
                        == fixes_abs(out0) + sp_r2_responses(url@, rabs),
                decreases n - i,
            {
                proof {
                    assert(rabs.subrange(i as int, n as int).drop_first() =~= rabs.subrange(
                        i + 1,
                        n as int,
                    ));
                }
                let resp = &op.responses[i];
                let ghost outpre = out@;
                collect_r2_content(url, &resp.0, &resp.1.content, out);
                proof {
                    assert((fixes_abs(outpre) + sp_r2_content(url@, resp.0@, resp.1@.content))
                        + sp_r2_responses(url@, rabs.subrange(i + 1, n as int)) =~= fixes_abs(
                        outpre,
                    ) + (sp_r2_content(url@, resp.0@, resp.1@.content) + sp_r2_responses(
                        url@,
                        rabs.subrange(i + 1, n as int),
                    )));
                }
                i = i + 1;
            }
            proof {
                assert(rabs.subrange(n as int, n as int).len() == 0);
                assert(fixes_abs(out@) + Seq::<FixView>::empty() =~= fixes_abs(out@));
            }
        },
    }
}

/// Undocumented media-type schema over one path item, verbs in canonical
/// order.
fn collect_r2_path(url: &String, pd: &crate::openapi::PathData, out: &mut Vec<Fixable>)
    ensures
        fixes_abs(final(out)@) == fixes_abs(old(out)@) + sp_r2_path(url@, pd@),
{
    let ghost out0 = old(out)@;
    collect_r2_op(url, &pd.get, out);
    collect_r2_op(url, &pd.post, out);
    collect_r2_op(url, &pd.put, out);
    collect_r2_op(url, &pd.patch, out);
    collect_r2_op(url, &pd.delete, out);
    proof {
        assert(fixes_abs(out@) =~= fixes_abs(out0) + sp_r2_path(url@, pd@));
    }
}

/// Undocumented media-type schema over all paths, in declaration order.
fn collect_r2(doc: &OpenApiDoc, out: &mut Vec<Fixable>)
    ensures
        fixes_abs(final(out)@) == fixes_abs(old(out)@) + sp_r2_findings(doc@),
{
    let ghost out0 = old(out)@;
    let ghost pabs = doc@.paths;
    let ps = doc.paths();
    let n = ps.len();
    proof {
        assert(pabs.subrange(0, n as int) =~= pabs);
    }
    let mut i: usize = 0;
    while i < n
        invariant
            i <= n,
            n == ps@.len(),
            pabs == crate::openapi::paths_abs(ps@),
            fixes_abs(out@) + sp_r2_paths(pabs.subrange(i as int, n as int)) == fixes_abs(out0)
                + sp_r2_paths(pabs),
        decreases n - i,
    {
        proof {
            assert(pabs.subrange(i as int, n as int).drop_first() =~= pabs.subrange(
                i + 1,
                n as int,
            ));
        }
        let p = &ps[i];
        let ghost outpre = out@;
        collect_r2_path(&p.0, &p.1, out);
        proof {
            assert((fixes_abs(outpre) + sp_r2_path(p.0@, p.1@)) + sp_r2_paths(
                pabs.subrange(i + 1, n as int),
            ) =~= fixes_abs(outpre) + (sp_r2_path(p.0@, p.1@) + sp_r2_paths(
                pabs.subrange(i + 1, n as int),
            )));
        }
        i = i + 1;
    }
    proof {
        assert(pabs.subrange(n as int, n as int).len() == 0);
        assert(fixes_abs(out@) + Seq::<FixView>::empty() =~= fixes_abs(out@));
    }
}

/// The message of an unbounded-array finding.
fn r3_message(schema: &String, prop: &String) -> (r: String)
    ensures
        r@ == sp_r3_msg(schema@, prop@),
{
    String::from_str("Unbounded array property. Schema: ").concat(schema.as_str()).concat(
        ", property: ",
    ).concat(prop.as_str())
}

/// The message of an unbounded-string finding.
fn r4_message(schema: &String, prop: &String) -> (r: String)
    ensures
        r@ == sp_r4_msg(schema@, prop@),
{
    String::from_str("String property without a maximum length. Schema: ").concat(
        schema.as_str(),
    ).concat(", property: ").concat(prop.as_str())
}

/// The message of an unvalidated-string finding.
fn r5_message(schema: &String, prop: &String) -> (r: String)
    ensures
        r@ == sp_r5_msg(schema@, prop@),
{
    String::from_str("String property without a validation pattern. Schema: ").concat(
        schema.as_str(),
    ).concat(", property: ").concat(prop.as_str())
}

/// Unbounded arrays over the properties of one schema.
fn collect_r3_props(
    schema: &String,
    ps: &Vec<(String, crate::openapi::Property)>,
    out: &mut Vec<Fixable>,
)
    ensures
        fixes_abs(final(out)@) == fixes_abs(old(out)@) + sp_r3_props(
            schema@,
            crate::openapi::props_abs(ps@),
        ),
{
    let ghost out0 = old(out)@;
    let ghost pabs = crate::openapi::props_abs(ps@);
    let n = ps.len();
    proof {
        assert(pabs.subrange(0, n as int) =~= pabs);
    }
    let mut i: usize = 0;
    while i < n
        invariant
            i <= n,
            n == ps@.len(),
            pabs == crate::openapi::props_abs(ps@),
            fixes_abs(out@) + sp_r3_props(schema@, pabs.subrange(i as int, n as int)) == fixes_abs(
                out0,
            ) + sp_r3_props(schema@, pabs),
        decreases n - i,
    {
        proof {
            assert(pabs.subrange(i as int, n as int).drop_first() =~= pabs.subrange(
                i + 1,
                n as int,
            ));
        }
        let p = &ps[i];
        let hit = p.1.type_.eq(&String::from_str("array")) && p.1.max_items.is_none();
        if hit {
            let ghost outpre = out@;
            let msg = r3_message(schema, &p.0);
            out.push(Fixable::new(msg, 0, WeightScore::High));
            proof {
                assert(fixes_abs(out@) =~= fixes_abs(outpre) + seq![out@.last()@]);
                assert(fixes_abs(outpre) + (seq![out@.last()@] + sp_r3_props(
                    schema@,
                    pabs.subrange(i + 1, n as int),
                )) =~= fixes_abs(out@) + sp_r3_props(schema@, pabs.subrange(i + 1, n as int)));
            }
        } else {
            proof {
                assert(Seq::<FixView>::empty() + sp_r3_props(
                    schema@,
                    pabs.subrange(i + 1, n as int),
                ) =~= sp_r3_props(schema@, pabs.subrange(i + 1, n as int)));
            }
        }
        i = i + 1;
    }
    proof {
        assert(pabs.subrange(n as int, n as int).len() == 0);
        assert(fixes_abs(out@) + Seq::<FixView>::empty() =~= fixes_abs(out@));
    }
}

/// Unbounded strings over the properties of one schema.
fn collect_r4_props(
    schema: &String,
    ps: &Vec<(String, crate::openapi::Property)>,
    out: &mut Vec<Fixable>,
)
    ensures
        fixes_abs(final(out)@) == fixes_abs(old(out)@) + sp_r4_props(
            schema@,
            crate::openapi::props_abs(ps@),
        ),
{
    let ghost out0 = old(out)@;
    let ghost pabs = crate::openapi::props_abs(ps@);
    let n = ps.len();
    proof {
        assert(pabs.subrange(0, n as int) =~= pabs);
    }
    let mut i: usize = 0;
    while i < n
        invariant
            i <= n,
            n == ps@.len(),
            pabs == crate::openapi::props_abs(ps@),
            fixes_abs(out@) + sp_r4_props(schema@, pabs.subrange(i as int, n as int)) == fixes_abs(
                out0,
            ) + sp_r4_props(schema@, pabs),
        decreases n - i,
    {
        proof {
            assert(pabs.subrange(i as int, n as int).drop_first() =~= pabs.subrange(
                i + 1,
                n as int,
            ));
        }
        let p = &ps[i];
        let hit = p.1.type_.eq(&String::from_str("string")) && p.1.max_length.is_none();
        if hit {
            let ghost outpre = out@;
            let msg = r4_message(schema, &p.0);
            out.push(Fixable::new(msg, 0, WeightScore::Medium));
            proof {
                assert(fixes_abs(out@) =~= fixes_abs(outpre) + seq![out@.last()@]);
                assert(fixes_abs(outpre) + (seq![out@.last()@] + sp_r4_props(
                    schema@,
                    pabs.subrange(i + 1, n as int),
                )) =~= fixes_abs(out@) + sp_r4_props(schema@, pabs.subrange(i + 1, n as int)));
            }
        } else {
            proof {
                assert(Seq::<FixView>::empty() + sp_r4_props(
                    schema@,
                    pabs.subrange(i + 1, n as int),
                ) =~= sp_r4_props(schema@, pabs.subrange(i + 1, n as int)));
            }
        }
        i = i + 1;
    }
    proof {
        assert(pabs.subrange(n as int, n as int).len() == 0);
        assert(fixes_abs(out@) + Seq::<FixView>::empty() =~= fixes_abs(out@));
    }
}

/// Unvalidated strings over the properties of one schema.
fn collect_r5_props(
    schema: &String,
    ps: &Vec<(String, crate::openapi::Property)>,
    out: &mut Vec<Fixable>,
)
    ensures
        fixes_abs(final(out)@) == fixes_abs(old(out)@) + sp_r5_props(
            schema@,
            crate::openapi::props_abs(ps@),
        ),
{
    let ghost out0 = old(out)@;
    let ghost pabs = crate::openapi::props_abs(ps@);
    let n = ps.len();
    proof {
        assert(pabs.subrange(0, n as int) =~= pabs);
    }
    let mut i: usize = 0;
    while i < n
        invariant
            i <= n,
            n == ps@.len(),
            pabs == crate::openapi::props_abs(ps@),
            fixes_abs(out@) + sp_r5_props(schema@, pabs.subrange(i as int, n as int)) == fixes_abs(
                out0,
            ) + sp_r5_props(schema@, pabs),
        decreases n - i,
    {
        proof {
            assert(pabs.subrange(i as int, n as int).drop_first() =~= pabs.subrange(
                i + 1,
                n as int,
            ));
        }
        let p = &ps[i];
        let hit = p.1.type_.eq(&String::from_str("string")) && p.1.pattern.is_none();
        if hit {
            let ghost outpre = out@;
            let msg = r5_message(schema, &p.0);
            out.push(Fixable::new(msg, 0, WeightScore::Medium));
            proof {
                assert(fixes_abs(out@) =~= fixes_abs(outpre) + seq![out@.last()@]);
                assert(fixes_abs(outpre) + (seq![out@.last()@] + sp_r5_props(
                    schema@,
                    pabs.subrange(i + 1, n as int),
                )) =~= fixes_abs(out@) + sp_r5_props(schema@, pabs.subrange(i + 1, n as int)));
            }
        } else {
            proof {
                assert(Seq::<FixView>::empty() + sp_r5_props(
                    schema@,
                    pabs.subrange(i + 1, n as int),
                ) =~= sp_r5_props(schema@, pabs.subrange(i + 1, n as int)));
            }
        }
        i = i + 1;
    }
    proof {
        assert(pabs.subrange(n as int, n as int).len() == 0);
        assert(fixes_abs(out@) + Seq::<FixView>::empty() =~= fixes_abs(out@));
    }
}

/// A data rule over all schemas of the components section, in declaration
/// order.  The three property rules share this walk.
#[derive(Clone, Copy)]
enum PropRule {
    UnboundedArray,
    UnboundedString,
    UnvalidatedString,
}

/// The findings a property rule produces over a list of named schemas.
spec fn sp_propr_schemas(
    rule: PropRule,
    ss: Seq<(Seq<char>, crate::openapi::ComponentSchemaView)>,
) -> Seq<FixView> {
    match rule {
        PropRule::UnboundedArray => sp_r3_schemas(ss),
        PropRule::UnboundedString => sp_r4_schemas(ss),
        PropRule::UnvalidatedString => sp_r5_schemas(ss),
    }
}

/// The findings a property rule produces over one schema's properties.
spec fn sp_propr_props(
    rule: PropRule,
    schema: Seq<char>,
    ps: Seq<(Seq<char>, PropView)>,
) -> Seq<FixView> {
    match rule {
        PropRule::UnboundedArray => sp_r3_props(schema, ps),
        PropRule::UnboundedString => sp_r4_props(schema, ps),
        PropRule::UnvalidatedString => sp_r5_props(schema, ps),
    }
}

/// Walk all schemas of the components section with one property rule.
fn collect_prop_rule(rule: PropRule, doc: &OpenApiDoc, out: &mut Vec<Fixable>)
    ensures
        fixes_abs(final(out)@) == fixes_abs(old(out)@) + (match rule {
            PropRule::UnboundedArray => sp_r3_findings(doc@),
            PropRule::UnboundedString => sp_r4_findings(doc@),
            PropRule::UnvalidatedString => sp_r5_findings(doc@),
        }),
{
    let ghost out0 = old(out)@;
    match doc.components() {
        None => {
            proof {
                assert(fixes_abs(out@) + Seq::<FixView>::empty() =~= fixes_abs(out@));
            }
        },
        Some(c) => {
            let ghost sabs = crate::openapi::schemas_abs(c.schemas@);
            let n = c.schemas.len();
            proof {
                assert(sabs.subrange(0, n as int) =~= sabs);
            }
            let mut i: usize = 0;
            while i < n
                invariant
                    i <= n,
                    n == c.schemas@.len(),
                    sabs == crate::openapi::schemas_abs(c.schemas@),
                    fixes_abs(out@) + sp_propr_schemas(rule, sabs.subrange(i as int, n as int))
                        == fixes_abs(out0) + sp_propr_schemas(rule, sabs),
                decreases n - i,
            {
                proof {
                    assert(sabs.subrange(i as int, n as int).drop_first() =~= sabs.subrange(
                        i + 1,
                        n as int,
                    ));
                }
                let s = &c.schemas[i];
                let ghost outpre = out@;
                match rule {
                    PropRule::UnboundedArray => collect_r3_props(&s.0, &s.1.properties, out),
                    PropRule::UnboundedString => collect_r4_props(&s.0, &s.1.properties, out),
                    PropRule::UnvalidatedString => collect_r5_props(&s.0, &s.1.properties, out),
                }
                proof {
                    assert((fixes_abs(outpre) + sp_propr_props(
                        rule,
                        s.0@,
                        crate::openapi::props_abs(s.1.properties@),
                    )) + sp_propr_schemas(rule, sabs.subrange(i + 1, n as int)) =~= fixes_abs(
                        outpre,
                    ) + (sp_propr_props(rule, s.0@, crate::openapi::props_abs(s.1.properties@))
                        + sp_propr_schemas(rule, sabs.subrange(i + 1, n as int))));
                }
                i = i + 1;
            }
            proof {
                assert(sabs.subrange(n as int, n as int).len() == 0);
                assert(fixes_abs(out@) + Seq::<FixView>::empty() =~= fixes_abs(out@));
            }
        },
    }
}

// ---------------------------------------------------------------------------
// WSDL marker detection
// ---------------------------------------------------------------------------

/// One text character matches one lowercase pattern character up to ASCII
/// case folding.
pub open spec fn ci_match(c: char, p: char) -> bool {
    c as u32 == p as u32 || (97 <= p as u32 && p as u32 <= 122 && c as u32 + 32 == p as u32)
}

/// `s` with every space removed.
pub open spec fn sp_strip_spaces(s: Seq<char>) -> Seq<char>
    decreases s.len(),
{
    if s.len() == 0 {
        Seq::empty()
    } else {
        sp_strip_spaces(s.drop_last()) + (if s.last() == ' ' {
            Seq::<char>::empty()
        } else {
            seq![s.last()]
        })
    }
}

/// The first 50 characters of `s`, or all of it when shorter.
pub open spec fn sp_prefix50(s: Seq<char>) -> Seq<char> {
    if s.len() <= 50 {
        s
    } else {
        s.subrange(0, 50)
    }
}

/// The WSDL root marker stands at position `k` of the normalized text, up
/// to ASCII case.
pub open spec fn sp_match_at(t: Seq<char>, k: int) -> bool {
    forall|j: int|
        0 <= j < "<definitions"@.len() ==> ci_match(t[k + j], #[trigger] ("<definitions"@)[j])
}

/// Whether the case/space-normalized first 50 characters of `s` contain
/// the WSDL root marker.
pub open spec fn sp_wsdl_marker(s: Seq<char>) -> bool {
    let t = sp_strip_spaces(sp_prefix50(s));
    exists|k: int| 0 <= k && k + "<definitions"@.len() <= t.len() && #[trigger] sp_match_at(t, k)
}

/// The characters of the WSDL root marker, one by one.
fn wsdl_pat_char(j: usize) -> (c: char)
    requires
        j < 12,
    ensures
        c == ("<definitions"@)[j as int],
{
    proof {
        reveal_strlit("<definitions");
    }
    if j == 0 {
        '<'
    } else if j == 1 {
        'd'
    } else if j == 2 {
        'e'
    } else if j == 3 {
        'f'
    } else if j == 4 {
        'i'
    } else if j == 5 {
        'n'
    } else if j == 6 {
        'i'
    } else if j == 7 {
        't'
    } else if j == 8 {
        'i'
    } else if j == 9 {
        'o'
    } else if j == 10 {
        'n'
    } else {
        's'
    }
}

/// Whether the WSDL root marker stands at position `k` of the normalized
/// text.
fn wsdl_matches_at(t: &Vec<char>, k: usize) -> (r: bool)
    requires
        k + 12 <= t@.len(),
    ensures
        r == sp_match_at(t@, k as int),
{
    proof {
        reveal_strlit("<definitions");
    }
    let n = t.len();
    let mut j: usize = 0;
    while j < 12
        invariant
            j <= 12,
            n == t@.len(),
            k + 12 <= n,
            forall|j2: int|
                0 <= j2 < j ==> ci_match(t@[k + j2], #[trigger] ("<definitions"@)[j2]),
        decreases 12 - j,
    {
        proof {
            reveal_strlit("<definitions");
        }
        let pc = wsdl_pat_char(j);
        let tc = t[k + j];
        let c32 = tc as u32;
        let p32 = pc as u32;
        let ok = c32 == p32 || (97 <= p32 && p32 <= 122 && (c32 as u64) + 32 == (p32 as u64));
        if !ok {
            assert(!ci_match(t@[k + j as int], ("<definitions"@)[j as int]));
            assert(!sp_match_at(t@, k as int));
            return false;
        }
        j = j + 1;
    }
    assert(sp_match_at(t@, k as int));
    true
}

/// Whether the input is a SOAP WSDL specification: the first 50 characters,
/// case-folded and with spaces removed, contain the WSDL root marker
/// `<definitions`.
pub fn is_wsdl_spec_v2(xml_str: &str) -> (r: bool)
    ensures
        r == sp_wsdl_marker(xml_str@),
{
    proof {
        reveal_strlit("<definitions");
    }
    let cs = crate::lexer::chars_vec(xml_str);
    let limit = if cs.len() > 50 {
        50
    } else {
        cs.len()
    };
    let mut t: Vec<char> = Vec::new();
    let mut i: usize = 0;
    while i < limit
        invariant
            i <= limit,
            limit <= cs@.len(),
            t@ == sp_strip_spaces(cs@.subrange(0, i as int)),
        decreases limit - i,
    {
        proof {
            assert(cs@.subrange(0, i + 1 as int).drop_last() =~= cs@.subrange(0, i as int));
            assert(cs@.subrange(0, i + 1 as int).last() == cs@[i as int]);
        }
        let c = cs[i];
        if c != ' ' {
            let ghost t0 = t@;
            t.push(c);
            proof {
                assert(t@ =~= t0 + seq![c]);
            }
        } else {
            proof {
                assert(t@ + Seq::<char>::empty() =~= t@);
            }
        }
        i = i + 1;
    }
    proof {
        assert(cs@.subrange(0, limit as int) =~= sp_prefix50(cs@));
    }
    let ghost tn = sp_strip_spaces(sp_prefix50(xml_str@));

    if t.len() < 12 {
        proof {
            assert(!sp_wsdl_marker(xml_str@));
        }
        return false;
    }
    let last_k = t.len() - 12;
    let mut k: usize = 0;
    while k <= last_k
        invariant
            last_k + 12 == t@.len(),
            last_k + 12 <= usize::MAX,
            k <= last_k + 1,
            t@ == tn,
            tn == sp_strip_spaces(sp_prefix50(xml_str@)),
            forall|k2: int| 0 <= k2 < k ==> !(#[trigger] sp_match_at(t@, k2)),
        decreases last_k + 1 - k,
    {
        proof {
            reveal_strlit("<definitions");
        }
        if wsdl_matches_at(&t, k) {
            proof {
                reveal_strlit("<definitions");
                assert(sp_match_at(tn, k as int));
            }
            return true;
        }
        k = k + 1;
    }
    proof {
        reveal_strlit("<definitions");
        assert(forall|k2: int| 0 <= k2 && k2 + 12 <= tn.len() ==> !(#[trigger] sp_match_at(
            tn,
            k2,
        )));
    }
    false
}

/// The document a text denotes, through the whole pipeline: tokenize,
/// parse the structure, project onto the model.
pub open spec fn sp_doc_of_text(t: Seq<char>) -> Option<DocView> {
    match sp_tokenize(t) {
        None => None,
        Some(ts) => match sp_parse_json(ts) {
            None => None,
            Some(v) => sp_doc_of(v),
        },
    }
}

/// Run the data-validation rule battery (undocumented media-type schemas,
/// unbounded arrays, unbounded and unvalidated strings) against a parsed
/// document, eroding the data-validation category score by each finding's
/// rule weight.  A battery invoked for a dialect other than the document's
/// own fails without evaluating anything.
fn do_data_validations(
    document: &Document,
    final_data_validation_category_score: &mut u8,
    spec_type: ApiSpecificationType,
) -> (r: Result<Vec<Fixable>, ParserError>)
    ensures
        match spec_type {
            ApiSpecificationType::OpenApiRest => match document {
                Document::OpenAPI(d) => {
                    &&& r matches Ok(fs) && fixes_abs(fs@) == sp_r2_findings(d@) + sp_r3_findings(
                        d@,
                    ) + sp_r4_findings(d@) + sp_r5_findings(d@)
                    &&& *final(final_data_validation_category_score) == sp_sat_sub_n(
                        sp_sat_sub_n(
                            sp_sat_sub_n(
                                sp_sat_sub_n(
                                    *old(final_data_validation_category_score),
                                    3,
                                    sp_r2_findings(d@).len(),
                                ),
                                7,
                                sp_r3_findings(d@).len(),
                            ),
                            2,
                            sp_r4_findings(d@).len(),
                        ),
                        3,
                        sp_r5_findings(d@).len(),
                    )
                },
            },
            ApiSpecificationType::SoapWSDL => r matches Err(e) && e
                is IncompatibleSpecificationAndDocumentType
                && *final(final_data_validation_category_score)
                == *old(final_data_validation_category_score),
            ApiSpecificationType::Unknown => r matches Err(e) && e is InvalidSpecificationType
                && *final(final_data_validation_category_score)
                == *old(final_data_validation_category_score),
        },
{
    match spec_type {
        ApiSpecificationType::OpenApiRest => {
            match document {
                Document::OpenAPI(d) => {
                    let mut out: Vec<Fixable> = Vec::new();
                    proof {
                        assert(fixes_abs(out@) =~= Seq::<FixView>::empty());
                    }
                    let k0 = out.len();
                    let ghost outa = out@;
                    collect_r2(d, &mut out);
                    let k1 = out.len();
                    proof {
                        assert(fixes_abs(out@).len() == out@.len());
                        assert(fixes_abs(outa).len() == outa.len());
                    }
                    assert(k1 >= k0);
                    apply_weight_n(
                        final_data_validation_category_score,
                        IssueScoreImpact::RESPONSE_CONTENT_WITHOUT_SCHEMA_VALUE,
                        k1 - k0,
                    );
                    let ghost out1 = out@;
                    collect_prop_rule(PropRule::UnboundedArray, d, &mut out);
                    let k2 = out.len();
                    proof {
                        assert(fixes_abs(out@).len() == out@.len());
                        assert(fixes_abs(out1).len() == out1.len());
                    }
                    assert(k2 >= k1);
                    apply_weight_n(
                        final_data_validation_category_score,
                        IssueScoreImpact::ARRAY_WITHOUT_MAX_ITEMS_VALUE,
                        k2 - k1,
                    );
                    let ghost out2 = out@;
                    collect_prop_rule(PropRule::UnboundedString, d, &mut out);
                    let k3 = out.len();
                    proof {
                        assert(fixes_abs(out@).len() == out@.len());
                        assert(fixes_abs(out2).len() == out2.len());
                    }
                    assert(k3 >= k2);
                    apply_weight_n(
                        final_data_validation_category_score,
                        IssueScoreImpact::STRING_PROPERTY_WITHOUT_MAX_LENGTH_VALUE,
                        k3 - k2,
                    );
                    let ghost out3 = out@;
                    collect_prop_rule(PropRule::UnvalidatedString, d, &mut out);
                    let k4 = out.len();
                    proof {
                        assert(fixes_abs(out@).len() == out@.len());
                        assert(fixes_abs(out3).len() == out3.len());
                    }
                    assert(k4 >= k3);
                    apply_weight_n(
                        final_data_validation_category_score,
                        IssueScoreImpact::STRING_PROPERTY_WITHOUT_REGEX_PATTERN_VALUE,
                        k4 - k3,
                    );
                    proof {
                        assert(fixes_abs(out@) =~= sp_r2_findings(d@) + sp_r3_findings(d@)
                            + sp_r4_findings(d@) + sp_r5_findings(d@));
                    }
                    Ok(out)
                },
            }
        },
        ApiSpecificationType::SoapWSDL => Err(
            ParserError::IncompatibleSpecificationAndDocumentType(
                String::from_str("SOAP WSDL"),
                document.display_name(),
            ),
        ),
        ApiSpecificationType::Unknown => Err(ParserError::InvalidSpecificationType),
    }
}

/// Parse a plain OpenAPI specification text into a document of the model:
/// the whole pipeline from raw text to the queryable document.
fn parse_json_open_api(text: &str) -> (r: Result<OpenApiDoc, ParserError>)
    ensures
        r matches Ok(d) ==> sp_doc_of_text(text@) == Some(d@),
        r matches Err(e) ==> sp_doc_of_text(text@) is None && match sp_tokenize(text@) {
            None => e is NumberFormatError,
            Some(ts) => match sp_parse_json(ts) {
                None => e is JSONParseError,
                Some(v) => sp_doc_of(v) is None && e is ParseFailed,
            },
        },
{
    let toks = match tokenize(text) {
        Ok(t) => t,
        Err(e) => {
            return Err(e);
        },
    };
    let jv = match parse_json_tokens(&toks) {
        Ok(v) => v,
        Err(e) => {
            return Err(e);
        },
    };
    project_document(&jv)
}

/// Scan an OpenAPI specification text: parse it into a document, run the
/// rule battery in rule-declaration order (missing server first, then the
/// data-validation rules), and report the ordered findings together with
/// the two category scores.
fn parse_open_api_rest(text: &str) -> (r: Result<(Vec<Fixable>, ScoreState), ParserError>)
    ensures
        r matches Ok(p) ==> sp_doc_of_text(text@) matches Some(d) && fixes_abs(p.0@)
            == sp_findings(d) && p.1 == sp_scores(d),
        r matches Err(e) ==> sp_doc_of_text(text@) is None && match sp_tokenize(text@) {
            None => e is NumberFormatError,
            Some(ts) => match sp_parse_json(ts) {
                None => e is JSONParseError,
                Some(v) => sp_doc_of(v) is None && e is ParseFailed,
            },
        },
{
    let doc = match parse_json_open_api(text) {
        Ok(d) => d,
        Err(e) => {
            return Err(e);
        },
    };
    let mut fixables: Vec<Fixable> = Vec::new();
    let mut scores = ScoreState::initial();
    proof {
        assert(fixes_abs(fixables@) =~= Seq::<FixView>::empty());
    }

    // Missing server base URL: one critical finding against the security
    // category.
    let r1 = match doc.servers() {
        None => true,
        Some(ss) => !has_non_empty_server(ss),
    };
    if r1 {
        fixables.push(
            Fixable::new(
                String::from_str(
                    "Invalid server. You must provide a server BASEURL for your API. Read OpenAPI specification standards for more information",
                ),
                0,
                WeightScore::Critical,
            ),
        );
        let mut sec = scores.security_score;
        modify_score(&mut sec, IssueScoreImpact::NO_SERVER_BASE_URL_DEFINED_VALUE);
        scores.security_score = sec;
    }
    proof {
        assert(fixes_abs(fixables@) =~= sp_r1_findings(doc@));
    }

    // The data-validation battery against the data category.
    let mut data = scores.data_validation_score;
    let dv = do_data_validations(
        &Document::OpenAPI(doc),
        &mut data,
        ApiSpecificationType::OpenApiRest,
    );
    scores.data_validation_score = data;
    match dv {
        Ok(mut rest) => {
            let ghost fix0 = fixables@;
            let ghost rest0 = rest@;
            fixables.append(&mut rest);
            proof {
                assert(fixes_abs(fix0 + rest0) =~= fixes_abs(fix0) + fixes_abs(rest0));
            }
            Ok((fixables, scores))
        },
        Err(_) => {
            proof {
                assert(false);
            }
            Err(ParserError::InvalidSpecificationType)
        },
    }
}

/// The SOAP WSDL dialect is an explicit extension point: it is recognized
/// but not evaluated yet, and always fails distinguishably.
fn parse_soap_wsdl(text: &str) -> (r: Result<Vec<Fixable>, ParserError>)
    ensures
        r matches Err(e) && e is ParseFailed,
{
    let _ = text;
    Err(
        ParserError::ParseFailed(
            String::from_str("SOAP WSDL specification documents are not supported yet"),
        ),
    )
}

/// The structural parse driver: parses its text according to a detected
/// dialect and runs the rule battery, keeping the category scores of the
/// last successful parse.
#[derive(Debug)]
pub struct Parser<'a> {
    text: &'a str,
    scores: ScoreState,
}

impl<'a> Parser<'a> {
    /// The text this parser works on.
    pub closed spec fn spec_text(&self) -> Seq<char> {
        self.text@
    }

    /// The category scores of the last successful parse.
    pub closed spec fn spec_scores(&self) -> ScoreState {
        self.scores
    }

    pub fn new(text: &'a str) -> (r: Self)
        ensures
            r.spec_text() == text@,
            r.spec_scores() == (ScoreState { data_validation_score: 70, security_score: 30 }),
    {
        Self { text, scores: ScoreState::initial() }
    }

    /// The category scores of the last successful parse; at their initial
    /// budgets before one.
    pub fn scores(&self) -> (r: ScoreState)
        ensures
            r == self.spec_scores(),
    {
        self.scores
    }

    /// Parse the text according to the given dialect and run the rule
    /// battery.  An empty text is rejected before anything else; an
    /// unknown dialect is rejected; the SOAP WSDL dialect is an
    /// unimplemented extension point and fails distinguishably.  For the
    /// OpenAPI dialect the result is the ordered findings of the rule
    /// battery, with the category scores kept on this parser.
    pub fn parse(&mut self, spec_type: &ApiSpecificationType) -> (r: Result<
        Vec<Fixable>,
        ParserError,
    >)
        ensures
            final(self).spec_text() == old(self).spec_text(),
            old(self).spec_text().len() == 0 ==> (r matches Err(e) && e is InvalidInputText
                && final(self).spec_scores() == old(self).spec_scores()),
            old(self).spec_text().len() > 0 ==> match *spec_type {
                ApiSpecificationType::OpenApiRest => {
                    &&& (r matches Ok(fs) ==> sp_doc_of_text(old(self).spec_text()) matches Some(d)
                        && fixes_abs(fs@) == sp_findings(d) && final(self).spec_scores()
                        == sp_scores(d))
                    &&& (r matches Err(e) ==> sp_doc_of_text(old(self).spec_text()) is None
                        && final(self).spec_scores() == old(self).spec_scores() && match
                        sp_tokenize(old(self).spec_text()) {
                        None => e is NumberFormatError,
                        Some(ts) => match sp_parse_json(ts) {
                            None => e is JSONParseError,
                            Some(v) => sp_doc_of(v) is None && e is ParseFailed,
                        },
                    })
                },
                ApiSpecificationType::SoapWSDL => r matches Err(e) && e is ParseFailed
                    && final(self).spec_scores() == old(self).spec_scores(),
                ApiSpecificationType::Unknown => r matches Err(e) && e is InvalidSpecificationType
                    && final(self).spec_scores() == old(self).spec_scores(),
            },
    {
        if self.text.is_empty() {
            return Err(ParserError::InvalidInputText);
        }
        match spec_type {
            ApiSpecificationType::OpenApiRest => {
                match parse_open_api_rest(self.text) {
                    Ok((fixables, scores)) => {
                        self.scores = scores;
                        Ok(fixables)
                    },
                    Err(e) => Err(e),
                }
            },
            ApiSpecificationType::SoapWSDL => parse_soap_wsdl(self.text),
            ApiSpecificationType::Unknown => Err(ParserError::InvalidSpecificationType),
        }
    }
}

// ---------------------------------------------------------------------------
// Laws
// ---------------------------------------------------------------------------

/// What a successful scan of text `t` reports: the text is non-empty, it
/// was detected as an OpenAPI document, and the findings and scores are
/// those of the rule battery over the document the text denotes.
pub open spec fn sp_scan_report(t: Seq<char>, fs: Seq<FixView>, sc: ScoreState) -> bool {
    &&& t.len() > 0
    &&& crate::openapi::sp_detect(t) is OpenApiRest
    &&& sp_doc_of_text(t) matches Some(d) && fs == sp_findings(d) && sc == sp_scores(d)
}

/// Scanning is deterministic: everything a successful scan reports is a
/// function of the input text alone, so two scans of the same text report
/// identical findings and identical scores.
pub proof fn lemma_scan_deterministic(
    t: Seq<char>,
    fs1: Seq<FixView>,
    sc1: ScoreState,
    fs2: Seq<FixView>,
    sc2: ScoreState,
)
    requires
        sp_scan_report(t, fs1, sc1),
        sp_scan_report(t, fs2, sc2),
    ensures
        fs1 == fs2,
        sc1 == sc2,
{
}

/// A document whose servers section is absent, empty, or holds only empty
/// URLs yields exactly one finding from the missing-server rule; that
/// finding is critical, stands first in the scan's report, and erodes the
/// security score by exactly the rule's weight, saturating at zero.  A
/// document with a non-empty server URL yields no missing-server finding
/// and keeps the full security budget.
pub proof fn lemma_missing_server_rule(d: DocView)
    ensures
        sp_r1_triggers(d) ==> sp_r1_findings(d).len() == 1,
        sp_r1_triggers(d) ==> sp_r1_findings(d)[0].weight == WeightScore::Critical,
        sp_r1_triggers(d) ==> sp_r1_findings(d)[0].category == FixableType::Error,
        sp_r1_triggers(d) ==> sp_findings(d)[0] == sp_r1_findings(d)[0],
        sp_r1_triggers(d) ==> sp_scores(d).security_score == sat_sub(30, 10),
        !sp_r1_triggers(d) ==> sp_r1_findings(d).len() == 0,
        !sp_r1_triggers(d) ==> sp_scores(d).security_score == 30,
{
}

} // verus!

