//! The command router: the typed host-side operations, each translated into
//! a generic request payload and decoded back from the response envelope.
//! Field names and nesting are the wire contract with the worker; the
//! builders state them exactly, and the decoders accept a reply if and only
//! if it has the operation's shape, never dropping a field.

use vstd::prelude::*;
use vstd::string::*;

use crate::doc::{doc_get, fields_jx, jx_get, Doc, Jx};
use crate::sidecar::{sidecar_error_chars, sidecar_error_message, SidecarError};
use crate::wire::{doc_to_json, jdoc_chars};

verus! {

/// A configuration bundle controlling detection sensitivity and redaction
/// behaviour. The bridge forwards it verbatim inside the request payload;
/// only the worker interprets it. The entity map is ordered, as it is sent.
#[derive(Debug, PartialEq)]
pub struct Preset {
    pub preset_id: String,
    pub name: String,
    pub layer: u8,
    pub minimum_confidence: u8,
    pub uncertainty_policy: String,
    pub pseudonym_style: String,
    pub language_mode: String,
    pub language: Option<String>,
    pub entities_enabled: Vec<(String, bool)>,
}

/// The payload form of an entity map: each category name mapped to its
/// enabled flag, in order.
pub open spec fn entities_jx(v: Seq<(String, bool)>) -> Seq<(Seq<char>, Jx)> {
    Seq::new(
        v.len(),
        |k: int| if 0 <= k < v.len() {
            (v[k].0@, Jx::Bool(v[k].1))
        } else {
            (Seq::<char>::empty(), Jx::Null)
        },
    )
}

/// The payload form of a preset: every field under its wire name, the
/// optional language as null when absent.
pub open spec fn preset_jx(p: Preset) -> Jx {
    Jx::Obj(
        seq![
            ("preset_id"@, Jx::Str(p.preset_id@)),
            ("name"@, Jx::Str(p.name@)),
            ("layer"@, Jx::Int(p.layer as int)),
            ("minimum_confidence"@, Jx::Int(p.minimum_confidence as int)),
            ("uncertainty_policy"@, Jx::Str(p.uncertainty_policy@)),
            ("pseudonym_style"@, Jx::Str(p.pseudonym_style@)),
            ("language_mode"@, Jx::Str(p.language_mode@)),
            (
                "language"@,
                match p.language {
                    Some(l) => Jx::Str(l@),
                    None => Jx::Null,
                },
            ),
            ("entities_enabled"@, Jx::Obj(entities_jx(p.entities_enabled@))),
        ],
    )
}

/// Builds the payload form of a preset, as `preset_jx` names.
pub fn preset_to_doc(p: &Preset) -> (d: Doc)
    ensures
        d.jx() == preset_jx(*p),
{
    let mut entities: Vec<(String, Doc)> = Vec::new();
    let n = p.entities_enabled.len();
    let mut k: usize = 0;
    while k < n
        invariant
            n == p.entities_enabled@.len(),
            0 <= k <= n,
            entities@.len() == k,
            forall|t: int| 0 <= t < k ==> entities@[t].0@ == p.entities_enabled@[t].0@
                && entities@[t].1 == Doc::Bool(p.entities_enabled@[t].1),
        decreases n - k,
    {
        entities.push((p.entities_enabled[k].0.clone(), Doc::Bool(p.entities_enabled[k].1)));
        k = k + 1;
    }
    proof {
        assert(fields_jx(entities@) =~~= entities_jx(p.entities_enabled@));
    }
    let mut fields: Vec<(String, Doc)> = Vec::new();
    fields.push((String::from_str("preset_id"), Doc::Text(p.preset_id.clone())));
    fields.push((String::from_str("name"), Doc::Text(p.name.clone())));
    fields.push((String::from_str("layer"), Doc::Int(p.layer as i64)));
    fields.push((String::from_str("minimum_confidence"), Doc::Int(p.minimum_confidence as i64)));
    fields.push((String::from_str("uncertainty_policy"), Doc::Text(p.uncertainty_policy.clone())));
    fields.push((String::from_str("pseudonym_style"), Doc::Text(p.pseudonym_style.clone())));
    fields.push((String::from_str("language_mode"), Doc::Text(p.language_mode.clone())));
    let language = match &p.language {
        Some(l) => Doc::Text(l.clone()),
        None => Doc::Null,
    };
    fields.push((String::from_str("language"), language));
    fields.push((String::from_str("entities_enabled"), Doc::Object(entities)));
    let d = Doc::Object(fields);
    proof {
        assert(d.jx()->Obj_0.len() == 9);
        assert(fields_jx(fields@)[0] == ("preset_id"@, Jx::Str(p.preset_id@)));
        assert(fields_jx(fields@)[2] == ("layer"@, Jx::Int(p.layer as int)));
        assert(d.jx()->Obj_0 =~~= preset_jx(*p)->Obj_0);
    }
    d
}

/// The request payload of the text-analysis operation: the text, the
/// preset, and — only when one is given — the model path.
pub open spec fn analyze_text_request_jx(
    text: Seq<char>,
    p: Preset,
    model_path: Option<Seq<char>>,
) -> Jx {
    match model_path {
        Some(m) => Jx::Obj(
            seq![
                ("text"@, Jx::Str(text)),
                ("preset"@, preset_jx(p)),
                ("model_path"@, Jx::Str(m)),
            ],
        ),
        None => Jx::Obj(seq![("text"@, Jx::Str(text)), ("preset"@, preset_jx(p))]),
    }
}

/// Builds the text-analysis request payload, as `analyze_text_request_jx`
/// names. Construction is total: every preset and text has a payload.
pub fn analyze_text_payload(text: String, preset: &Preset, model_path: Option<String>) -> (d: Doc)
    ensures
        d.jx() == analyze_text_request_jx(
            text@,
            *preset,
            match model_path {
                Some(m) => Some(m@),
                None => None,
            },
        ),
{
    let mut fields: Vec<(String, Doc)> = Vec::new();
    fields.push((String::from_str("text"), Doc::Text(text)));
    fields.push((String::from_str("preset"), preset_to_doc(preset)));
    match model_path {
        Some(m) => {
            fields.push((String::from_str("model_path"), Doc::Text(m)));
            let d = Doc::Object(fields);
            proof {
                assert(d.jx()->Obj_0.len() == 3);
                assert(fields_jx(fields@)[0] == ("text"@, Jx::Str(text@)));
                assert(fields_jx(fields@)[1] == ("preset"@, preset_jx(*preset)));
                assert(fields_jx(fields@)[2] == ("model_path"@, Jx::Str(m@)));
                assert(d.jx()->Obj_0 =~~= analyze_text_request_jx(
                    text@,
                    *preset,
                    Some(m@),
                )->Obj_0);
            }
            d
        },
        None => {
            let d = Doc::Object(fields);
            proof {
                assert(d.jx()->Obj_0.len() == 2);
                assert(fields_jx(fields@)[0] == ("text"@, Jx::Str(text@)));
                assert(fields_jx(fields@)[1] == ("preset"@, preset_jx(*preset)));
                assert(d.jx()->Obj_0 =~~= analyze_text_request_jx(
                    text@,
                    *preset,
                    None,
                )->Obj_0);
            }
            d
        },
    }
}

/// The request payload of the file-analysis operation.
pub open spec fn analyze_file_request_jx(input_path: Seq<char>, p: Preset) -> Jx {
    Jx::Obj(seq![("input_path"@, Jx::Str(input_path)), ("preset"@, preset_jx(p))])
}

/// Builds the file-analysis request payload, as `analyze_file_request_jx`
/// names.
pub fn analyze_file_payload(input_path: String, preset: &Preset) -> (d: Doc)
    ensures
        d.jx() == analyze_file_request_jx(input_path@, *preset),
{
    let mut fields: Vec<(String, Doc)> = Vec::new();
    fields.push((String::from_str("input_path"), Doc::Text(input_path)));
    fields.push((String::from_str("preset"), preset_to_doc(preset)));
    let d = Doc::Object(fields);
    proof {
        assert(d.jx()->Obj_0.len() == 2);
        assert(fields_jx(fields@)[0] == ("input_path"@, Jx::Str(input_path@)));
        assert(fields_jx(fields@)[1] == ("preset"@, preset_jx(*preset)));
        assert(d.jx()->Obj_0 =~~= analyze_file_request_jx(input_path@, *preset)->Obj_0);
    }
    d
}

/// Builds the capability-discovery request payload: the empty field map.
pub fn extensions_payload() -> (d: Doc)
    ensures
        d.jx() == Jx::Obj(Seq::<(Seq<char>, Jx)>::empty()),
{
    let fields: Vec<(String, Doc)> = Vec::new();
    let d = Doc::Object(fields);
    proof {
        assert(d.jx()->Obj_0 =~~= Seq::<(Seq<char>, Jx)>::empty());
    }
    d
}

/// What a router call can fail with: the bridge failed, or the success
/// envelope did not match the operation's expected shape. A decoding failure
/// carries the offending envelope in wire form for diagnosis.
#[derive(Debug, PartialEq)]
pub enum RouterError {
    BridgeFailure(SidecarError),
    DecodingFailure(String),
}

/// The typed result of the text-analysis operation.
#[derive(Debug, PartialEq)]
pub struct AnalyzeTextResponse {
    pub run_id: String,
    pub run_folder: String,
    pub redacted_text: String,
    pub summary: Vec<(String, u32)>,
    pub findings_count: u32,
    pub language: String,
}

/// The typed result of the file-analysis operation.
#[derive(Debug, PartialEq)]
pub struct AnalyzeFileResponse {
    pub run_id: String,
    pub run_folder: String,
    pub output_path: String,
    pub summary: Vec<(String, u32)>,
    pub findings_count: u32,
}

/// The typed result of the capability-discovery operation.
#[derive(Debug, PartialEq)]
pub struct SupportedExtensionsResponse {
    pub extensions: Vec<String>,
}

/// The string an envelope holds under `key`, when it holds a string there.
pub open spec fn str_field(j: Jx, key: Seq<char>) -> Option<Seq<char>> {
    match jx_get(j, key) {
        Some(v) => match v {
            Jx::Str(t) => Some(t),
            _ => None,
        },
        None => None,
    }
}

/// The count an envelope holds under `key`, when it holds an integer there
/// that a count can carry.
pub open spec fn count_field(j: Jx, key: Seq<char>) -> Option<int> {
    match jx_get(j, key) {
        Some(v) => match v {
            Jx::Int(n) => if 0 <= n <= u32::MAX {
                Some(n)
            } else {
                None
            },
            _ => None,
        },
        None => None,
    }
}

/// Whether every field of a run of fields holds a count.
pub open spec fn all_counts(fs: Seq<(Seq<char>, Jx)>) -> bool {
    forall|k: int|
        0 <= k < fs.len() ==> fs[k].1 is Int && 0 <= fs[k].1->Int_0 <= u32::MAX
}

/// The category-to-count map an envelope holds under `key`, when it holds a
/// field map of counts there.
pub open spec fn summary_field(j: Jx, key: Seq<char>) -> Option<Seq<(Seq<char>, int)>> {
    match jx_get(j, key) {
        Some(v) => match v {
            Jx::Obj(fs) => if all_counts(fs) {
                Some(
                    Seq::new(
                        fs.len(),
                        |k: int| if 0 <= k < fs.len() {
                            (fs[k].0, fs[k].1->Int_0)
                        } else {
                            (Seq::<char>::empty(), 0int)
                        },
                    ),
                )
            } else {
                None
            },
            _ => None,
        },
        None => None,
    }
}

/// Whether every element of a run of values is a string.
pub open spec fn all_strs(items: Seq<Jx>) -> bool {
    forall|k: int| 0 <= k < items.len() ==> items[k] is Str
}

/// The list of strings an envelope holds under `extensions`, when it holds
/// a list of strings there.
pub open spec fn extensions_of(j: Jx) -> Option<Seq<Seq<char>>> {
    match jx_get(j, "extensions"@) {
        Some(v) => match v {
            Jx::Arr(items) => if all_strs(items) {
                Some(
                    Seq::new(
                        items.len(),
                        |k: int| if 0 <= k < items.len() {
                            items[k]->Str_0
                        } else {
                            Seq::<char>::empty()
                        },
                    ),
                )
            } else {
                None
            },
            _ => None,
        },
        None => None,
    }
}

/// Whether a decoded summary carries exactly the envelope's counts, field
/// by field and in order.
pub open spec fn summary_matches(v: Seq<(String, u32)>, cs: Seq<(Seq<char>, int)>) -> bool {
    v.len() == cs.len() && forall|k: int|
        0 <= k < v.len() ==> v[k].0@ == cs[k].0 && v[k].1 as int == cs[k].1
}

/// How a text-analysis envelope must decode: a fully-populated typed result
/// exactly when every expected field is present with its expected type, a
/// decoding failure carrying the envelope's wire text otherwise — never a
/// partly-populated result.
pub open spec fn text_decoded(j: Jx, r: Result<AnalyzeTextResponse, RouterError>) -> bool {
    match r {
        Ok(res) => {
            &&& str_field(j, "run_id"@) == Some(res.run_id@)
            &&& str_field(j, "run_folder"@) == Some(res.run_folder@)
            &&& str_field(j, "redacted_text"@) == Some(res.redacted_text@)
            &&& str_field(j, "language"@) == Some(res.language@)
            &&& count_field(j, "findings_count"@) == Some(res.findings_count as int)
            &&& summary_field(j, "summary"@) matches Some(cs) && summary_matches(res.summary@, cs)
        },
        Err(e) => match e {
            RouterError::DecodingFailure(raw) => {
                &&& {
                    ||| str_field(j, "run_id"@) is None
                    ||| str_field(j, "run_folder"@) is None
                    ||| str_field(j, "redacted_text"@) is None
                    ||| str_field(j, "language"@) is None
                    ||| count_field(j, "findings_count"@) is None
                    ||| summary_field(j, "summary"@) is None
                }
                &&& raw@ == jdoc_chars(j)
            },
            RouterError::BridgeFailure(_) => false,
        },
    }
}

/// How a file-analysis envelope must decode.
pub open spec fn file_decoded(j: Jx, r: Result<AnalyzeFileResponse, RouterError>) -> bool {
    match r {
        Ok(res) => {
            &&& str_field(j, "run_id"@) == Some(res.run_id@)
            &&& str_field(j, "run_folder"@) == Some(res.run_folder@)
            &&& str_field(j, "output_path"@) == Some(res.output_path@)
            &&& count_field(j, "findings_count"@) == Some(res.findings_count as int)
            &&& summary_field(j, "summary"@) matches Some(cs) && summary_matches(res.summary@, cs)
        },
        Err(e) => match e {
            RouterError::DecodingFailure(raw) => {
                &&& {
                    ||| str_field(j, "run_id"@) is None
                    ||| str_field(j, "run_folder"@) is None
                    ||| str_field(j, "output_path"@) is None
                    ||| count_field(j, "findings_count"@) is None
                    ||| summary_field(j, "summary"@) is None
                }
                &&& raw@ == jdoc_chars(j)
            },
            RouterError::BridgeFailure(_) => false,
        },
    }
}

/// How a capability-discovery envelope must decode.
pub open spec fn extensions_decoded(
    j: Jx,
    r: Result<SupportedExtensionsResponse, RouterError>,
) -> bool {
    match r {
        Ok(res) => extensions_of(j) matches Some(xs) && res.extensions@.len() == xs.len()
            && (forall|k: int| 0 <= k < xs.len() ==> res.extensions@[k]@ == xs[k]),
        Err(e) => match e {
            RouterError::DecodingFailure(raw) => extensions_of(j) is None && raw@ == jdoc_chars(
                j,
            ),
            RouterError::BridgeFailure(_) => false,
        },
    }
}

/// The string under `key`, as `str_field` names.
fn get_str_field(d: &Doc, key: &str) -> (r: Option<String>)
    ensures
        match r {
            Some(t) => str_field(d.jx(), key@) == Some(t@),
            None => str_field(d.jx(), key@) is None,
        },
{
    match doc_get(d, key) {
        Some(v) => match v {
            Doc::Text(t) => Some(t.clone()),
            _ => None,
        },
        None => None,
    }
}

/// The count under `key`, as `count_field` names.
fn get_count_field(d: &Doc, key: &str) -> (r: Option<u32>)
    ensures
        match r {
            Some(c) => count_field(d.jx(), key@) == Some(c as int),
            None => count_field(d.jx(), key@) is None,
        },
{
    match doc_get(d, key) {
        Some(v) => match v {
            Doc::Int(n) => if *n >= 0 && *n <= u32::MAX as i64 {
                Some(*n as u32)
            } else {
                None
            },
            _ => None,
        },
        None => None,
    }
}

/// The category-to-count map under `key`, as `summary_field` names.
#[verifier::loop_isolation(false)]
fn get_summary_field(d: &Doc, key: &str) -> (r: Option<Vec<(String, u32)>>)
    ensures
        match r {
            Some(v) => summary_field(d.jx(), key@) matches Some(cs) && summary_matches(v@, cs),
            None => summary_field(d.jx(), key@) is None,
        },
{
    match doc_get(d, key) {
        Some(v) => match v {
            Doc::Object(fs) => {
                let ghost fsx = fields_jx(fs@);
                let mut out: Vec<(String, u32)> = Vec::new();
                let n = fs.len();
                let mut k: usize = 0;
                while k < n
                    invariant
                        0 <= k <= n,
                        out@.len() == k,
                        forall|t: int| 0 <= t < k ==> fsx[t].1 is Int && 0 <= fsx[t].1->Int_0
                            <= u32::MAX,
                        forall|t: int| 0 <= t < k ==> out@[t].0@ == fsx[t].0 && out@[t].1 as int
                            == fsx[t].1->Int_0,
                    decreases n - k,
                {
                    match &fs[k].1 {
                        Doc::Int(c) => {
                            if *c >= 0 && *c <= u32::MAX as i64 {
                                out.push((fs[k].0.clone(), *c as u32));
                            } else {
                                proof {
                                    assert(fsx[k as int].1 == fs@[k as int].1.jx());
                                    assert(!all_counts(fsx));
                                }
                                return None;
                            }
                        },
                        _ => {
                            proof {
                                assert(fsx[k as int].1 == fs@[k as int].1.jx());
                                assert(!all_counts(fsx));
                            }
                            return None;
                        },
                    }
                    k = k + 1;
                }
                proof {
                    assert(all_counts(fsx));
                }
                Some(out)
            },
            _ => None,
        },
        None => None,
    }
}

/// Decodes a text-analysis envelope, as `text_decoded` demands.
pub fn decode_analyze_text(d: &Doc) -> (r: Result<AnalyzeTextResponse, RouterError>)
    ensures
        text_decoded(d.jx(), r),
{
    let run_id = match get_str_field(d, "run_id") {
        Some(t) => t,
        None => {
            return Err(RouterError::DecodingFailure(doc_to_json(d)));
        },
    };
    let run_folder = match get_str_field(d, "run_folder") {
        Some(t) => t,
        None => {
            return Err(RouterError::DecodingFailure(doc_to_json(d)));
        },
    };
    let redacted_text = match get_str_field(d, "redacted_text") {
        Some(t) => t,
        None => {
            return Err(RouterError::DecodingFailure(doc_to_json(d)));
        },
    };
    let language = match get_str_field(d, "language") {
        Some(t) => t,
        None => {
            return Err(RouterError::DecodingFailure(doc_to_json(d)));
        },
    };
    let findings_count = match get_count_field(d, "findings_count") {
        Some(c) => c,
        None => {
            return Err(RouterError::DecodingFailure(doc_to_json(d)));
        },
    };
    let summary = match get_summary_field(d, "summary") {
        Some(v) => v,
        None => {
            return Err(RouterError::DecodingFailure(doc_to_json(d)));
        },
    };
    Ok(AnalyzeTextResponse { run_id, run_folder, redacted_text, summary, findings_count, language })
}

/// Decodes a file-analysis envelope, as `file_decoded` demands.
pub fn decode_analyze_file(d: &Doc) -> (r: Result<AnalyzeFileResponse, RouterError>)
    ensures
        file_decoded(d.jx(), r),
{
    let run_id = match get_str_field(d, "run_id") {
        Some(t) => t,
        None => {
            return Err(RouterError::DecodingFailure(doc_to_json(d)));
        },
    };
    let run_folder = match get_str_field(d, "run_folder") {
        Some(t) => t,
        None => {
            return Err(RouterError::DecodingFailure(doc_to_json(d)));
        },
    };
    let output_path = match get_str_field(d, "output_path") {
        Some(t) => t,
        None => {
            return Err(RouterError::DecodingFailure(doc_to_json(d)));
        },
    };
    let findings_count = match get_count_field(d, "findings_count") {
        Some(c) => c,
        None => {
            return Err(RouterError::DecodingFailure(doc_to_json(d)));
        },
    };
    let summary = match get_summary_field(d, "summary") {
        Some(v) => v,
        None => {
            return Err(RouterError::DecodingFailure(doc_to_json(d)));
        },
    };
    Ok(AnalyzeFileResponse { run_id, run_folder, output_path, summary, findings_count })
}

/// Decodes a capability-discovery envelope, as `extensions_decoded`
/// demands.
#[verifier::loop_isolation(false)]
pub fn decode_supported_extensions(d: &Doc) -> (r: Result<
    SupportedExtensionsResponse,
    RouterError,
>)
    ensures
        extensions_decoded(d.jx(), r),
{
    match doc_get(d, "extensions") {
        Some(v) => match v {
            Doc::List(items) => {
                let ghost ix = crate::doc::docs_jx(items@);
                let mut out: Vec<String> = Vec::new();
                let n = items.len();
                let mut k: usize = 0;
                while k < n
                    invariant
                        0 <= k <= n,
                        out@.len() == k,
                        forall|t: int| 0 <= t < k ==> ix[t] is Str,
                        forall|t: int| 0 <= t < k ==> out@[t]@ == ix[t]->Str_0,
                    decreases n - k,
                {
                    match &items[k] {
                        Doc::Text(t) => {
                            out.push(t.clone());
                        },
                        _ => {
                            proof {
                                assert(ix[k as int] == items@[k as int].jx());
                                assert(!all_strs(ix));
                            }
                            return Err(RouterError::DecodingFailure(doc_to_json(d)));
                        },
                    }
                    k = k + 1;
                }
                proof {
                    assert(all_strs(ix));
                }
                Ok(SupportedExtensionsResponse { extensions: out })
            },
            _ => Err(RouterError::DecodingFailure(doc_to_json(d))),
        },
        None => Err(RouterError::DecodingFailure(doc_to_json(d))),
    }
}

/// Maps one whole bridge outcome into the text-analysis operation's typed
/// result: a bridge failure is wrapped as it is, a response envelope is
/// decoded as `text_decoded` demands — the call yields a fully-populated
/// typed result or one classified error, never less.
pub fn analyze_text_result(outcome: Result<Doc, SidecarError>) -> (r: Result<
    AnalyzeTextResponse,
    RouterError,
>)
    ensures
        match outcome {
            Ok(d) => text_decoded(d.jx(), r),
            Err(e) => r == Err::<AnalyzeTextResponse, RouterError>(RouterError::BridgeFailure(e)),
        },
{
    match outcome {
        Ok(d) => decode_analyze_text(&d),
        Err(e) => Err(RouterError::BridgeFailure(e)),
    }
}

/// Maps one whole bridge outcome into the file-analysis operation's typed
/// result.
pub fn analyze_file_result(outcome: Result<Doc, SidecarError>) -> (r: Result<
    AnalyzeFileResponse,
    RouterError,
>)
    ensures
        match outcome {
            Ok(d) => file_decoded(d.jx(), r),
            Err(e) => r == Err::<AnalyzeFileResponse, RouterError>(RouterError::BridgeFailure(e)),
        },
{
    match outcome {
        Ok(d) => decode_analyze_file(&d),
        Err(e) => Err(RouterError::BridgeFailure(e)),
    }
}

/// Maps one whole bridge outcome into the capability-discovery operation's
/// typed result.
pub fn supported_extensions_result(outcome: Result<Doc, SidecarError>) -> (r: Result<
    SupportedExtensionsResponse,
    RouterError,
>)
    ensures
        match outcome {
            Ok(d) => extensions_decoded(d.jx(), r),
            Err(e) => r == Err::<SupportedExtensionsResponse, RouterError>(
                RouterError::BridgeFailure(e),
            ),
        },
{
    match outcome {
        Ok(d) => decode_supported_extensions(&d),
        Err(e) => Err(RouterError::BridgeFailure(e)),
    }
}

/// The single message form a router error is recovered into at the host
/// boundary.
pub open spec fn router_error_chars(e: RouterError) -> Seq<char> {
    match e {
        RouterError::BridgeFailure(se) => sidecar_error_chars(se),
        RouterError::DecodingFailure(raw) => "failed to decode response. payload: "@ + raw@,
    }
}

/// Renders a router error as one message, as `router_error_chars` names.
pub fn router_error_message(e: &RouterError) -> (m: String)
    ensures
        m@ == router_error_chars(*e),
{
    match e {
        RouterError::BridgeFailure(se) => sidecar_error_message(se),
        RouterError::DecodingFailure(raw) => {
            let mut m = String::from_str("failed to decode response. payload: ");
            m.append(raw.as_str());
            m
        },
    }
}

} // verus!
