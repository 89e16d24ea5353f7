//! The decisions the HTTP service makes around its handlers: the request bodies it reads,
//! which engine a submission targets, how a publish request is validated, who may list or
//! see what, how moderation moves a Facet, and how base64 payloads are decoded.

use vstd::prelude::*;
use vstd::string::StringSliceAdditionalSpecFns;

use base64::Engine;
use crate::api_error::ApiError;
use crate::ascii::{cell_count, cell_count_of, Error as AsciiError, Grid, CORE_STRIDE};
use crate::auth::{Principal, Role};
use crate::profile::{Rejection, RejectionCode};
use crate::registry::{state_slug, ArtifactKind, FacetState, StoreError};
use crate::text::{debug_quoted, debug_text, decimal, push_decimal, same_text, trim, trimmed};

verus! {

/// Longest accepted Facet name, in characters.
pub const MAX_NAME_LEN: usize = 128;

/// `POST /v1/certify`: a base64 wasm module.
pub struct CertifyRequest {
    pub wasm: String,
}

/// `POST /v1/facets`: a name and exactly one of a base64 wasm module or a base64 DSL
/// program (with its engine).
pub struct PublishRequest {
    pub name: String,
    pub wasm: Option<String>,
    pub program: Option<String>,
    pub engine: Option<String>,
}

/// `GET /v1/facets?state=..`.
pub struct ListQuery {
    pub state: Option<String>,
}

/// A moderator's decision on a certified Facet.
#[derive(Debug, Clone, Copy, PartialEq, Eq, Structural)]
pub enum ModerateDecision {
    Publish,
    Reject,
}

/// `POST /v1/facets/{id}/moderate`.
pub struct ModerateRequest {
    pub decision: ModerateDecision,
}

/// Where a render's Facet comes from: inline base64 wasm, or a registry id.
pub struct FacetSource {
    pub inline: Option<String>,
    pub id: Option<String>,
}

/// An RGBA image input: base64 pixels and dimensions.
pub struct ImageInput {
    pub rgba: String,
    pub width: u32,
    pub height: u32,
}

/// A PCM input: base64 little-endian `f32` samples and their rate.
pub struct PcmInput {
    pub pcm: String,
    pub sample_rate: u32,
}

/// A required authenticated principal.
pub struct AuthedPrincipal(pub Principal);

/// An optional principal: `None` when no credentials were presented.
pub struct OptionalPrincipal(pub Option<Principal>);

/// The feature stride of an engine, by name: the slot count of its vocabulary.
pub open spec fn engine_stride_of(engine: Seq<char>) -> Option<u32> {
    if engine == "ascii"@ {
        Some(CORE_STRIDE)
    } else if engine == "ascii-structural"@ {
        Some(64)
    } else if engine == "spectral"@ {
        Some(1)
    } else {
        None
    }
}

/// The feature stride an engine's vocabulary has, or `None` for an engine this build does
/// not render.
pub fn engine_stride(engine: &str) -> (r: Option<u32>)
    ensures
        r == engine_stride_of(engine@),
{
    if same_text(engine, "ascii") {
        Some(CORE_STRIDE)
    } else if same_text(engine, "ascii-structural") {
        Some(64)
    } else if same_text(engine, "spectral") {
        Some(1)
    } else {
        None
    }
}

/// The refusal for an engine name this build does not render.
pub fn unknown_engine(engine: &str) -> (r: Rejection)
    ensures
        r.code == RejectionCode::UnknownEngine,
        r.message@ == "unknown engine "@ + debug_text(engine@),
{
    let mut m = String::new();
    m.append("unknown engine ");
    let q = debug_quoted(engine);
    m.append(q.as_str());
    Rejection::new(RejectionCode::UnknownEngine, m)
}

/// A certified program must declare the stride of the engine it is published for.
pub fn check_program_stride(declared: u32, engine: &str, want: u32) -> (r: Result<(), Rejection>)
    ensures
        declared == want ==> r is Ok,
        declared != want ==> (r matches Err(rej) && rej.code == RejectionCode::ProgramStrideMismatch
            && rej.message@ == "program declares stride "@ + decimal(declared as nat) + " but the "@
            + debug_text(engine@) + " engine has stride "@ + decimal(want as nat)),
{
    if declared == want {
        return Ok(());
    }
    let mut m = String::new();
    m.append("program declares stride ");
    push_decimal(&mut m, declared as u64);
    m.append(" but the ");
    let q = debug_quoted(engine);
    m.append(q.as_str());
    m.append(" engine has stride ");
    push_decimal(&mut m, want as u64);
    Err(Rejection::new(RejectionCode::ProgramStrideMismatch, m))
}

/// A render's program must declare the render's stride.
pub fn check_render_stride(declared: u32, stride: u32) -> (r: Result<(), ApiError>)
    ensures
        declared == stride ==> r is Ok,
        declared != stride ==> (r matches Err(ApiError::Rejected(rej)) && rej.code
            == RejectionCode::ProgramStrideMismatch && rej.message@ == "program declares stride "@
            + decimal(declared as nat) + " but this render has stride "@ + decimal(stride as nat)),
{
    if declared == stride {
        return Ok(());
    }
    let mut m = String::new();
    m.append("program declares stride ");
    push_decimal(&mut m, declared as u64);
    m.append(" but this render has stride ");
    push_decimal(&mut m, stride as u64);
    Err(ApiError::Rejected(Rejection::new(RejectionCode::ProgramStrideMismatch, m)))
}

/// Validate a publish request's Facet name: trimmed, non-empty, at most [`MAX_NAME_LEN`]
/// characters. Returns the trimmed name.
pub fn validate_name(name: &str) -> (r: Result<String, ApiError>)
    ensures
        trimmed(name@).len() == 0 ==> (r matches Err(ApiError::BadRequest(m)) && m@
            == "name must not be empty"@),
        trimmed(name@).len() > MAX_NAME_LEN ==> (r matches Err(ApiError::BadRequest(m)) && m@
            == "name must be at most 128 characters"@),
        0 < trimmed(name@).len() <= MAX_NAME_LEN ==> (r matches Ok(n) && n@ == trimmed(name@)),
{
    let t = trim(name);
    let n = t.as_str().unicode_len();
    if n == 0 {
        return Err(ApiError::bad_request("name must not be empty".to_owned()));
    }
    if n > MAX_NAME_LEN {
        return Err(ApiError::bad_request("name must be at most 128 characters".to_owned()));
    }
    Ok(t)
}

/// What a publish submission carries.
#[derive(Debug, Clone, Copy, PartialEq, Eq, Structural)]
pub enum SubmissionKind {
    /// A wasm module.
    Wasm,
    /// A DSL program.
    Program,
}

/// Which artifact a publish request submits: exactly one of `wasm` or `program`, and a
/// program needs an engine.
pub fn submission_kind(req: &PublishRequest) -> (r: Result<SubmissionKind, ApiError>)
    ensures
        req.wasm is Some && req.program is Some ==> (r matches Err(ApiError::BadRequest(m)) && m@
            == "provide exactly one of `wasm` or `program`, not both"@),
        req.wasm is None && req.program is None ==> (r matches Err(ApiError::BadRequest(m)) && m@
            == "a Facet submission needs `wasm` (a module) or `program` (DSL bytecode)"@),
        req.wasm is Some && req.program is None ==> r == Ok::<SubmissionKind, ApiError>(
            SubmissionKind::Wasm,
        ),
        req.wasm is None && req.program is Some && req.engine is None ==> (r matches Err(
            ApiError::BadRequest(m),
        ) && m@ == "a `program` submission needs an `engine`"@),
        req.wasm is None && req.program is Some && req.engine is Some ==> r == Ok::<
            SubmissionKind,
            ApiError,
        >(SubmissionKind::Program),
{
    match (&req.wasm, &req.program) {
        (Some(_), Some(_)) => Err(
            ApiError::bad_request("provide exactly one of `wasm` or `program`, not both".to_owned()),
        ),
        (None, None) => Err(
            ApiError::bad_request(
                "a Facet submission needs `wasm` (a module) or `program` (DSL bytecode)".to_owned(),
            ),
        ),
        (Some(_), None) => Ok(SubmissionKind::Wasm),
        (None, Some(_)) => match &req.engine {
            None => Err(ApiError::bad_request("a `program` submission needs an `engine`".to_owned())),
            Some(_) => Ok(SubmissionKind::Program),
        },
    }
}

/// The state a listing shows: `Published` for the public view (no `state`, or
/// `published`); any other known state only for a moderator.
pub fn list_state(query: Option<&str>, principal: Option<&Principal>) -> (r: Result<FacetState, ApiError>)
    ensures
        match query {
            None => r == Ok::<FacetState, ApiError>(FacetState::Published),
            Some(q) => if q@ == "published"@ {
                r == Ok::<FacetState, ApiError>(FacetState::Published)
            } else {
                match crate::registry::state_of_slug(q@) {
                    None => r matches Err(ApiError::BadRequest(m)) && m@ == "unknown state "@ + debug_text(q@),
                    Some(s) => if principal matches Some(p) && p.held().contains(Role::Moderator) {
                        r == Ok::<FacetState, ApiError>(s)
                    } else {
                        r matches Err(ApiError::Forbidden(m)) && m@
                            == "listing non-published Facets requires the moderator role"@
                    },
                }
            },
        },
{
    match query {
        None => Ok(FacetState::Published),
        Some(q) => {
            if same_text(q, "published") {
                return Ok(FacetState::Published);
            }
            let parsed = match FacetState::parse(q) {
                Some(s) => s,
                None => {
                    let mut m = String::new();
                    m.append("unknown state ");
                    let d = debug_quoted(q);
                    m.append(d.as_str());
                    return Err(ApiError::bad_request(m));
                },
            };
            let moderator = match principal {
                Some(p) => p.has_role(Role::Moderator),
                None => false,
            };
            if !moderator {
                return Err(
                    ApiError::forbidden(
                        "listing non-published Facets requires the moderator role".to_owned(),
                    ),
                );
            }
            Ok(parsed)
        },
    }
}

/// Who may see a Facet: anyone once it is published; before that only its author or a
/// moderator. Everyone else gets a 404, so an unpublished Facet's existence is not revealed.
pub open spec fn visible_to(state: FacetState, author: Seq<char>, p: Option<Principal>) -> bool {
    state == FacetState::Published || (p matches Some(q) && (q.held().contains(Role::Moderator)
        || q.id_text() == author))
}

/// Allow the request to see a Facet in `state` by `author`, or answer 404.
pub fn ensure_visible(state: FacetState, author: &String, principal: Option<&Principal>) -> (r: Result<(), ApiError>)
    ensures
        visible_to(state, author@, match principal { Some(p) => Some(*p), None => None }) ==> r is Ok,
        !visible_to(state, author@, match principal { Some(p) => Some(*p), None => None }) ==> (r matches Err(
            ApiError::NotFound(m),
        ) && m@ == "no such facet"@),
{
    if state == FacetState::Published {
        return Ok(());
    }
    let allowed = match principal {
        Some(p) => p.has_role(Role::Moderator) || *p.id() == *author,
        None => false,
    };
    if allowed {
        Ok(())
    } else {
        Err(ApiError::not_found("no such facet".to_owned()))
    }
}

/// Refuse a render of zero columns with a 400.
pub fn check_render_cols(cols: u32) -> (r: Result<(), ApiError>)
    ensures
        cols > 0 ==> r is Ok,
        cols == 0 ==> (r matches Err(ApiError::BadRequest(m)) && m@ == "params.cols must be greater than zero"@),
{
    if cols == 0 {
        Err(ApiError::bad_request("params.cols must be greater than zero".to_owned()))
    } else {
        Ok(())
    }
}

/// The number of cells a render grid has, or a 400 when the count overflows or passes
/// [`MAX_CELLS`].
pub fn render_cells(grid: &Grid) -> (r: Result<usize, ApiError>)
    ensures
        match cell_count_of(grid.spec_cols(), grid.spec_rows()) {
            Ok(n) => r == Ok::<usize, ApiError>(n),
            Err(AsciiError::TooManyCells { cells, max: _ }) => r matches Err(ApiError::BadRequest(m)) && m@
                == "grid has "@ + decimal(cells as nat) + " cells, exceeding the maximum of 8000000"@,
            Err(_) => r matches Err(ApiError::BadRequest(m)) && m@ == "grid dimensions overflow"@,
        },
{
    match cell_count(grid) {
        Ok(n) => Ok(n),
        Err(AsciiError::TooManyCells { cells, max: _ }) => {
            let mut m = String::new();
            m.append("grid has ");
            push_decimal(&mut m, cells as u64);
            m.append(" cells, exceeding the maximum of 8000000");
            Err(ApiError::bad_request(m))
        },
        Err(_) => Err(ApiError::bad_request("grid dimensions overflow".to_owned())),
    }
}

/// Allow a render by id of a Facet in `state`: only a published Facet renders by id; any
/// other is answered 404, as if it did not exist.
pub fn ensure_renderable(state: FacetState) -> (r: Result<(), ApiError>)
    ensures
        state == FacetState::Published ==> r is Ok,
        state != FacetState::Published ==> (r matches Err(ApiError::NotFound(m)) && m@ == "no such facet"@),
{
    if state == FacetState::Published {
        Ok(())
    } else {
        Err(ApiError::not_found("no such facet".to_owned()))
    }
}

/// Allow a download of a Facet's bytes as `want`: a Facet of another kind is answered 404.
pub fn ensure_kind(kind: ArtifactKind, want: ArtifactKind) -> (r: Result<(), ApiError>)
    ensures
        kind == want ==> r is Ok,
        kind != want ==> (r matches Err(ApiError::NotFound(m)) && m@ == "no such facet"@),
{
    if kind == want {
        Ok(())
    } else {
        Err(ApiError::not_found("no such facet".to_owned()))
    }
}

/// The state a moderation decision moves a Facet to: only a `Certified` Facet can be
/// moderated — published on `Publish`, rejected on `Reject`; any other state is a conflict.
pub open spec fn moderation_of(current: FacetState, decision: ModerateDecision) -> Option<FacetState> {
    if current != FacetState::Certified {
        None
    } else {
        match decision {
            ModerateDecision::Publish => Some(FacetState::Published),
            ModerateDecision::Reject => Some(FacetState::Rejected),
        }
    }
}

/// Apply a moderation decision to a Facet in state `current`.
pub fn moderate_transition(current: FacetState, decision: ModerateDecision) -> (r: Result<FacetState, ApiError>)
    ensures
        match moderation_of(current, decision) {
            Some(s) => r == Ok::<FacetState, ApiError>(s),
            None => r matches Err(ApiError::Conflict(m)) && m@ == "Facet is '"@ + state_slug(current)
                + "'; only a certified Facet awaiting moderation can be moderated"@,
        },
{
    if current != FacetState::Certified {
        let mut m = String::new();
        m.append("Facet is '");
        m.append(current.as_str());
        m.append("'; only a certified Facet awaiting moderation can be moderated");
        return Err(ApiError::conflict(m));
    }
    match decision {
        ModerateDecision::Publish => Ok(FacetState::Published),
        ModerateDecision::Reject => Ok(FacetState::Rejected),
    }
}

/// Moderation never leaves a Facet certified, never moves a published or rejected Facet,
/// and is final: a moderated Facet cannot be moderated again.
pub proof fn lemma_moderation_is_final(current: FacetState, d1: ModerateDecision, d2: ModerateDecision)
    ensures
        moderation_of(current, d1) matches Some(s) ==> current == FacetState::Certified && s
            != FacetState::Certified && moderation_of(s, d2) is None,
        current != FacetState::Certified ==> moderation_of(current, d1) is None,
{
}

/// A registry backend failure as a 500.
pub fn store_error(e: StoreError) -> (r: ApiError)
    ensures
        match e {
            StoreError::Backend(m) => r matches ApiError::Internal(msg) && msg@ == "registry backend error: "@
                + ("registry backend error: "@ + m@),
        },
{
    let text = e.to_display_string();
    let mut m = String::new();
    m.append("registry backend error: ");
    m.append(text.as_str());
    ApiError::internal(m)
}

/// How a render's Facet is to be fetched.
#[derive(Debug, Clone, PartialEq, Eq)]
pub enum FacetFetch {
    /// Decode this inline base64 wasm.
    Inline(String),
    /// Look this id up in the registry.
    Registry(String),
}

/// Choose where a render's Facet comes from: exactly one of `inline` and `id`.
pub fn facet_fetch(source: FacetSource) -> (r: Result<FacetFetch, ApiError>)
    ensures
        match (source.inline, source.id) {
            (Some(_), Some(_)) => r matches Err(ApiError::BadRequest(m)) && m@
                == "provide `facet.inline` or `facet.id`, not both"@,
            (Some(b), None) => r == Ok::<FacetFetch, ApiError>(FacetFetch::Inline(b)),
            (None, Some(i)) => r == Ok::<FacetFetch, ApiError>(FacetFetch::Registry(i)),
            (None, None) => r matches Err(ApiError::BadRequest(m)) && m@
                == "facet.inline (base64 wasm) or facet.id (a published facet) is required"@,
        },
{
    match (source.inline, source.id) {
        (Some(_), Some(_)) => Err(
            ApiError::bad_request("provide `facet.inline` or `facet.id`, not both".to_owned()),
        ),
        (Some(b), None) => Ok(FacetFetch::Inline(b)),
        (None, Some(i)) => Ok(FacetFetch::Registry(i)),
        (None, None) => Err(
            ApiError::bad_request(
                "facet.inline (base64 wasm) or facet.id (a published facet) is required".to_owned(),
            ),
        ),
    }
}

/// What standard base64 decoding makes of `text`: the bytes, or the decoder's error
/// message.
pub uninterp spec fn base64_decoded(text: Seq<u8>) -> Result<Seq<u8>, Seq<char>>;

/// `base64::engine::general_purpose::STANDARD.decode`: claims the outcome is what
/// `base64_decoded` names for the input bytes, the error turned into its message.
#[verifier::external_body]
fn base64_decode(text: &[u8]) -> (r: Result<Vec<u8>, String>)
    ensures
        base64_decoded(text@) == match r {
            Ok(v) => Ok::<Seq<u8>, Seq<char>>(v@),
            Err(m) => Err(m@),
        },
{
    base64::engine::general_purpose::STANDARD.decode(text).map_err(|e| e.to_string())
}

/// Decode a base64 request field, a 400 naming the field when it is not valid base64.
pub fn decode_b64(b64: &str, field: &str) -> (r: Result<Vec<u8>, ApiError>)
    ensures
        match base64_decoded(b64.spec_bytes()) {
            Ok(v) => r matches Ok(w) && w@ == v,
            Err(e) => r matches Err(ApiError::BadRequest(m)) && m@ == "`"@ + field@
                + "` is not valid base64: "@ + e,
        },
{
    match base64_decode(b64.as_bytes()) {
        Ok(v) => Ok(v),
        Err(e) => {
            let mut m = String::new();
            m.append("`");
            m.append(field);
            m.append("` is not valid base64: ");
            m.append(e.as_str());
            Err(ApiError::bad_request(m))
        },
    }
}

/// Decode base64 PCM bytes, which must hold whole little-endian `f32` samples.
pub fn decode_pcm_bytes(b64: &str) -> (r: Result<Vec<u8>, ApiError>)
    ensures
        match base64_decoded(b64.spec_bytes()) {
            Ok(v) => if v.len() % 4 == 0 {
                r matches Ok(w) && w@ == v
            } else {
                r matches Err(ApiError::BadRequest(m)) && m@
                    == "input.pcm byte length must be a multiple of 4 (little-endian f32)"@
            },
            Err(e) => r matches Err(ApiError::BadRequest(m)) && m@
                == "`input.pcm` is not valid base64: "@ + e,
        },
{
    proof {
        reveal_strlit("input.pcm");
        reveal_strlit("`");
        reveal_strlit("` is not valid base64: ");
        reveal_strlit("`input.pcm` is not valid base64: ");
    }
    let bytes = match decode_b64(b64, "input.pcm") {
        Ok(v) => v,
        Err(e) => {
            assert("`"@ + "input.pcm"@ + "` is not valid base64: "@ =~= "`input.pcm` is not valid base64: "@);
            return Err(e);
        },
    };
    if bytes.len() % 4 != 0 {
        return Err(
            ApiError::bad_request(
                "input.pcm byte length must be a multiple of 4 (little-endian f32)".to_owned(),
            ),
        );
    }
    Ok(bytes)
}

} // verus!
