use mosaic::ascii::Grid;
use mosaic::api_error::ApiError;
use mosaic::auth::{AuthConfig, TokenEntry};
use mosaic::profile::RejectionCode;
use mosaic::registry::{ArtifactKind, FacetState, StoreError};
use mosaic::server::{
    check_program_stride, check_render_cols, check_render_stride, render_cells, decode_b64, decode_pcm_bytes, engine_stride,
    ensure_kind, ensure_renderable, ensure_visible, facet_fetch, list_state, moderate_transition, store_error, submission_kind,
    unknown_engine, validate_name, FacetFetch, FacetSource, ModerateDecision, PublishRequest,
    SubmissionKind,
};

fn cfg() -> AuthConfig {
    AuthConfig::from_entries(vec![
        TokenEntry { token: "a".into(), id: "alice".into(), roles: vec!["author".into()] },
        TokenEntry { token: "m".into(), id: "max".into(), roles: vec!["moderator".into()] },
    ])
    .unwrap()
}

#[test]
fn engines_have_their_strides() {
    assert_eq!(engine_stride("ascii"), Some(8));
    assert_eq!(engine_stride("ascii-structural"), Some(64));
    assert_eq!(engine_stride("spectral"), Some(1));
    assert_eq!(engine_stride("braille"), None);
    let r = unknown_engine("braille");
    assert_eq!(r.code, RejectionCode::UnknownEngine);
    assert_eq!(r.message, "unknown engine \"braille\"");
    let r = check_program_stride(3, "ascii", 8).unwrap_err();
    assert_eq!(r.code, RejectionCode::ProgramStrideMismatch);
    assert_eq!(r.message, "program declares stride 3 but the \"ascii\" engine has stride 8");
    assert!(check_program_stride(8, "ascii", 8).is_ok());
    match check_render_stride(1, 64) {
        Err(ApiError::Rejected(r)) => {
            assert_eq!(r.message, "program declares stride 1 but this render has stride 64")
        }
        other => panic!("{other:?}"),
    }
}

#[test]
fn names_are_trimmed_and_bounded() {
    assert_eq!(validate_name("  glow  ").unwrap(), "glow");
    assert!(matches!(validate_name("   "), Err(ApiError::BadRequest(m)) if m == "name must not be empty"));
    let long = "x".repeat(129);
    assert!(matches!(validate_name(&long), Err(ApiError::BadRequest(m)) if m == "name must be at most 128 characters"));
    assert!(validate_name(&"é".repeat(128)).is_ok());
}

fn req(wasm: Option<&str>, program: Option<&str>, engine: Option<&str>) -> PublishRequest {
    PublishRequest {
        name: "n".into(),
        wasm: wasm.map(String::from),
        program: program.map(String::from),
        engine: engine.map(String::from),
    }
}

#[test]
fn submissions_carry_exactly_one_artifact() {
    assert_eq!(submission_kind(&req(Some("w"), None, None)).unwrap(), SubmissionKind::Wasm);
    assert_eq!(submission_kind(&req(None, Some("p"), Some("ascii"))).unwrap(), SubmissionKind::Program);
    assert!(matches!(submission_kind(&req(Some("w"), Some("p"), None)), Err(ApiError::BadRequest(_))));
    assert!(matches!(submission_kind(&req(None, None, None)), Err(ApiError::BadRequest(_))));
    assert!(matches!(
        submission_kind(&req(None, Some("p"), None)),
        Err(ApiError::BadRequest(m)) if m == "a `program` submission needs an `engine`"
    ));
}

#[test]
fn listing_beyond_published_needs_a_moderator() {
    let c = cfg();
    let alice = c.lookup("a").unwrap();
    let max = c.lookup("m").unwrap();
    assert_eq!(list_state(None, None).unwrap(), FacetState::Published);
    assert_eq!(list_state(Some("published"), None).unwrap(), FacetState::Published);
    assert_eq!(list_state(Some("certified"), Some(max)).unwrap(), FacetState::Certified);
    assert!(matches!(list_state(Some("certified"), Some(alice)), Err(ApiError::Forbidden(_))));
    assert!(matches!(list_state(Some("rejected"), None), Err(ApiError::Forbidden(_))));
    assert!(matches!(
        list_state(Some("draft"), Some(max)),
        Err(ApiError::BadRequest(m)) if m == "unknown state \"draft\""
    ));
}

#[test]
fn unpublished_facets_are_hidden_as_not_found() {
    let c = cfg();
    let alice = c.lookup("a").unwrap();
    let max = c.lookup("m").unwrap();
    let author = "alice".to_string();
    let stranger = "someone".to_string();
    assert!(ensure_visible(FacetState::Published, &stranger, None).is_ok());
    assert!(ensure_visible(FacetState::Certified, &author, Some(alice)).is_ok());
    assert!(ensure_visible(FacetState::Certified, &stranger, Some(max)).is_ok());
    assert!(matches!(
        ensure_visible(FacetState::Certified, &stranger, Some(alice)),
        Err(ApiError::NotFound(m)) if m == "no such facet"
    ));
    assert!(matches!(ensure_visible(FacetState::Rejected, &author, None), Err(ApiError::NotFound(_))));
}

#[test]
fn moderation_moves_only_certified_facets() {
    assert_eq!(moderate_transition(FacetState::Certified, ModerateDecision::Publish).unwrap(), FacetState::Published);
    assert_eq!(moderate_transition(FacetState::Certified, ModerateDecision::Reject).unwrap(), FacetState::Rejected);
    match moderate_transition(FacetState::Published, ModerateDecision::Reject) {
        Err(ApiError::Conflict(m)) => assert_eq!(
            m,
            "Facet is 'published'; only a certified Facet awaiting moderation can be moderated"
        ),
        other => panic!("{other:?}"),
    }
}

#[test]
fn facet_sources_and_payloads() {
    assert_eq!(
        facet_fetch(FacetSource { inline: Some("AA==".into()), id: None }).unwrap(),
        FacetFetch::Inline("AA==".into())
    );
    assert_eq!(
        facet_fetch(FacetSource { inline: None, id: Some("f1".into()) }).unwrap(),
        FacetFetch::Registry("f1".into())
    );
    assert!(facet_fetch(FacetSource { inline: None, id: None }).is_err());
    assert!(facet_fetch(FacetSource { inline: Some("x".into()), id: Some("y".into()) }).is_err());

    assert_eq!(decode_b64("AQID", "input.rgba").unwrap(), vec![1, 2, 3]);
    match decode_b64("!!", "input.rgba") {
        Err(ApiError::BadRequest(m)) => assert!(m.starts_with("`input.rgba` is not valid base64: ")),
        other => panic!("{other:?}"),
    }
    assert_eq!(decode_pcm_bytes("AAAAAA==").unwrap(), vec![0, 0, 0, 0]);
    assert!(matches!(decode_pcm_bytes("AQID"), Err(ApiError::BadRequest(m)) if m.contains("multiple of 4")));
}

#[test]
fn store_failures_are_internal_errors() {
    match store_error(StoreError::Backend("io".into())) {
        ApiError::Internal(m) => assert_eq!(m, "registry backend error: registry backend error: io"),
        other => panic!("{other:?}"),
    }
    let (status, code, message) = ApiError::not_found("gone".into()).envelope();
    assert_eq!((status, code.as_str(), message.as_str()), (404, "not_found", "gone"));
}

#[test]
fn only_a_published_facet_renders_by_id() {
    assert!(ensure_renderable(FacetState::Published).is_ok());
    for st in [FacetState::Certified, FacetState::Rejected] {
        assert!(matches!(ensure_renderable(st), Err(ApiError::NotFound(m)) if m == "no such facet"));
    }
}

#[test]
fn bytes_are_served_only_as_their_own_kind() {
    assert!(ensure_kind(ArtifactKind::Program, ArtifactKind::Program).is_ok());
    assert!(matches!(
        ensure_kind(ArtifactKind::Program, ArtifactKind::Wasm),
        Err(ApiError::NotFound(m)) if m == "no such facet"
    ));
}

#[test]
fn render_grid_limits_are_bad_requests() {
    assert!(check_render_cols(1).is_ok());
    assert!(matches!(check_render_cols(0), Err(ApiError::BadRequest(m)) if m == "params.cols must be greater than zero"));
    assert_eq!(render_cells(&Grid::with_rows(10, 10, 4, 5)).unwrap(), 20);
    assert!(matches!(
        render_cells(&Grid::with_rows(10, 10, 4000, 2001)),
        Err(ApiError::BadRequest(m)) if m == "grid has 8004000 cells, exceeding the maximum of 8000000"
    ));
}
