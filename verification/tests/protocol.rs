use aster::json::JsonValue;
use aster::protocol::{
    Catalog, ClientCapabilities, ClientDataModel, ClientMessage, ClientMessageContent, ErrorCode, PROTOCOL_VERSION,
};

#[test]
fn client_error_messages() {
    let m = ClientMessage::validation_error("s1", "/user/name", "required");
    assert_eq!(m.version, PROTOCOL_VERSION);
    match m.content {
        ClientMessageContent::Error(e) => {
            assert_eq!(e.code, ErrorCode::ValidationFailed);
            assert_eq!(e.surface_id, "s1");
            assert_eq!(e.message, "required");
            assert_eq!(e.path, Some("/user/name".to_string()));
        },
        _ => panic!("expected an error"),
    }
    match ClientMessage::error("s2", "boom").content {
        ClientMessageContent::Error(e) => {
            assert_eq!(e.code, ErrorCode::Other);
            assert!(e.path.is_none());
        },
        _ => panic!("expected an error"),
    }
}

#[test]
fn client_action_message() {
    let ctx = vec![("k".to_string(), JsonValue::Bool(true))];
    match ClientMessage::action("s1", "click", "btn", ctx).content {
        ClientMessageContent::Action(a) => {
            assert_eq!(a.name, "click");
            assert_eq!(a.source_component_id, "btn");
            assert!(a.timestamp.len() >= 25 && a.timestamp.ends_with("+00:00"), "{}", a.timestamp);
            assert_eq!(a.context.len(), 1);
        },
        _ => panic!("expected an action"),
    }
}

#[test]
fn capabilities_collect_inline_catalogs() {
    let cat = |id: &str| Catalog { catalog_id: id.to_string(), components: None, functions: None, theme: None };
    let caps = ClientCapabilities::new(vec!["std".to_string()]);
    assert!(caps.inline_catalogs.is_none());
    let caps = caps.with_inline_catalog(cat("a")).with_inline_catalog(cat("b"));
    let ids: Vec<String> = caps.inline_catalogs.unwrap().into_iter().map(|c| c.catalog_id).collect();
    assert_eq!(ids, vec!["a".to_string(), "b".to_string()]);
    assert_eq!(caps.supported_catalog_ids, vec!["std".to_string()]);
}

#[test]
fn data_model_replaces_a_surface() {
    let m = ClientDataModel::new()
        .with_surface("s1", JsonValue::Bool(true))
        .with_surface("s2", JsonValue::Null)
        .with_surface("s1", JsonValue::Bool(false));
    assert_eq!(m.version, PROTOCOL_VERSION);
    assert_eq!(m.surfaces.len(), 2);
    assert_eq!(m.surfaces.iter().find(|(k, _)| k == "s1").map(|p| &p.1), Some(&JsonValue::Bool(false)));
}
