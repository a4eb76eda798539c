//! The client side of the UI protocol: the messages a client sends (actions
//! and errors), the capabilities it declares and the data model it reports.

use vstd::prelude::*;
use crate::json::JsonValue;

verus! {

/// The protocol version every message carries.
pub const PROTOCOL_VERSION: &'static str = "v0.10";

/// The kind of an error a client reports.
#[derive(Debug, Clone, Copy, PartialEq, Eq, Structural)]
pub enum ErrorCode {
    ValidationFailed,
    Other,
}

/// An action the user's interaction raised.
#[derive(Debug)]
pub struct ActionMessage {
    pub name: String,
    pub surface_id: String,
    pub source_component_id: String,
    /// ISO 8601 time of the event
    pub timestamp: String,
    /// The event's context, one entry per key
    pub context: Vec<(String, JsonValue)>,
}

/// An error a client reports; `path` is the JSON pointer of a failed validation.
#[derive(Debug)]
pub struct ErrorMessage {
    pub code: ErrorCode,
    pub surface_id: String,
    pub message: String,
    pub path: Option<String>,
}

/// What a client message holds.
#[derive(Debug)]
pub enum ClientMessageContent {
    Action(ActionMessage),
    Error(ErrorMessage),
}

/// A message from the client, with the protocol version.
#[derive(Debug)]
pub struct ClientMessage {
    pub version: String,
    pub content: ClientMessageContent,
}

/// What every RFC 3339 text of a UTC time that chrono writes shares: at least
/// `YYYY-MM-DDTHH:MM:SS` and the offset, which is `+00:00`.
pub open spec fn utc_rfc3339_shape(t: Seq<char>) -> bool {
    t.len() >= 25 && t.subrange(t.len() - 6, t.len() as int) == "+00:00"@
}

/// The current time in RFC 3339 (`chrono::Utc::now().to_rfc3339()`).  It
/// depends on the clock; the contract claims only the shape every such text
/// has (chrono writes the zero offset of UTC as `+00:00`).
#[verifier::external_body]
fn now_rfc3339() -> (r: String)
    ensures
        utc_rfc3339_shape(r@),
{
    chrono::Utc::now().to_rfc3339()
}

impl ClientMessage {
    /// A message with this content at the current protocol version.
    pub fn new(content: ClientMessageContent) -> (r: Self)
        ensures
            r.version@ == PROTOCOL_VERSION@,
            r.content == content,
    {
        ClientMessage { version: String::from_str(PROTOCOL_VERSION), content }
    }

    /// An action raised on a surface by a component, stamped with the
    /// current time in RFC 3339 (UTC).
    pub fn action(surface_id: &str, name: &str, source_component_id: &str, context: Vec<(String, JsonValue)>) -> (r: Self)
        ensures
            r.version@ == PROTOCOL_VERSION@,
            r.content matches ClientMessageContent::Action(a) && a.surface_id@ == surface_id@ && a.name@ == name@
                && a.source_component_id@ == source_component_id@ && a.context == context
                && utc_rfc3339_shape(a.timestamp@),
    {
        let timestamp = now_rfc3339();
        Self::new(ClientMessageContent::Action(ActionMessage {
            name: String::from_str(name),
            surface_id: String::from_str(surface_id),
            source_component_id: String::from_str(source_component_id),
            timestamp,
            context,
        }))
    }

    /// A failed validation at `path` of a surface's data.
    pub fn validation_error(surface_id: &str, path: &str, message: &str) -> (r: Self)
        ensures
            r.version@ == PROTOCOL_VERSION@,
            r.content matches ClientMessageContent::Error(e) && e.code == ErrorCode::ValidationFailed
                && e.surface_id@ == surface_id@ && e.message@ == message@ && (e.path matches Some(p) && p@ == path@),
    {
        Self::new(ClientMessageContent::Error(ErrorMessage {
            code: ErrorCode::ValidationFailed,
            surface_id: String::from_str(surface_id),
            message: String::from_str(message),
            path: Some(String::from_str(path)),
        }))
    }

    /// Any other error on a surface.
    pub fn error(surface_id: &str, message: &str) -> (r: Self)
        ensures
            r.version@ == PROTOCOL_VERSION@,
            r.content matches ClientMessageContent::Error(e) && e.code == ErrorCode::Other
                && e.surface_id@ == surface_id@ && e.message@ == message@ && e.path is None,
    {
        Self::new(ClientMessageContent::Error(ErrorMessage {
            code: ErrorCode::Other,
            surface_id: String::from_str(surface_id),
            message: String::from_str(message),
            path: None,
        }))
    }
}

/// A function a catalog defines.
#[derive(Debug)]
pub struct FunctionDefinition {
    pub name: String,
    pub description: Option<String>,
    /// The JSON schema of its parameters
    pub parameters: JsonValue,
    pub return_type: String,
}

/// A component catalog a client declares inline.
#[derive(Debug)]
pub struct Catalog {
    pub catalog_id: String,
    pub components: Option<Vec<(String, JsonValue)>>,
    pub functions: Option<Vec<FunctionDefinition>>,
    pub theme: Option<Vec<(String, JsonValue)>>,
}

/// The catalogs a client supports, by id, and those it defines inline.
#[derive(Debug)]
pub struct ClientCapabilities {
    pub supported_catalog_ids: Vec<String>,
    pub inline_catalogs: Option<Vec<Catalog>>,
}

impl ClientCapabilities {
    /// Capabilities naming these catalogs, with none inline.
    pub fn new(supported_catalog_ids: Vec<String>) -> (r: Self)
        ensures
            r.supported_catalog_ids == supported_catalog_ids,
            r.inline_catalogs is None,
    {
        ClientCapabilities { supported_catalog_ids, inline_catalogs: None }
    }

    /// The same capabilities with one more inline catalog, after those
    /// already there.
    pub fn with_inline_catalog(self, catalog: Catalog) -> (r: Self)
        ensures
            r.supported_catalog_ids == self.supported_catalog_ids,
            r.inline_catalogs matches Some(cs) && cs@ == match self.inline_catalogs {
                Some(old) => old@,
                None => Seq::<Catalog>::empty(),
            }.push(catalog),
    {
        let mut catalogs = match self.inline_catalogs {
            Some(cs) => cs,
            None => Vec::new(),
        };
        catalogs.push(catalog);
        ClientCapabilities { supported_catalog_ids: self.supported_catalog_ids, inline_catalogs: Some(catalogs) }
    }
}

/// The data a client holds for each surface, with the protocol version.
#[derive(Debug)]
pub struct ClientDataModel {
    pub version: String,
    /// One entry per surface id
    pub surfaces: Vec<(String, JsonValue)>,
}

/// The data held for a surface (the last entry with its id).
pub open spec fn surface_data(surfaces: Seq<(String, JsonValue)>, id: Seq<char>) -> Option<JsonValue>
    decreases surfaces.len(),
{
    if surfaces.len() == 0 {
        None
    } else if surfaces.last().0@ == id {
        Some(surfaces.last().1)
    } else {
        surface_data(surfaces.drop_last(), id)
    }
}

impl ClientDataModel {
    /// An empty data model at the current protocol version.
    pub fn new() -> (r: Self)
        ensures
            r.version@ == PROTOCOL_VERSION@,
            r.surfaces@.len() == 0,
    {
        ClientDataModel { version: String::from_str(PROTOCOL_VERSION), surfaces: Vec::new() }
    }

    /// The same model with `data` held for `surface_id`, replacing what was
    /// held for it (`HashMap::insert`).
    pub fn with_surface(self, surface_id: &str, data: JsonValue) -> (r: Self)
        ensures
            r.version == self.version,
            surface_data(r.surfaces@, surface_id@) == Some(data),
            forall|k: Seq<char>| k != surface_id@ ==> surface_data(r.surfaces@, k) == surface_data(self.surfaces@, k),
    {
        let mut surfaces = self.surfaces;
        let ghost before = surfaces@;
        let mut kept: Vec<(String, JsonValue)> = Vec::new();
        while surfaces.len() > 0
            invariant
                surfaces@.len() <= before.len(),
                surfaces@ == before.skip(before.len() - surfaces@.len()),
                forall|k: Seq<char>| k != surface_id@ ==> surface_data(kept@, k) == surface_data(
                    before.take(before.len() - surfaces@.len()),
                    k,
                ),
                surface_data(kept@, surface_id@) is None,
            decreases surfaces@.len(),
        {
            let ghost i = before.len() - surfaces@.len();
            let ghost rest = surfaces@;
            let e = surfaces.remove(0);
            proof {
                assert(e == before[i]);
                assert(surfaces@ =~= before.skip(i + 1));
                assert(before.take(i + 1).drop_last() =~= before.take(i));
            }
            let ghost t = before.take(i + 1);
            if !crate::text::str_eq(e.0.as_str(), surface_id) {
                let ghost k0 = kept@;
                let ghost ge = e;
                kept.push(e);
                proof {
                    assert(kept@.drop_last() =~= k0);
                    assert(kept@.last() == ge);
                    assert(t.last() == ge);
                    assert(t.drop_last() =~= before.take(i));
                    assert forall|k: Seq<char>| k != surface_id@ implies surface_data(kept@, k) == surface_data(t, k) by {
                        if ge.0@ != k {
                            assert(surface_data(kept@, k) == surface_data(k0, k));
                            assert(surface_data(t, k) == surface_data(before.take(i), k));
                        }
                    }
                }
            } else {
                proof {
                    assert(e.0@ == surface_id@);
                    assert forall|k: Seq<char>| k != surface_id@ implies surface_data(kept@, k) == surface_data(t, k) by {
                        assert(t.last() == e);
                        assert(t.drop_last() =~= before.take(i));
                        assert(surface_data(t, k) == surface_data(t.drop_last(), k));
                    }
                }
            }
        }
        proof {
            assert(before.take(before.len() as int) =~= before);
        }
        let ghost k1 = kept@;
        kept.push((String::from_str(surface_id), data));
        proof {
            assert(kept@.drop_last() =~= k1);
            assert forall|k: Seq<char>| k != surface_id@ implies surface_data(kept@, k) == surface_data(before, k) by {
                assert(surface_data(kept@, k) == surface_data(k1, k));
                assert(surface_data(k1, k) == surface_data(before.take(before.len() - 0), k));
            }
        }
        ClientDataModel { version: self.version, surfaces: kept }
    }
}

} // verus!
