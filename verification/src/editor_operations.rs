//! The operations of a world editor patch as the editor sends them: where
//! each one goes, the world rules it carries, and the fields of a location
//! it upserts.

use vstd::prelude::*;
use crate::editor_input::{level_of_input, parse_location_level, parse_location_status, status_of_input};
use crate::json::{json_view, vget, vget_str, vjson_get, vjson_get_str, JsonValue, JsonView};
use crate::text::{chars_to_string, extend_chars, join_str, str_chars, str_eq};
use crate::world_model::{LocationLevel, LocationStatus};

verus! {

/// One operation of a patch as the editor sends it.
#[derive(Debug)]
pub struct FrontendWorldEditorOperation {
    pub kind: String,
    pub payload: Option<JsonValue>,
    pub location_id: Option<String>,
    pub knowledge_id: Option<String>,
    pub character_id: Option<String>,
    pub relation_id: Option<String>,
    pub state_record_id: Option<String>,
    pub normalized_alias: Option<String>,
}

/// Where an operation goes.
#[derive(Debug)]
pub enum OperationRoute {
    UpsertKnowledge(JsonValue),
    DeleteKnowledge(String),
    UpsertCharacter(JsonValue),
    DeleteCharacter(String),
    UpsertLocation(JsonValue),
    DeleteLocation(String),
    WorldRules,
}

/// A route as plain values.
pub enum RouteView {
    UpsertKnowledge(JsonView),
    DeleteKnowledge(Seq<char>),
    UpsertCharacter(JsonView),
    DeleteCharacter(Seq<char>),
    UpsertLocation(JsonView),
    DeleteLocation(Seq<char>),
    WorldRules,
}

pub open spec fn route_view(r: OperationRoute) -> RouteView {
    match r {
        OperationRoute::UpsertKnowledge(p) => RouteView::UpsertKnowledge(json_view(p)),
        OperationRoute::DeleteKnowledge(id) => RouteView::DeleteKnowledge(id@),
        OperationRoute::UpsertCharacter(p) => RouteView::UpsertCharacter(json_view(p)),
        OperationRoute::DeleteCharacter(id) => RouteView::DeleteCharacter(id@),
        OperationRoute::UpsertLocation(p) => RouteView::UpsertLocation(json_view(p)),
        OperationRoute::DeleteLocation(id) => RouteView::DeleteLocation(id@),
        OperationRoute::WorldRules => RouteView::WorldRules,
    }
}

pub open spec fn payload_view(o: Option<JsonValue>) -> Option<JsonView> {
    match o {
        Some(p) => Some(json_view(p)),
        None => None,
    }
}

pub open spec fn id_view(o: Option<String>) -> Option<Seq<char>> {
    match o {
        Some(s) => Some(s@),
        None => None,
    }
}

/// Where an operation goes: an upsert needs its payload, a delete the id of
/// its record; world rules go apart; any other kind is refused.
pub open spec fn route_of(op: FrontendWorldEditorOperation) -> Result<RouteView, Seq<char>> {
    let k = op.kind@;
    if k == "UpsertKnowledgeEntry"@ {
        match payload_view(op.payload) {
            Some(p) => Ok(RouteView::UpsertKnowledge(p)),
            None => Err("UpsertKnowledgeEntry 缺少 payload"@),
        }
    } else if k == "DeleteKnowledgeEntry"@ {
        match id_view(op.knowledge_id) {
            Some(id) => Ok(RouteView::DeleteKnowledge(id)),
            None => Err("DeleteKnowledgeEntry 缺少 knowledge_id"@),
        }
    } else if k == "UpsertCharacterRecord"@ {
        match payload_view(op.payload) {
            Some(p) => Ok(RouteView::UpsertCharacter(p)),
            None => Err("UpsertCharacterRecord 缺少 payload"@),
        }
    } else if k == "DeleteCharacterRecord"@ {
        match id_view(op.character_id) {
            Some(id) => Ok(RouteView::DeleteCharacter(id)),
            None => Err("DeleteCharacterRecord 缺少 character_id"@),
        }
    } else if k == "UpsertLocationNode"@ {
        match payload_view(op.payload) {
            Some(p) => Ok(RouteView::UpsertLocation(p)),
            None => Err("UpsertLocationNode 缺少 payload"@),
        }
    } else if k == "DeleteLocationNode"@ {
        match id_view(op.location_id) {
            Some(id) => Ok(RouteView::DeleteLocation(id)),
            None => Err("DeleteLocationNode 缺少 location_id"@),
        }
    } else if k == "UpsertWorldRules"@ {
        Ok(RouteView::WorldRules)
    } else {
        Err("暂不支持的 World Editor 操作: "@ + k)
    }
}

fn take_payload(p: &Option<JsonValue>) -> (r: Option<JsonValue>)
    ensures
        payload_view(r) == payload_view(*p),
{
    match p {
        Some(v) => Some(v.deep_clone()),
        None => None,
    }
}

/// Where an operation of a patch goes.
pub fn route_operation(op: &FrontendWorldEditorOperation) -> (r: Result<OperationRoute, String>)
    ensures
        match route_of(*op) {
            Ok(v) => r matches Ok(x) && route_view(x) == v,
            Err(e) => r matches Err(m) && m@ == e,
        },
{
    let k = op.kind.as_str();
    if str_eq(k, "UpsertKnowledgeEntry") {
        return match take_payload(&op.payload) {
            Some(p) => Ok(OperationRoute::UpsertKnowledge(p)),
            None => Err("UpsertKnowledgeEntry 缺少 payload".to_owned()),
        };
    }
    if str_eq(k, "DeleteKnowledgeEntry") {
        return match &op.knowledge_id {
            Some(id) => Ok(OperationRoute::DeleteKnowledge(id.clone())),
            None => Err("DeleteKnowledgeEntry 缺少 knowledge_id".to_owned()),
        };
    }
    if str_eq(k, "UpsertCharacterRecord") {
        return match take_payload(&op.payload) {
            Some(p) => Ok(OperationRoute::UpsertCharacter(p)),
            None => Err("UpsertCharacterRecord 缺少 payload".to_owned()),
        };
    }
    if str_eq(k, "DeleteCharacterRecord") {
        return match &op.character_id {
            Some(id) => Ok(OperationRoute::DeleteCharacter(id.clone())),
            None => Err("DeleteCharacterRecord 缺少 character_id".to_owned()),
        };
    }
    if str_eq(k, "UpsertLocationNode") {
        return match take_payload(&op.payload) {
            Some(p) => Ok(OperationRoute::UpsertLocation(p)),
            None => Err("UpsertLocationNode 缺少 payload".to_owned()),
        };
    }
    if str_eq(k, "DeleteLocationNode") {
        return match &op.location_id {
            Some(id) => Ok(OperationRoute::DeleteLocation(id.clone())),
            None => Err("DeleteLocationNode 缺少 location_id".to_owned()),
        };
    }
    if str_eq(k, "UpsertWorldRules") {
        return Ok(OperationRoute::WorldRules);
    }
    Err(join_str("暂不支持的 World Editor 操作: ", k))
}

// ---------------------------------------------------------------------------
// World rules
// ---------------------------------------------------------------------------

/// The world rules of a patch: the YAML text of its last `UpsertWorldRules`
/// operation; refused where such an operation carries anything but a
/// string (a missing payload counts as null).
pub open spec fn world_rules_of(ops: Seq<FrontendWorldEditorOperation>) -> Result<Option<Seq<char>>, Seq<char>>
    decreases ops.len(),
{
    if ops.len() == 0 {
        Ok(None)
    } else {
        match world_rules_of(ops.drop_last()) {
            Err(e) => Err(e),
            Ok(prev) => if ops.last().kind@ != "UpsertWorldRules"@ {
                Ok(prev)
            } else {
                match payload_view(ops.last().payload) {
                    Some(JsonView::Str(s)) => Ok(Some(s)),
                    _ => Err("UpsertWorldRules payload 必须是 YAML 字符串"@),
                }
            },
        }
    }
}

/// The world rules a patch carries.
pub fn extract_world_rules_yaml(operations: &Vec<FrontendWorldEditorOperation>) -> (r: Result<Option<String>, String>)
    ensures
        match world_rules_of(operations@) {
            Ok(v) => r matches Ok(x) && id_view(x) == v,
            Err(e) => r matches Err(m) && m@ == e,
        },
{
    let mut yaml: Option<String> = None;
    let mut i: usize = 0;
    while i < operations.len()
        invariant
            i <= operations.len(),
            world_rules_of(operations@.take(i as int)) == Ok::<Option<Seq<char>>, Seq<char>>(id_view(yaml)),
        decreases operations.len() - i,
    {
        assert(operations@.take((i + 1) as int).drop_last() =~= operations@.take(i as int));
        let op = &operations[i];
        if str_eq(op.kind.as_str(), "UpsertWorldRules") {
            match &op.payload {
                Some(JsonValue::String(s)) => {
                    yaml = Some(s.clone());
                },
                _ => {
                    assert(!(world_rules_of(operations@.take((i + 1) as int)) is Ok));
                    proof {
                        lemma_rules_error_stays(operations@, (i + 1) as int);
                    }
                    return Err("UpsertWorldRules payload 必须是 YAML 字符串".to_owned());
                },
            }
        }
        i += 1;
    }
    assert(operations@.take(operations.len() as int) =~= operations@);
    Ok(yaml)
}

proof fn lemma_rules_error_stays(ops: Seq<FrontendWorldEditorOperation>, n: int)
    requires
        0 <= n <= ops.len(),
        world_rules_of(ops.take(n)) is Err,
    ensures
        world_rules_of(ops) == world_rules_of(ops.take(n)),
    decreases ops.len() - n,
{
    if n < ops.len() {
        assert(ops.take(n + 1).drop_last() =~= ops.take(n));
        lemma_rules_error_stays(ops, n + 1);
    } else {
        assert(ops.take(n) =~= ops);
    }
}

// ---------------------------------------------------------------------------
// The fields of an upserted location
// ---------------------------------------------------------------------------

/// What `chrono` says of a text read as an RFC 3339 timestamp: the
/// message of its parse error, or none where it parses.
pub uninterp spec fn rfc3339_error(text: Seq<char>) -> Option<Seq<char>>;

/// `chrono::DateTime::parse_from_rfc3339(value)`: `None` where the text is
/// an RFC 3339 timestamp, else the parse error's message. What the parser
/// accepts is named `rfc3339_error`, not stated.
#[verifier::external_body]
fn rfc3339_parse_error(value: &str) -> (r: Option<String>)
    ensures
        match r {
            Some(e) => rfc3339_error(value@) == Some(e@),
            None => rfc3339_error(value@) is None,
        },
{
    match chrono::DateTime::parse_from_rfc3339(value) {
        Ok(_) => None,
        Err(e) => Some(e.to_string()),
    }
}

/// The fields of a location upserted by the editor. The timestamps are
/// valid RFC 3339 text where present; the aliases and tags are still to be
/// decoded.
#[derive(Debug)]
pub struct LocationFields {
    pub location_id: String,
    pub name: String,
    pub canonical_level: LocationLevel,
    pub type_label: String,
    pub status: LocationStatus,
    pub schema_version: String,
    pub created_at: Option<String>,
    pub updated_at: Option<String>,
    pub polity_id: Option<String>,
    pub parent_id: Option<String>,
    pub tags: JsonValue,
    pub metadata: JsonValue,
    pub aliases: JsonValue,
}

/// The fields as plain values.
pub struct LocationFieldsView {
    pub location_id: Seq<char>,
    pub name: Seq<char>,
    pub canonical_level: LocationLevel,
    pub type_label: Seq<char>,
    pub status: LocationStatus,
    pub schema_version: Seq<char>,
    pub created_at: Option<Seq<char>>,
    pub updated_at: Option<Seq<char>>,
    pub polity_id: Option<Seq<char>>,
    pub parent_id: Option<Seq<char>>,
    pub tags: JsonView,
    pub metadata: JsonView,
    pub aliases: JsonView,
}

pub open spec fn fields_view(f: LocationFields) -> LocationFieldsView {
    LocationFieldsView {
        location_id: f.location_id@,
        name: f.name@,
        canonical_level: f.canonical_level,
        type_label: f.type_label@,
        status: f.status,
        schema_version: f.schema_version@,
        created_at: id_view(f.created_at),
        updated_at: id_view(f.updated_at),
        polity_id: id_view(f.polity_id),
        parent_id: id_view(f.parent_id),
        tags: json_view(f.tags),
        metadata: json_view(f.metadata),
        aliases: json_view(f.aliases),
    }
}

pub open spec fn missing_field(key: Seq<char>) -> Seq<char> {
    "Location payload missing string field '"@ + key + "'"@
}

/// The error of a timestamp that is present and does not parse.
pub open spec fn timestamp_error(raw: Option<Seq<char>>) -> Option<Seq<char>> {
    match raw {
        Some(t) => match rfc3339_error(t) {
            Some(e) => Some("Invalid RFC3339 timestamp '"@ + t + "': "@ + e),
            None => None,
        },
        None => None,
    }
}

/// A field that is a string or null (or missing).
pub open spec fn nullable_of(p: JsonView, key: Seq<char>) -> Result<Option<Seq<char>>, Seq<char>> {
    match vget(p, key) {
        None => Ok(None),
        Some(JsonView::Null) => Ok(None),
        Some(JsonView::Str(s)) => Ok(Some(s)),
        Some(_) => Err("Location payload field '"@ + key + "' must be string or null"@),
    }
}

pub open spec fn member_or(p: JsonView, key: Seq<char>, default: JsonView) -> JsonView {
    match vget(p, key) {
        Some(v) => v,
        None => default,
    }
}

/// Reads a location payload, each check in turn: an object; its id, name,
/// level and status as strings; a known level and status; the timestamps
/// where given; the parent and polity as strings or null. The type label
/// defaults to the level as written, the schema version to `0.1`, the tags
/// and aliases to empty arrays, the metadata to an empty object.
pub open spec fn location_fields_of(p: JsonView) -> Result<LocationFieldsView, Seq<char>> {
    if !(p is Object) {
        Err("Invalid LocationNode payload: expected object"@)
    } else {
        match vget_str(p, "location_id"@) {
            None => Err(missing_field("location_id"@)),
            Some(location_id) => match vget_str(p, "name"@) {
                None => Err(missing_field("name"@)),
                Some(name) => match vget_str(p, "canonical_level"@) {
                    None => Err(missing_field("canonical_level"@)),
                    Some(level_raw) => match level_of_input(level_raw) {
                        None => Err("Invalid location level: "@ + level_raw),
                        Some(level) => match vget_str(p, "status"@) {
                            None => Err(missing_field("status"@)),
                            Some(status_raw) => match status_of_input(status_raw) {
                                None => Err("Invalid location status: "@ + status_raw),
                                Some(status) => {
                                    let created = vget_str(p, "created_at"@);
                                    let updated = vget_str(p, "updated_at"@);
                                    match timestamp_error(created) {
                                        Some(e) => Err(e),
                                        None => match timestamp_error(updated) {
                                            Some(e) => Err(e),
                                            None => match nullable_of(p, "polity_id"@) {
                                                Err(e) => Err(e),
                                                Ok(polity_id) => match nullable_of(p, "parent_id"@) {
                                                    Err(e) => Err(e),
                                                    Ok(parent_id) => Ok(
                                                        LocationFieldsView {
                                                            location_id,
                                                            name,
                                                            canonical_level: level,
                                                            type_label: match vget_str(p, "type_label"@) {
                                                                Some(t) => t,
                                                                None => level_raw,
                                                            },
                                                            status,
                                                            schema_version: match vget_str(p, "schema_version"@) {
                                                                Some(v) => v,
                                                                None => "0.1"@,
                                                            },
                                                            created_at: created,
                                                            updated_at: updated,
                                                            polity_id,
                                                            parent_id,
                                                            tags: member_or(p, "tags"@, JsonView::Array(Seq::empty())),
                                                            metadata: member_or(
                                                                p,
                                                                "metadata"@,
                                                                JsonView::Object(Seq::empty()),
                                                            ),
                                                            aliases: member_or(
                                                                p,
                                                                "aliases"@,
                                                                JsonView::Array(Seq::empty()),
                                                            ),
                                                        },
                                                    ),
                                                },
                                            },
                                        },
                                    }
                                },
                            },
                        },
                    },
                },
            },
        }
    }
}

fn required_string(p: &JsonValue, key: &str) -> (r: Result<String, String>)
    ensures
        match vget_str(json_view(*p), key@) {
            Some(s) => r matches Ok(x) && x@ == s,
            None => r matches Err(e) && e@ == missing_field(key@),
        },
{
    match vjson_get_str(p, key) {
        Some(s) => Ok(s.clone()),
        None => {
            let mut v = str_chars("Location payload missing string field '");
            extend_chars(&mut v, &str_chars(key));
            extend_chars(&mut v, &str_chars("'"));
            Err(chars_to_string(&v))
        },
    }
}

fn optional_string(p: &JsonValue, key: &str) -> (r: Option<String>)
    ensures
        id_view(r) == vget_str(json_view(*p), key@),
{
    match vjson_get_str(p, key) {
        Some(s) => Some(s.clone()),
        None => None,
    }
}

fn nullable_string_field(p: &JsonValue, key: &str) -> (r: Result<Option<String>, String>)
    ensures
        match nullable_of(json_view(*p), key@) {
            Ok(v) => r matches Ok(x) && id_view(x) == v,
            Err(e) => r matches Err(m) && m@ == e,
        },
{
    match vjson_get(p, key) {
        None => Ok(None),
        Some(JsonValue::Null) => Ok(None),
        Some(JsonValue::String(s)) => Ok(Some(s.clone())),
        Some(_) => {
            let mut v = str_chars("Location payload field '");
            extend_chars(&mut v, &str_chars(key));
            extend_chars(&mut v, &str_chars("' must be string or null"));
            Err(chars_to_string(&v))
        },
    }
}

fn check_timestamp(raw: &Option<String>) -> (r: Result<(), String>)
    ensures
        match timestamp_error(id_view(*raw)) {
            Some(e) => r matches Err(m) && m@ == e,
            None => r is Ok,
        },
{
    match raw {
        None => Ok(()),
        Some(t) => match rfc3339_parse_error(t.as_str()) {
            None => Ok(()),
            Some(e) => {
                let mut v = str_chars("Invalid RFC3339 timestamp '");
                extend_chars(&mut v, &str_chars(t.as_str()));
                extend_chars(&mut v, &str_chars("': "));
                extend_chars(&mut v, &str_chars(e.as_str()));
                Err(chars_to_string(&v))
            },
        },
    }
}

fn member_or_default(p: &JsonValue, key: &str, default: JsonValue) -> (r: JsonValue)
    ensures
        json_view(r) == member_or(json_view(*p), key@, json_view(default)),
{
    match vjson_get(p, key) {
        Some(v) => v.deep_clone(),
        None => default,
    }
}

/// Reads the fields of a location the editor upserts.
pub fn frontend_location_fields(payload: &JsonValue) -> (r: Result<LocationFields, String>)
    ensures
        match location_fields_of(json_view(*payload)) {
            Ok(v) => r matches Ok(f) && fields_view(f) == v,
            Err(e) => r matches Err(m) && m@ == e,
        },
{
    match payload {
        JsonValue::Object(_) => {},
        _ => {
            return Err("Invalid LocationNode payload: expected object".to_owned());
        },
    }
    let location_id = match required_string(payload, "location_id") {
        Ok(s) => s,
        Err(e) => {
            return Err(e);
        },
    };
    let name = match required_string(payload, "name") {
        Ok(s) => s,
        Err(e) => {
            return Err(e);
        },
    };
    let level_raw = match required_string(payload, "canonical_level") {
        Ok(s) => s,
        Err(e) => {
            return Err(e);
        },
    };
    let canonical_level = match parse_location_level(level_raw.as_str()) {
        Ok(l) => l,
        Err(e) => {
            return Err(e);
        },
    };
    let status_raw = match required_string(payload, "status") {
        Ok(s) => s,
        Err(e) => {
            return Err(e);
        },
    };
    let status = match parse_location_status(status_raw.as_str()) {
        Ok(s) => s,
        Err(e) => {
            return Err(e);
        },
    };
    let type_label = match optional_string(payload, "type_label") {
        Some(t) => t,
        None => level_raw,
    };
    let schema_version = match optional_string(payload, "schema_version") {
        Some(v) => v,
        None => "0.1".to_owned(),
    };
    let created_at = optional_string(payload, "created_at");
    match check_timestamp(&created_at) {
        Ok(()) => {},
        Err(e) => {
            return Err(e);
        },
    }
    let updated_at = optional_string(payload, "updated_at");
    match check_timestamp(&updated_at) {
        Ok(()) => {},
        Err(e) => {
            return Err(e);
        },
    }
    let polity_id = match nullable_string_field(payload, "polity_id") {
        Ok(v) => v,
        Err(e) => {
            return Err(e);
        },
    };
    let parent_id = match nullable_string_field(payload, "parent_id") {
        Ok(v) => v,
        Err(e) => {
            return Err(e);
        },
    };
    let no_tags = JsonValue::Array(Vec::new());
    assert(json_view(no_tags)->Array_0 =~= Seq::<JsonView>::empty());
    let tags = member_or_default(payload, "tags", no_tags);
    let no_metadata = JsonValue::Object(Vec::new());
    assert(json_view(no_metadata)->Object_0 =~= Seq::<(Seq<char>, JsonView)>::empty());
    let metadata = member_or_default(payload, "metadata", no_metadata);
    let no_aliases = JsonValue::Array(Vec::new());
    assert(json_view(no_aliases)->Array_0 =~= Seq::<JsonView>::empty());
    let aliases = member_or_default(payload, "aliases", no_aliases);
    Ok(
        LocationFields {
            location_id,
            name,
            canonical_level,
            type_label,
            status,
            schema_version,
            created_at,
            updated_at,
            polity_id,
            parent_id,
            tags,
            metadata,
            aliases,
        },
    )
}

} // verus!
