//! The catalog of object types: names, endpoints, layouts and field mappings.
use vstd::prelude::*;
use crate::cell::{Coercion, CoercionV};
use crate::json::{path_view, str_eq};
use crate::schema::{FanOutSpec, FieldMapping, Layout, ObjectSchema, ObjectType};

verus! {

broadcast use vstd::std_specs::vec::group_vec_axioms, vstd::seq::group_seq_axioms;

/// The object type that an `object` option names.
pub open spec fn object_type_named(name: Seq<char>) -> Option<ObjectType> {
    if name == "metrics"@ {
        Some(ObjectType::Metrics)
    } else if name == "users"@ {
        Some(ObjectType::Users)
    } else if name == "organizations"@ {
        Some(ObjectType::Organizations)
    } else if name == "organization_memberships"@ {
        Some(ObjectType::OrganizationMemberships)
    } else {
        None
    }
}

/// A mapping of one top-level key.
pub open spec fn top(key: Seq<char>, column: Seq<char>, c: CoercionV) -> (
    Seq<Seq<char>>,
    Seq<char>,
    CoercionV,
) {
    (seq![key], column, c)
}

/// The field mappings of each object type, in column order.
pub open spec fn fields_of(t: ObjectType) -> Seq<(Seq<Seq<char>>, Seq<char>, CoercionV)> {
    match t {
        ObjectType::Metrics => seq![
            top("metric_name"@, "metric_name"@, CoercionV::Str),
            top("metric_labels"@, "metric_labels"@, CoercionV::JsonPassthrough),
            top("metric_time"@, "metric_time"@, CoercionV::Int64),
            top("metric_value"@, "metric_value"@, CoercionV::Float64),
        ],
        ObjectType::Users => seq![
            top("id"@, "user_id"@, CoercionV::Str),
            top("first_name"@, "first_name"@, CoercionV::Str),
            top("last_name"@, "last_name"@, CoercionV::Str),
            top(
                "email_addresses"@,
                "email"@,
                CoercionV::FirstOfArrayThenField("email_address"@, Box::new(CoercionV::Str)),
            ),
            top("gender"@, "gender"@, CoercionV::Str),
            top("created_at"@, "created_at"@, CoercionV::TimestampEpochMillis),
            top("updated_at"@, "updated_at"@, CoercionV::TimestampEpochMillis),
            top("last_sign_in_at"@, "last_sign_in_at"@, CoercionV::TimestampEpochMillis),
            top(
                "phone_numbers"@,
                "phone_numbers"@,
                CoercionV::FirstOfArrayThenField("phone_number"@, Box::new(CoercionV::Int64)),
            ),
            top("username"@, "username"@, CoercionV::Str),
        ],
        ObjectType::Organizations => seq![
            top("id"@, "organization_id"@, CoercionV::Str),
            top("name"@, "name"@, CoercionV::Str),
            top("slug"@, "slug"@, CoercionV::Str),
            top("created_at"@, "created_at"@, CoercionV::TimestampEpochMillis),
            top("updated_at"@, "updated_at"@, CoercionV::TimestampEpochMillis),
            top("created_by"@, "created_by"@, CoercionV::Str),
        ],
        ObjectType::OrganizationMemberships => seq![
            (seq!["public_user_data"@, "user_id"@], "user_id"@, CoercionV::Str),
            (seq!["organization"@, "id"@], "organization_id"@, CoercionV::Str),
            top("role"@, "role"@, CoercionV::Str),
            top("created_at"@, "created_at"@, CoercionV::TimestampEpochMillis),
            top("updated_at"@, "updated_at"@, CoercionV::TimestampEpochMillis),
        ],
    }
}

/// The key under which each object type's response holds its array, if any.
pub open spec fn envelope_of(t: ObjectType) -> Option<Seq<char>> {
    match t {
        ObjectType::Metrics => None,
        ObjectType::Users => None,
        _ => Some("data"@),
    }
}

pub open spec fn layout_matches(layout: Layout, t: ObjectType) -> bool {
    match layout {
        Layout::Matrix => t == ObjectType::Metrics,
        Layout::Records(key) => t != ObjectType::Metrics && match (key, envelope_of(t)) {
            (None, None) => true,
            (Some(k), Some(e)) => k@ == e,
            _ => false,
        },
    }
}

/// The path and query, after the base URL, of the request that lists each
/// object type; for memberships, the organizations they are gathered from.
pub open spec fn endpoint_of(t: ObjectType) -> Seq<char> {
    match t {
        ObjectType::Metrics => "/api/v1/query_range"@,
        ObjectType::Users => "/users?limit=500"@,
        _ => "/organizations?limit=500"@,
    }
}

/// The organization membership fan-out: list the organizations (under
/// `data`), then request `/organizations/{id}/memberships?limit=500` for
/// each organization's `id`, 50 ms apart.
pub open spec fn memberships_fan_out(f: FanOutSpec) -> bool {
    &&& f.parent == ObjectType::Organizations
    &&& (f.parent_layout matches Layout::Records(Some(k)) && k@ == "data"@)
    &&& path_view(f.parent_id_path@) == seq!["id"@]
    &&& f.child_path_prefix@ == "/organizations/"@
    &&& f.child_path_suffix@ == "/memberships?limit=500"@
    &&& f.pacing_ms == 50
}

/// What the catalog holds for object type `t`.
pub open spec fn registered(s: ObjectSchema, t: ObjectType) -> bool {
    &&& s.object_type == t
    &&& s.endpoint@ == endpoint_of(t)
    &&& s.mappings() == fields_of(t)
    &&& layout_matches(s.layout, t)
    &&& s.supports_attrs == (t != ObjectType::Metrics)
    &&& (s.fan_out is Some) == (t == ObjectType::OrganizationMemberships)
    &&& s.fan_out matches Some(f) ==> memberships_fan_out(f)
}

impl ObjectType {
    /// The object type that `name` selects, if any.
    pub fn from_name(name: &str) -> (r: Option<ObjectType>)
        ensures
            r == object_type_named(name@),
    {
        if str_eq(name, "metrics") {
            Some(ObjectType::Metrics)
        } else if str_eq(name, "users") {
            Some(ObjectType::Users)
        } else if str_eq(name, "organizations") {
            Some(ObjectType::Organizations)
        } else if str_eq(name, "organization_memberships") {
            Some(ObjectType::OrganizationMemberships)
        } else {
            None
        }
    }
}

fn key_path(key: &str) -> (r: Vec<String>)
    ensures
        path_view(r@) == seq![key@],
{
    let mut r: Vec<String> = Vec::new();
    r.push(String::from_str(key));
    assert(path_view(r@) =~= seq![key@]);
    r
}

fn mapping(key: &str, column: &str, coercion: Coercion) -> (r: FieldMapping)
    ensures
        r@ == top(key@, column@, coercion@),
{
    FieldMapping { source: key_path(key), column: String::from_str(column), coercion }
}

fn nested(outer: &str, inner: &str, column: &str, coercion: Coercion) -> (r: FieldMapping)
    ensures
        r@ == (seq![outer@, inner@], column@, coercion@),
{
    let mut source: Vec<String> = Vec::new();
    source.push(String::from_str(outer));
    source.push(String::from_str(inner));
    assert(path_view(source@) =~= seq![outer@, inner@]);
    FieldMapping { source, column: String::from_str(column), coercion }
}

fn first_of(key: &str, member: &str, column: &str, then: Coercion) -> (r: FieldMapping)
    ensures
        r@ == top(
            key@,
            column@,
            CoercionV::FirstOfArrayThenField(member@, Box::new(then@)),
        ),
{
    FieldMapping {
        source: key_path(key),
        column: String::from_str(column),
        coercion: Coercion::FirstOfArrayThenField(String::from_str(member), Box::new(then)),
    }
}

/// The catalog entry of object type `t`.
pub fn schema_of(t: ObjectType) -> (s: ObjectSchema)
    ensures
        registered(s, t),
{
    let mut fields: Vec<FieldMapping> = Vec::new();
    match t {
        ObjectType::Metrics => {
            fields.push(mapping("metric_name", "metric_name", Coercion::Str));
            fields.push(mapping("metric_labels", "metric_labels", Coercion::JsonPassthrough));
            fields.push(mapping("metric_time", "metric_time", Coercion::Int64));
            fields.push(mapping("metric_value", "metric_value", Coercion::Float64));
            assert(fields@.map_values(|m: FieldMapping| m@) =~= fields_of(t));
            ObjectSchema {
                object_type: t,
                endpoint: String::from_str("/api/v1/query_range"),
                layout: Layout::Matrix,
                fields,
                supports_attrs: false,
                fan_out: None,
            }
        },
        ObjectType::Users => {
            fields.push(mapping("id", "user_id", Coercion::Str));
            fields.push(mapping("first_name", "first_name", Coercion::Str));
            fields.push(mapping("last_name", "last_name", Coercion::Str));
            fields.push(first_of("email_addresses", "email_address", "email", Coercion::Str));
            fields.push(mapping("gender", "gender", Coercion::Str));
            fields.push(mapping("created_at", "created_at", Coercion::TimestampEpochMillis));
            fields.push(mapping("updated_at", "updated_at", Coercion::TimestampEpochMillis));
            fields.push(
                mapping("last_sign_in_at", "last_sign_in_at", Coercion::TimestampEpochMillis),
            );
            // Kept as the upstream table declares it, though the numbers are text.
            fields.push(first_of("phone_numbers", "phone_number", "phone_numbers", Coercion::Int64));
            fields.push(mapping("username", "username", Coercion::Str));
            assert(fields@.map_values(|m: FieldMapping| m@) =~= fields_of(t));
            ObjectSchema {
                object_type: t,
                endpoint: String::from_str("/users?limit=500"),
                layout: Layout::Records(None),
                fields,
                supports_attrs: true,
                fan_out: None,
            }
        },
        ObjectType::Organizations => {
            fields.push(mapping("id", "organization_id", Coercion::Str));
            fields.push(mapping("name", "name", Coercion::Str));
            fields.push(mapping("slug", "slug", Coercion::Str));
            fields.push(mapping("created_at", "created_at", Coercion::TimestampEpochMillis));
            fields.push(mapping("updated_at", "updated_at", Coercion::TimestampEpochMillis));
            fields.push(mapping("created_by", "created_by", Coercion::Str));
            assert(fields@.map_values(|m: FieldMapping| m@) =~= fields_of(t));
            ObjectSchema {
                object_type: t,
                endpoint: String::from_str("/organizations?limit=500"),
                layout: Layout::Records(Some(String::from_str("data"))),
                fields,
                supports_attrs: true,
                fan_out: None,
            }
        },
        ObjectType::OrganizationMemberships => {
            fields.push(nested("public_user_data", "user_id", "user_id", Coercion::Str));
            fields.push(nested("organization", "id", "organization_id", Coercion::Str));
            fields.push(mapping("role", "role", Coercion::Str));
            fields.push(mapping("created_at", "created_at", Coercion::TimestampEpochMillis));
            fields.push(mapping("updated_at", "updated_at", Coercion::TimestampEpochMillis));
            assert(fields@.map_values(|m: FieldMapping| m@) =~= fields_of(t));
            ObjectSchema {
                object_type: t,
                endpoint: String::from_str("/organizations?limit=500"),
                layout: Layout::Records(Some(String::from_str("data"))),
                fields,
                supports_attrs: true,
                fan_out: Some(
                    FanOutSpec {
                        parent: ObjectType::Organizations,
                        parent_layout: Layout::Records(Some(String::from_str("data"))),
                        parent_id_path: key_path("id"),
                        child_path_prefix: String::from_str("/organizations/"),
                        child_path_suffix: String::from_str("/memberships?limit=500"),
                        pacing_ms: 50,
                    },
                ),
            }
        },
    }
}

/// The catalog entry that `name` selects; `None` for an unknown name.
pub fn lookup(name: &str) -> (r: Option<ObjectSchema>)
    ensures
        r is Some == object_type_named(name@) is Some,
        r matches Some(s) ==> registered(s, object_type_named(name@)->0),
{
    match ObjectType::from_name(name) {
        Some(t) => Some(schema_of(t)),
        None => None,
    }
}

} // verus!
