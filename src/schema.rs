//! Object types, their field mappings and response layouts.
use vstd::prelude::*;
use crate::cell::{Coercion, CoercionV};
use crate::json::path_view;

verus! {

/// The upstream resources that can be queried as tables.
#[derive(PartialEq, Eq, Structural, Clone, Copy, Debug)]
pub enum ObjectType {
    /// Samples of a metric series over a time range.
    Metrics,
    Users,
    Organizations,
    /// Memberships of each organization, gathered organization by organization.
    OrganizationMemberships,
}

/// Where one column's value comes from in a source element.
pub struct FieldMapping {
    /// Keys to follow from the element object, outermost first.
    pub source: Vec<String>,
    pub column: String,
    pub coercion: Coercion,
}

impl FieldMapping {
    pub open spec fn path(&self) -> Seq<Seq<char>> {
        path_view(self.source@)
    }
}

impl View for FieldMapping {
    type V = (Seq<Seq<char>>, Seq<char>, CoercionV);

    open spec fn view(&self) -> (Seq<Seq<char>>, Seq<char>, CoercionV) {
        (self.path(), self.column@, self.coercion@)
    }
}

/// Where the elements of a response are found.
pub enum Layout {
    /// A JSON array at the top level, or under the given key.
    Records(Option<String>),
    /// A range-query answer: `data.result` lists series, each with its
    /// `metric` labels and `values` as `[time, "value"]` pairs; each pair is
    /// one element.
    Matrix,
}

/// How a dependent object type is gathered: one request per parent element.
pub struct FanOutSpec {
    pub parent: ObjectType,
    /// Where the parent list response holds the parent elements.
    pub parent_layout: Layout,
    /// Keys to follow from a parent element to its identifier (a string).
    pub parent_id_path: Vec<String>,
    /// The child request's path is this prefix, the parent's identifier,
    /// then the suffix.
    pub child_path_prefix: String,
    pub child_path_suffix: String,
    /// Milliseconds to wait between two child requests.
    pub pacing_ms: u64,
}

/// Everything the connector knows about one object type.
pub struct ObjectSchema {
    pub object_type: ObjectType,
    /// Path and query of the request that lists the objects, after the base URL.
    pub endpoint: String,
    pub layout: Layout,
    pub fields: Vec<FieldMapping>,
    /// Whether an `attrs` column holds each whole source element.
    pub supports_attrs: bool,
    pub fan_out: Option<FanOutSpec>,
}

impl ObjectSchema {
    /// The field mappings, in order.
    pub open spec fn mappings(&self) -> Seq<(Seq<Seq<char>>, Seq<char>, CoercionV)> {
        self.fields@.map_values(|m: FieldMapping| m@)
    }
}

} // verus!
