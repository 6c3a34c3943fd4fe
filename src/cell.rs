//! Typed cells and the coercions that turn raw JSON values into them.
use vstd::prelude::*;
use crate::json::{get_member, Json, JsonV};
use crate::text::{i64_value, is_float_literal, is_float_text, parse_i64};
use crate::time::{iso8601_seconds, millis_to_secs, parse_iso8601, secs_of_millis};

verus! {

/// One typed value of a row. A missing value is `None` where a cell is
/// expected.
#[derive(PartialEq, Debug)]
pub enum Cell {
    Bool(bool),
    I64(i64),
    /// A floating-point value, as the decimal text it was read from.
    F64(String),
    String(String),
    /// Seconds since the Unix epoch.
    Timestamp(i64),
    Json(Json),
}

pub ghost enum CellV {
    Bool(bool),
    I64(i64),
    F64(Seq<char>),
    String(Seq<char>),
    Timestamp(i64),
    Json(JsonV),
}

impl View for Cell {
    type V = CellV;

    open spec fn view(&self) -> CellV {
        match *self {
            Cell::Bool(b) => CellV::Bool(b),
            Cell::I64(i) => CellV::I64(i),
            Cell::F64(t) => CellV::F64(t@),
            Cell::String(s) => CellV::String(s@),
            Cell::Timestamp(t) => CellV::Timestamp(t),
            Cell::Json(j) => CellV::Json(j@),
        }
    }
}

impl Clone for Cell {
    fn clone(&self) -> (r: Self)
        ensures
            r@ == self@,
    {
        match self {
            Cell::Bool(b) => Cell::Bool(*b),
            Cell::I64(i) => Cell::I64(*i),
            Cell::F64(t) => Cell::F64(t.clone()),
            Cell::String(s) => Cell::String(s.clone()),
            Cell::Timestamp(t) => Cell::Timestamp(*t),
            Cell::Json(j) => Cell::Json(j.deep_copy()),
        }
    }
}

pub open spec fn opt_cell_view(c: Option<Cell>) -> Option<CellV> {
    match c {
        Some(x) => Some(x@),
        None => None,
    }
}

pub open spec fn opt_json_view(j: Option<&Json>) -> Option<JsonV> {
    match j {
        Some(x) => Some(x@),
        None => None,
    }
}

/// How a raw JSON value becomes a cell.
#[derive(PartialEq, Debug)]
pub enum Coercion {
    Bool,
    Int64,
    Float64,
    Str,
    /// Milliseconds since the epoch, as a number or a string, read as
    /// whole seconds.
    TimestampEpochMillis,
    TimestampIso8601,
    /// The raw value itself.
    JsonPassthrough,
    /// The member named here of the first element of an array, read with
    /// the inner coercion.
    FirstOfArrayThenField(String, Box<Coercion>),
}

/// The mathematical form of a coercion.
pub ghost enum CoercionV {
    Bool,
    Int64,
    Float64,
    Str,
    TimestampEpochMillis,
    TimestampIso8601,
    JsonPassthrough,
    FirstOfArrayThenField(Seq<char>, Box<CoercionV>),
}

pub open spec fn coercion_view(c: Coercion) -> CoercionV
    decreases c,
{
    match c {
        Coercion::Bool => CoercionV::Bool,
        Coercion::Int64 => CoercionV::Int64,
        Coercion::Float64 => CoercionV::Float64,
        Coercion::Str => CoercionV::Str,
        Coercion::TimestampEpochMillis => CoercionV::TimestampEpochMillis,
        Coercion::TimestampIso8601 => CoercionV::TimestampIso8601,
        Coercion::JsonPassthrough => CoercionV::JsonPassthrough,
        Coercion::FirstOfArrayThenField(f, inner) => CoercionV::FirstOfArrayThenField(
            f@,
            Box::new(coercion_view(*inner)),
        ),
    }
}

impl View for Coercion {
    type V = CoercionV;

    open spec fn view(&self) -> CoercionV {
        coercion_view(*self)
    }
}

/// The text of a number, or of a string.
pub open spec fn scalar_text(v: JsonV) -> Option<Seq<char>> {
    match v {
        JsonV::Number(t) => Some(t),
        JsonV::Str(t) => Some(t),
        _ => None,
    }
}

/// The cell that `kind` makes of `raw`; `None` when the value is absent, of
/// the wrong kind, or does not parse.
pub open spec fn coerced(raw: Option<JsonV>, kind: Coercion) -> Option<CellV>
    decreases kind,
{
    match raw {
        None => None,
        Some(v) => match kind {
            Coercion::Bool => match v {
                JsonV::Bool(b) => Some(CellV::Bool(b)),
                _ => None,
            },
            Coercion::Int64 => match scalar_text(v) {
                Some(t) => match i64_value(t) {
                    Some(i) => Some(CellV::I64(i)),
                    None => None,
                },
                None => None,
            },
            Coercion::Float64 => match scalar_text(v) {
                Some(t) => if is_float_literal(t) {
                    Some(CellV::F64(t))
                } else {
                    None
                },
                None => None,
            },
            Coercion::Str => match v {
                JsonV::Str(s) => Some(CellV::String(s)),
                _ => None,
            },
            Coercion::TimestampEpochMillis => match scalar_text(v) {
                Some(t) => match i64_value(t) {
                    Some(ms) => Some(CellV::Timestamp(millis_to_secs(ms as int) as i64)),
                    None => None,
                },
                None => None,
            },
            Coercion::TimestampIso8601 => match v {
                JsonV::Str(t) => match iso8601_seconds(t) {
                    Some(secs) => Some(CellV::Timestamp(secs as i64)),
                    None => None,
                },
                _ => None,
            },
            Coercion::JsonPassthrough => Some(CellV::Json(v)),
            Coercion::FirstOfArrayThenField(field, inner) => match v {
                JsonV::Array(items) => if items.len() > 0 {
                    coerced(get_member(items[0], field@), *inner)
                } else {
                    None
                },
                _ => None,
            },
        },
    }
}

fn text_of(v: &Json) -> (r: Option<&String>)
    ensures
        match r {
            Some(t) => scalar_text(v@) == Some(t@),
            None => scalar_text(v@) is None,
        },
{
    match v {
        Json::Number(t) => Some(t),
        Json::Str(t) => Some(t),
        _ => None,
    }
}

/// Turns a raw value into a cell of the kind asked for; a value that is
/// absent, of the wrong kind or does not parse gives `None`.
pub fn coerce(raw: Option<&Json>, kind: &Coercion) -> (r: Option<Cell>)
    ensures
        opt_cell_view(r) == coerced(opt_json_view(raw), *kind),
    decreases kind,
{
    let v = match raw {
        Some(v) => v,
        None => {
            return None;
        },
    };
    match kind {
        Coercion::Bool => match v {
            Json::Bool(b) => Some(Cell::Bool(*b)),
            _ => None,
        },
        Coercion::Int64 => match text_of(v) {
            Some(t) => match parse_i64(t.as_str()) {
                Some(i) => Some(Cell::I64(i)),
                None => None,
            },
            None => None,
        },
        Coercion::Float64 => match text_of(v) {
            Some(t) => if is_float_text(t.as_str()) {
                Some(Cell::F64(t.clone()))
            } else {
                None
            },
            None => None,
        },
        Coercion::Str => match v {
            Json::Str(s) => Some(Cell::String(s.clone())),
            _ => None,
        },
        Coercion::TimestampEpochMillis => match text_of(v) {
            Some(t) => match parse_i64(t.as_str()) {
                Some(ms) => Some(Cell::Timestamp(secs_of_millis(ms))),
                None => None,
            },
            None => None,
        },
        Coercion::TimestampIso8601 => match v {
            Json::Str(t) => match parse_iso8601(t.as_str()) {
                Some(secs) => Some(Cell::Timestamp(secs)),
                None => None,
            },
            _ => None,
        },
        Coercion::JsonPassthrough => Some(Cell::Json(v.deep_copy())),
        Coercion::FirstOfArrayThenField(field, inner) => match v {
            Json::Array(items) => {
                if items.len() > 0 {
                    coerce(items[0].get(field.as_str()), &**inner)
                } else {
                    None
                }
            },
            _ => None,
        },
    }
}

} // verus!
