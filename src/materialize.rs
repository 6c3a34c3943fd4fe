//! Turning JSON responses into rows of typed cells.
use vstd::prelude::*;
use crate::cell::{coerce, coerced, opt_cell_view, opt_json_view, Cell, CellV};
use crate::json::{at_path, get_member, str_eq, Json, JsonV};
use crate::registry::{lookup, object_type_named};
use crate::schema::{FieldMapping, Layout, ObjectSchema};

verus! {

broadcast use vstd::std_specs::vec::group_vec_axioms, vstd::seq::group_seq_axioms;

/// One output row: column names with their cells, in the order the columns
/// were requested. A `None` cell is null.
#[derive(PartialEq, Debug)]
pub struct Row {
    pub entries: Vec<(String, Option<Cell>)>,
}

pub type RowV = Seq<(Seq<char>, Option<CellV>)>;

impl View for Row {
    type V = RowV;

    open spec fn view(&self) -> RowV {
        Seq::new(
            self.entries@.len(),
            |i: int| (self.entries@[i].0@, opt_cell_view(self.entries@[i].1)),
        )
    }
}

pub open spec fn rows_view(rows: Seq<Row>) -> Seq<RowV> {
    Seq::new(rows.len(), |i: int| rows[i]@)
}

pub open spec fn json_views(items: Seq<Json>) -> Seq<JsonV> {
    Seq::new(items.len(), |i: int| items[i]@)
}

/// The column that holds each whole source element.
pub open spec fn attrs_column() -> Seq<char> {
    seq!['a', 't', 't', 'r', 's']
}

/// The first mapping that fills column `c`.
pub open spec fn mapping_for(fields: Seq<FieldMapping>, c: Seq<char>) -> Option<FieldMapping>
    decreases fields.len(),
{
    if fields.len() == 0 {
        None
    } else if fields[0].column@ == c {
        Some(fields[0])
    } else {
        mapping_for(fields.drop_first(), c)
    }
}

/// The cell of column `c` for source element `e`: the whole element for
/// `attrs` where the schema allows it, else the mapped value coerced, else
/// null.
pub open spec fn cell_for(schema: ObjectSchema, e: JsonV, c: Seq<char>) -> Option<CellV> {
    if schema.supports_attrs && c == attrs_column() {
        Some(CellV::Json(e))
    } else {
        match mapping_for(schema.fields@, c) {
            Some(m) => coerced(at_path(e, m.path()), m.coercion),
            None => None,
        }
    }
}

/// The row built from element `e`: one entry per requested column, in order.
pub open spec fn row_for(schema: ObjectSchema, e: JsonV, cols: Seq<Seq<char>>) -> RowV {
    Seq::new(cols.len(), |j: int| (cols[j], cell_for(schema, e, cols[j])))
}

/// One row per element that is an object, in element order.
pub open spec fn rows_for(schema: ObjectSchema, elems: Seq<JsonV>, cols: Seq<Seq<char>>) -> Seq<
    RowV,
>
    decreases elems.len(),
{
    if elems.len() == 0 {
        Seq::empty()
    } else {
        let prev = rows_for(schema, elems.drop_last(), cols);
        if elems.last() is Object {
            prev.push(row_for(schema, elems.last(), cols))
        } else {
            prev
        }
    }
}

/// The member `key` of `v`, or null: what indexing a JSON value gives.
pub open spec fn member_or_null(v: JsonV, key: Seq<char>) -> JsonV {
    match get_member(v, key) {
        Some(m) => m,
        None => JsonV::Null,
    }
}

/// The element `i` of an array, if there is one.
pub open spec fn item_of(v: JsonV, i: int) -> Option<JsonV> {
    match v {
        JsonV::Array(items) => if 0 <= i < items.len() {
            Some(items[i])
        } else {
            None
        },
        _ => None,
    }
}

/// A member `key` holding `v`, or no member when `v` is absent.
pub open spec fn maybe_member(key: Seq<char>, v: Option<JsonV>) -> Seq<(Seq<char>, JsonV)> {
    match v {
        Some(x) => seq![(key, x)],
        None => Seq::empty(),
    }
}

pub open spec fn array_items(v: JsonV) -> Seq<JsonV> {
    match v {
        JsonV::Array(items) => items,
        _ => Seq::empty(),
    }
}

/// The elements of a `Records` response.
pub open spec fn records_in(doc: JsonV, key: Option<String>) -> Seq<JsonV> {
    match key {
        None => array_items(doc),
        Some(k) => match get_member(doc, k@) {
            Some(arr) => array_items(arr),
            None => Seq::empty(),
        },
    }
}

/// The sample element that one `[time, "value"]` pair of a series gives:
/// an object with the series' name and labels, the pair's time and its
/// value, each member present only where the answer has it. Every pair
/// gives one element; the columns' coercions decide what each cell holds.
pub open spec fn sample_of(name: Option<JsonV>, labels: Option<JsonV>, pair: JsonV) -> JsonV {
    JsonV::Object(
        maybe_member("metric_name"@, name) + maybe_member("metric_labels"@, labels)
            + maybe_member("metric_time"@, item_of(pair, 0)) + maybe_member(
            "metric_value"@,
            item_of(pair, 1),
        ),
    )
}

pub open spec fn samples_of_pairs(
    name: Option<JsonV>,
    labels: Option<JsonV>,
    pairs: Seq<JsonV>,
) -> Seq<JsonV>
    decreases pairs.len(),
{
    if pairs.len() == 0 {
        Seq::empty()
    } else {
        samples_of_pairs(name, labels, pairs.drop_last()).push(
            sample_of(name, labels, pairs.last()),
        )
    }
}

/// The series' metric name: its `__name__` label, where that is a string.
pub open spec fn series_name(series: JsonV) -> Option<JsonV> {
    match get_member(member_or_null(series, "metric"@), "__name__"@) {
        Some(JsonV::Str(s)) => Some(JsonV::Str(s)),
        _ => None,
    }
}

pub open spec fn samples_of_series(series: JsonV) -> Seq<JsonV> {
    samples_of_pairs(
        series_name(series),
        get_member(series, "metric"@),
        array_items(member_or_null(series, "values"@)),
    )
}

pub open spec fn samples_of_all(series: Seq<JsonV>) -> Seq<JsonV>
    decreases series.len(),
{
    if series.len() == 0 {
        Seq::empty()
    } else {
        samples_of_all(series.drop_last()) + samples_of_series(series.last())
    }
}

/// The sample elements of a range-query answer, series by series.
pub open spec fn matrix_samples(doc: JsonV) -> Seq<JsonV> {
    samples_of_all(array_items(member_or_null(member_or_null(doc, "data"@), "result"@)))
}

/// The elements that a response holds under a layout.
pub open spec fn elements_of(layout: Layout, doc: JsonV) -> Seq<JsonV> {
    match layout {
        Layout::Records(key) => records_in(doc, key),
        Layout::Matrix => matrix_samples(doc),
    }
}

/// The rows that a response gives for the requested columns.
pub open spec fn materialized(schema: ObjectSchema, doc: JsonV, cols: Seq<Seq<char>>) -> Seq<RowV> {
    rows_for(schema, elements_of(schema.layout, doc), cols)
}

pub open spec fn names(cols: Seq<String>) -> Seq<Seq<char>> {
    Seq::new(cols.len(), |i: int| cols[i]@)
}

fn find_mapping<'a>(fields: &'a Vec<FieldMapping>, c: &str) -> (r: Option<&'a FieldMapping>)
    ensures
        match r {
            Some(m) => mapping_for(fields@, c@) == Some(*m),
            None => mapping_for(fields@, c@) is None,
        },
{
    let mut i: usize = 0;
    assert(fields@.subrange(0, fields@.len() as int) =~= fields@);
    while i < fields.len()
        invariant
            i <= fields.len(),
            mapping_for(fields@, c@) == mapping_for(fields@.subrange(i as int, fields@.len() as int), c@),
        decreases fields.len() - i,
    {
        let ghost rest = fields@.subrange(i as int, fields@.len() as int);
        assert(rest.drop_first() =~= fields@.subrange(i + 1, fields@.len() as int));
        if str_eq(fields[i].column.as_str(), c) {
            return Some(&fields[i]);
        }
        i = i + 1;
    }
    None
}

/// The cell of column `c` for element `e`.
fn cell_of(schema: &ObjectSchema, e: &Json, c: &str) -> (r: Option<Cell>)
    ensures
        opt_cell_view(r) == cell_for(*schema, e@, c@),
{
    let attrs = "attrs";
    proof {
        reveal_strlit("attrs");
        assert(attrs@ =~= attrs_column());
    }
    if schema.supports_attrs && str_eq(c, attrs) {
        return Some(Cell::Json(e.deep_copy()));
    }
    match find_mapping(&schema.fields, c) {
        Some(m) => coerce(e.get_path(&m.source), &m.coercion),
        None => None,
    }
}

/// The row for element `e`, one entry per requested column.
pub fn row_of(schema: &ObjectSchema, e: &Json, cols: &Vec<String>) -> (r: Row)
    ensures
        r@ == row_for(*schema, e@, names(cols@)),
{
    let mut entries: Vec<(String, Option<Cell>)> = Vec::new();
    let mut j: usize = 0;
    while j < cols.len()
        invariant
            j <= cols.len(),
            entries@.len() == j,
            forall|k: int|
                0 <= k < j ==> #[trigger] entries@[k].0@ == cols@[k]@ && opt_cell_view(
                    entries@[k].1,
                ) == cell_for(*schema, e@, cols@[k]@),
        decreases cols.len() - j,
    {
        let cell = cell_of(schema, e, cols[j].as_str());
        entries.push((cols[j].clone(), cell));
        j = j + 1;
    }
    let r = Row { entries };
    assert(r@ =~= row_for(*schema, e@, names(cols@)));
    r
}

/// One row per element object, in order.
pub fn rows_of(schema: &ObjectSchema, elems: &Vec<Json>, cols: &Vec<String>) -> (r: Vec<Row>)
    ensures
        rows_view(r@) == rows_for(*schema, json_views(elems@), names(cols@)),
{
    let mut out: Vec<Row> = Vec::new();
    let mut i: usize = 0;
    while i < elems.len()
        invariant
            i <= elems.len(),
            rows_view(out@) == rows_for(
                *schema,
                json_views(elems@).subrange(0, i as int),
                names(cols@),
            ),
        decreases elems.len() - i,
    {
        let ghost pre = json_views(elems@).subrange(0, i as int);
        let ghost next = json_views(elems@).subrange(0, i + 1);
        assert(next.drop_last() =~= pre);
        assert(next.last() == elems@[i as int]@);
        let e = &elems[i];
        if let Json::Object(_) = e {
            let row = row_of(schema, e, cols);
            let ghost before = out@;
            out.push(row);
            assert(rows_view(out@) =~= rows_view(before).push(row@));
        } else {
            assert(!(next.last() is Object));
        }
        i = i + 1;
    }
    assert(json_views(elems@).subrange(0, i as int) =~= json_views(elems@));
    out
}

/// The rows of a response for the object type named `obj`; an unknown
/// object type gives none.
pub fn resp_to_rows(obj: &str, resp: &Json, cols: &Vec<String>) -> (r: Vec<Row>)
    ensures
        object_type_named(obj@) is None ==> r@.len() == 0,
        object_type_named(obj@) is Some ==> exists|s: ObjectSchema|
            crate::registry::registered(s, object_type_named(obj@)->0) && rows_view(r@)
                == materialized(s, resp@, names(cols@)),
{
    match lookup(obj) {
        Some(schema) => materialize(&schema, resp, cols),
        None => Vec::new(),
    }
}

proof fn lemma_array_view(items: Vec<Json>)
    ensures
        Json::Array(items)@ == JsonV::Array(json_views(items@)),
{
    assert(array_items(Json::Array(items)@) =~= json_views(items@));
}

pub open spec fn member_views(fields: Seq<(String, Json)>) -> Seq<(Seq<char>, JsonV)> {
    Seq::new(fields.len(), |i: int| (fields[i].0@, fields[i].1@))
}

pub open spec fn opt_json(o: Option<Json>) -> Option<JsonV> {
    match o {
        Some(x) => Some(x@),
        None => None,
    }
}

fn copy_json(o: Option<&Json>) -> (r: Option<Json>)
    ensures
        opt_json(r) == opt_json_view(o),
{
    match o {
        Some(v) => Some(v.deep_copy()),
        None => None,
    }
}

fn push_member(fields: &mut Vec<(String, Json)>, key: &str, v: Option<Json>)
    ensures
        member_views(final(fields)@) == member_views(old(fields)@) + maybe_member(key@, opt_json(v)),
{
    let ghost before = member_views(fields@);
    match v {
        Some(x) => {
            fields.push((String::from_str(key), x));
        },
        None => {},
    }
    assert(member_views(fields@) =~= before + maybe_member(key@, opt_json(v)));
}

/// The sample element for one `[time, "value"]` pair.
fn sample_from(name: &Option<Json>, labels: &Option<Json>, pair: &Json) -> (r: Json)
    ensures
        r@ == sample_of(opt_json(*name), opt_json(*labels), pair@),
{
    let (time, value) = match pair {
        Json::Array(items) => {
            proof {
                lemma_array_view(*items);
            }
            let t = if items.len() > 0 {
                Some(items[0].deep_copy())
            } else {
                None
            };
            let v = if items.len() > 1 {
                Some(items[1].deep_copy())
            } else {
                None
            };
            (t, v)
        },
        _ => (None, None),
    };
    assert(opt_json(time) == item_of(pair@, 0));
    assert(opt_json(value) == item_of(pair@, 1));
    let mut fields: Vec<(String, Json)> = Vec::new();
    assert(member_views(fields@) =~= Seq::<(Seq<char>, JsonV)>::empty());
    push_member(&mut fields, "metric_name", copy_json(name.as_ref()));
    push_member(&mut fields, "metric_labels", copy_json(labels.as_ref()));
    push_member(&mut fields, "metric_time", time);
    push_member(&mut fields, "metric_value", value);
    let r = Json::Object(fields);
    proof {
        if let JsonV::Object(got) = r@ {
            assert(got =~= member_views(fields@));
        }
        assert(Seq::<(Seq<char>, JsonV)>::empty() + maybe_member("metric_name"@, opt_json(*name))
            =~= maybe_member("metric_name"@, opt_json(*name)));
    }
    r
}

/// Appends the samples of one series to `out`.
fn push_series_samples(series: &Json, out: &mut Vec<Json>)
    ensures
        json_views(final(out)@) == json_views(old(out)@) + samples_of_series(series@),
{
    let metric = series.get("metric");
    let labels: Option<Json> = copy_json(metric);
    let name: Option<Json> = match metric {
        Some(m) => match m.get("__name__") {
            Some(Json::Str(s)) => Some(Json::Str(s.clone())),
            _ => None,
        },
        None => None,
    };
    assert(opt_json(name) == series_name(series@));
    let ghost start = json_views(out@);
    let pairs = match series.get("values") {
        Some(Json::Array(pairs)) => pairs,
        _ => {
            assert(samples_of_series(series@) == Seq::<JsonV>::empty());
            assert(json_views(out@) =~= start + Seq::<JsonV>::empty());
            return;
        },
    };
    proof {
        lemma_array_view(*pairs);
    }
    let ghost pv = json_views(pairs@);
    let ghost nv = opt_json(name);
    let ghost lv = opt_json(labels);
    let mut i: usize = 0;
    assert(json_views(out@) =~= start + samples_of_pairs(nv, lv, pv.subrange(0, 0)));
    while i < pairs.len()
        invariant
            i <= pairs.len(),
            pv == json_views(pairs@),
            nv == opt_json(name),
            lv == opt_json(labels),
            json_views(out@) == start + samples_of_pairs(nv, lv, pv.subrange(0, i as int)),
        decreases pairs.len() - i,
    {
        let ghost next = pv.subrange(0, i + 1);
        assert(next.drop_last() =~= pv.subrange(0, i as int));
        let ghost before = out@;
        let s = sample_from(&name, &labels, &pairs[i]);
        out.push(s);
        assert(json_views(out@) =~= json_views(before).push(s@));
        i = i + 1;
    }
    assert(pv.subrange(0, i as int) =~= pv);
}

/// The sample elements of a range-query answer.
fn matrix_samples_of(doc: &Json) -> (r: Vec<Json>)
    ensures
        json_views(r@) == matrix_samples(doc@),
{
    let mut out: Vec<Json> = Vec::new();
    let series = match doc.get("data") {
        Some(d) => match d.get("result") {
            Some(Json::Array(series)) => series,
            _ => {
                assert(json_views(out@) =~= Seq::<JsonV>::empty());
                return out;
            },
        },
        None => {
            assert(json_views(out@) =~= Seq::<JsonV>::empty());
            return out;
        },
    };
    proof {
        lemma_array_view(*series);
    }
    let ghost sv = json_views(series@);
    let mut i: usize = 0;
    assert(json_views(out@) =~= samples_of_all(sv.subrange(0, 0)));
    while i < series.len()
        invariant
            i <= series.len(),
            sv == json_views(series@),
            json_views(out@) == samples_of_all(sv.subrange(0, i as int)),
        decreases series.len() - i,
    {
        let ghost next = sv.subrange(0, i + 1);
        assert(next.drop_last() =~= sv.subrange(0, i as int));
        push_series_samples(&series[i], &mut out);
        i = i + 1;
    }
    assert(sv.subrange(0, i as int) =~= sv);
    out
}

fn copy_items(items: &Vec<Json>) -> (r: Vec<Json>)
    ensures
        json_views(r@) == json_views(items@),
{
    let mut r: Vec<Json> = Vec::new();
    let mut i: usize = 0;
    while i < items.len()
        invariant
            i <= items.len(),
            r@.len() == i,
            forall|j: int| 0 <= j < i ==> #[trigger] r@[j]@ == items@[j]@,
        decreases items.len() - i,
    {
        r.push(items[i].deep_copy());
        i = i + 1;
    }
    assert(json_views(r@) =~= json_views(items@));
    r
}

/// The elements that a response holds under a layout.
pub fn elements(layout: &Layout, doc: &Json) -> (r: Vec<Json>)
    ensures
        json_views(r@) == elements_of(*layout, doc@),
{
    match layout {
        Layout::Records(key) => {
            let arr = match key {
                None => Some(doc),
                Some(k) => doc.get(k.as_str()),
            };
            match arr {
                Some(Json::Array(items)) => {
                    proof {
                        lemma_array_view(*items);
                    }
                    copy_items(items)
                },
                _ => {
                    let r: Vec<Json> = Vec::new();
                    assert(json_views(r@) =~= Seq::<JsonV>::empty());
                    r
                },
            }
        },
        Layout::Matrix => matrix_samples_of(doc),
    }
}

/// The rows that a response gives for the requested columns: one per
/// element object, in document order, each with one entry per requested
/// column. A response without the expected array gives no rows.
pub fn materialize(schema: &ObjectSchema, doc: &Json, cols: &Vec<String>) -> (r: Vec<Row>)
    ensures
        rows_view(r@) == materialized(*schema, doc@, names(cols@)),
{
    match &schema.layout {
        Layout::Records(key) => {
            let arr = match key {
                None => Some(doc),
                Some(k) => doc.get(k.as_str()),
            };
            match arr {
                Some(Json::Array(items)) => {
                    proof {
                        lemma_array_view(*items);
                    }
                    rows_of(schema, items, cols)
                },
                _ => {
                    let r: Vec<Row> = Vec::new();
                    assert(rows_view(r@) =~= Seq::<RowV>::empty());
                    r
                },
            }
        },
        Layout::Matrix => {
            let samples = matrix_samples_of(doc);
            rows_of(schema, &samples, cols)
        },
    }
}

/// When every element is an object, the rows are exactly one per element,
/// in element order.
pub proof fn lemma_rows_one_per_object(
    schema: ObjectSchema,
    elems: Seq<JsonV>,
    cols: Seq<Seq<char>>,
)
    requires
        forall|i: int| 0 <= i < elems.len() ==> #[trigger] elems[i] is Object,
    ensures
        rows_for(schema, elems, cols).len() == elems.len(),
        forall|i: int|
            0 <= i < elems.len() ==> #[trigger] rows_for(schema, elems, cols)[i] == row_for(
                schema,
                elems[i],
                cols,
            ),
    decreases elems.len(),
{
    if elems.len() > 0 {
        let prev = elems.drop_last();
        assert forall|i: int| 0 <= i < prev.len() implies #[trigger] prev[i] is Object by {
            assert(prev[i] == elems[i]);
        }
        lemma_rows_one_per_object(schema, prev, cols);
        assert(elems.last() is Object);
        assert forall|i: int| 0 <= i < elems.len() implies #[trigger] rows_for(
            schema,
            elems,
            cols,
        )[i] == row_for(schema, elems[i], cols) by {
            if i < prev.len() {
                assert(prev[i] == elems[i]);
            }
        }
    }
}

/// A response whose elements are all objects gives exactly as many rows as
/// it has elements, whatever the schema and the requested columns.
pub proof fn lemma_row_count(schema: ObjectSchema, doc: JsonV, cols: Seq<Seq<char>>)
    requires
        forall|i: int|
            0 <= i < elements_of(schema.layout, doc).len() ==> #[trigger] elements_of(
                schema.layout,
                doc,
            )[i] is Object,
    ensures
        materialized(schema, doc, cols).len() == elements_of(schema.layout, doc).len(),
{
    lemma_rows_one_per_object(schema, elements_of(schema.layout, doc), cols);
}

/// A mapped field that is absent from its source element gives a null cell
/// in that element's row; the row itself is still there.
pub proof fn lemma_absent_field_is_null(
    schema: ObjectSchema,
    doc: JsonV,
    cols: Seq<Seq<char>>,
    i: int,
    j: int,
)
    requires
        forall|k: int|
            0 <= k < elements_of(schema.layout, doc).len() ==> #[trigger] elements_of(
                schema.layout,
                doc,
            )[k] is Object,
        0 <= i < elements_of(schema.layout, doc).len(),
        0 <= j < cols.len(),
        !(schema.supports_attrs && cols[j] == attrs_column()),
        mapping_for(schema.fields@, cols[j]) matches Some(m) && at_path(
            elements_of(schema.layout, doc)[i],
            m.path(),
        ) is None,
    ensures
        materialized(schema, doc, cols).len() == elements_of(schema.layout, doc).len(),
        materialized(schema, doc, cols)[i][j] == (cols[j], None::<CellV>),
{
    lemma_rows_one_per_object(schema, elements_of(schema.layout, doc), cols);
}

/// The elements that are objects, in order: those that give rows.
pub open spec fn objects_of(elems: Seq<JsonV>) -> Seq<JsonV>
    decreases elems.len(),
{
    if elems.len() == 0 {
        Seq::empty()
    } else {
        let prev = objects_of(elems.drop_last());
        if elems.last() is Object {
            prev.push(elems.last())
        } else {
            prev
        }
    }
}

/// Row `i` is built from the `i`-th object element, whatever the columns.
pub proof fn lemma_rows_follow_objects(schema: ObjectSchema, elems: Seq<JsonV>, cols: Seq<Seq<char>>)
    ensures
        rows_for(schema, elems, cols).len() == objects_of(elems).len(),
        forall|i: int|
            0 <= i < objects_of(elems).len() ==> #[trigger] rows_for(schema, elems, cols)[i]
                == row_for(schema, objects_of(elems)[i], cols),
        forall|i: int|
            0 <= i < objects_of(elems).len() ==> #[trigger] objects_of(elems)[i] is Object
                && elems.contains(objects_of(elems)[i]),
    decreases elems.len(),
{
    if elems.len() > 0 {
        let prev = elems.drop_last();
        lemma_rows_follow_objects(schema, prev, cols);
        assert forall|i: int| 0 <= i < objects_of(elems).len() implies #[trigger] objects_of(
            elems,
        )[i] is Object && elems.contains(objects_of(elems)[i]) by {
            if i < objects_of(prev).len() {
                let k = choose|k: int| 0 <= k < prev.len() && prev[k] == objects_of(prev)[i];
                assert(elems[k] == prev[k]);
            } else {
                assert(elems[elems.len() - 1] == elems.last());
            }
        }
    }
}

/// Where the schema allows it, a requested `attrs` column holds, in each
/// row, the whole source element that the row was built from.
pub proof fn lemma_attrs_passthrough(
    schema: ObjectSchema,
    doc: JsonV,
    cols: Seq<Seq<char>>,
    i: int,
    j: int,
)
    requires
        schema.supports_attrs,
        0 <= i < materialized(schema, doc, cols).len(),
        0 <= j < cols.len(),
        cols[j] == attrs_column(),
    ensures
        i < objects_of(elements_of(schema.layout, doc)).len(),
        elements_of(schema.layout, doc).contains(objects_of(elements_of(schema.layout, doc))[i]),
        materialized(schema, doc, cols)[i][j] == (
            attrs_column(),
            Some(CellV::Json(objects_of(elements_of(schema.layout, doc))[i])),
        ),
{
    lemma_rows_follow_objects(schema, elements_of(schema.layout, doc), cols);
}

/// The `attrs` cell of each row does not depend on which other columns are
/// requested: two requests that both ask for `attrs` get the same rows'
/// worth of it, cell for cell.
pub proof fn lemma_attrs_independent_of_columns(
    schema: ObjectSchema,
    doc: JsonV,
    c1: Seq<Seq<char>>,
    c2: Seq<Seq<char>>,
    j1: int,
    j2: int,
)
    requires
        schema.supports_attrs,
        0 <= j1 < c1.len(),
        0 <= j2 < c2.len(),
        c1[j1] == attrs_column(),
        c2[j2] == attrs_column(),
    ensures
        materialized(schema, doc, c1).len() == materialized(schema, doc, c2).len(),
        forall|i: int|
            0 <= i < materialized(schema, doc, c1).len() ==> #[trigger] materialized(
                schema,
                doc,
                c1,
            )[i][j1] == materialized(schema, doc, c2)[i][j2],
{
    lemma_rows_follow_objects(schema, elements_of(schema.layout, doc), c1);
    lemma_rows_follow_objects(schema, elements_of(schema.layout, doc), c2);
}

} // verus!
