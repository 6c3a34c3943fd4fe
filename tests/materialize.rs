use prometheus_fdw::cell::{Cell, Coercion};
use prometheus_fdw::json::Json;
use prometheus_fdw::materialize::{materialize, resp_to_rows, Row};
use prometheus_fdw::schema::{FieldMapping, Layout, ObjectSchema, ObjectType};

fn s(x: &str) -> String {
    x.to_string()
}

fn text(x: &str) -> Json {
    Json::Str(s(x))
}

fn num(x: &str) -> Json {
    Json::Number(s(x))
}

fn obj(members: Vec<(&str, Json)>) -> Json {
    Json::Object(members.into_iter().map(|(k, v)| (s(k), v)).collect())
}

fn cols(names: &[&str]) -> Vec<String> {
    names.iter().map(|n| s(n)).collect()
}

fn mapping(key: &str, column: &str, coercion: Coercion) -> FieldMapping {
    FieldMapping { source: vec![s(key)], column: s(column), coercion }
}

fn user_schema(envelope: Option<&str>, attrs: bool) -> ObjectSchema {
    ObjectSchema {
        object_type: ObjectType::Users,
        endpoint: s("/users"),
        layout: Layout::Records(envelope.map(s)),
        fields: vec![
            mapping("id", "user_id", Coercion::Str),
            mapping("first_name", "first_name", Coercion::Str),
        ],
        supports_attrs: attrs,
        fan_out: None,
    }
}

fn row(entries: Vec<(&str, Option<Cell>)>) -> Row {
    Row { entries: entries.into_iter().map(|(c, v)| (s(c), v)).collect() }
}

#[test]
fn mapped_columns_from_enveloped_document() {
    let doc = obj(vec![("data", Json::Array(vec![obj(vec![("id", text("1")), ("first_name", text("Al"))])]))]);
    let rows = materialize(&user_schema(Some("data"), false), &doc, &cols(&["user_id", "first_name"]));
    assert_eq!(
        rows,
        vec![row(vec![
            ("user_id", Some(Cell::String(s("1")))),
            ("first_name", Some(Cell::String(s("Al")))),
        ])]
    );
}

#[test]
fn one_row_per_element() {
    let elems: Vec<Json> = (0..5).map(|i| obj(vec![("id", text(&i.to_string()))])).collect();
    let rows = materialize(&user_schema(None, false), &Json::Array(elems), &cols(&["user_id"]));
    assert_eq!(rows.len(), 5);
    assert_eq!(rows[3].entries[0].1, Some(Cell::String(s("3"))));
}

#[test]
fn empty_array_gives_no_rows() {
    let rows = materialize(&user_schema(None, false), &Json::Array(vec![]), &cols(&["user_id"]));
    assert!(rows.is_empty());
}

#[test]
fn absent_field_is_null_cell() {
    let doc = Json::Array(vec![obj(vec![("id", text("7"))])]);
    let rows = materialize(&user_schema(None, false), &doc, &cols(&["user_id", "first_name"]));
    assert_eq!(
        rows,
        vec![row(vec![("user_id", Some(Cell::String(s("7")))), ("first_name", None)])]
    );
}

#[test]
fn wrong_kind_is_null_cell() {
    let doc = Json::Array(vec![obj(vec![("id", num("7"))])]);
    let rows = materialize(&user_schema(None, false), &doc, &cols(&["user_id"]));
    assert_eq!(rows, vec![row(vec![("user_id", None)])]);
}

#[test]
fn attrs_holds_whole_element() {
    let elem = obj(vec![("id", text("1")), ("first_name", text("Al")), ("extra", Json::Bool(true))]);
    let doc = Json::Array(vec![elem.clone()]);
    let schema = user_schema(None, true);
    let only = materialize(&schema, &doc, &cols(&["attrs"]));
    let mixed = materialize(&schema, &doc, &cols(&["user_id", "attrs", "first_name"]));
    assert_eq!(only[0].entries[0], (s("attrs"), Some(Cell::Json(elem.clone()))));
    assert_eq!(mixed[0].entries[1], (s("attrs"), Some(Cell::Json(elem))));
}

#[test]
fn attrs_without_passthrough_is_null() {
    let doc = Json::Array(vec![obj(vec![("id", text("1"))])]);
    let rows = materialize(&user_schema(None, false), &doc, &cols(&["attrs"]));
    assert_eq!(rows, vec![row(vec![("attrs", None)])]);
}

#[test]
fn missing_envelope_gives_no_rows() {
    let doc = obj(vec![("items", Json::Array(vec![obj(vec![("id", text("1"))])]))]);
    assert!(materialize(&user_schema(Some("data"), false), &doc, &cols(&["user_id"])).is_empty());
    assert!(materialize(&user_schema(None, false), &doc, &cols(&["user_id"])).is_empty());
}

#[test]
fn non_object_elements_are_skipped() {
    let doc = Json::Array(vec![num("1"), obj(vec![("id", text("a"))]), Json::Null]);
    let rows = materialize(&user_schema(None, false), &doc, &cols(&["user_id"]));
    assert_eq!(rows, vec![row(vec![("user_id", Some(Cell::String(s("a"))))])]);
}

#[test]
fn nested_path_and_first_of_array() {
    let schema = ObjectSchema {
        object_type: ObjectType::Users,
        endpoint: s("/users"),
        layout: Layout::Records(None),
        fields: vec![
            FieldMapping { source: vec![s("profile"), s("city")], column: s("city"), coercion: Coercion::Str },
            FieldMapping {
                source: vec![s("emails")],
                column: s("email"),
                coercion: Coercion::FirstOfArrayThenField(s("address"), Box::new(Coercion::Str)),
            },
        ],
        supports_attrs: false,
        fan_out: None,
    };
    let doc = Json::Array(vec![
        obj(vec![
            ("profile", obj(vec![("city", text("Oslo"))])),
            ("emails", Json::Array(vec![obj(vec![("address", text("a@x.io"))]), obj(vec![("address", text("b@x.io"))])])),
        ]),
        obj(vec![("profile", text("none")), ("emails", Json::Array(vec![]))]),
    ]);
    let rows = materialize(&schema, &doc, &cols(&["email", "city"]));
    assert_eq!(
        rows,
        vec![
            row(vec![("email", Some(Cell::String(s("a@x.io")))), ("city", Some(Cell::String(s("Oslo"))))]),
            row(vec![("email", None), ("city", None)]),
        ]
    );
}

fn prometheus_answer() -> Json {
    let labels = obj(vec![("__name__", text("cpu")), ("job", text("node"))]);
    let values = Json::Array(vec![
        Json::Array(vec![num("100"), text("1.5")]),
        Json::Array(vec![num("160"), text("NaN")]),
        Json::Array(vec![num("170.5"), text("2")]),
        Json::Array(vec![num("180"), text("x")]),
        Json::Array(vec![num("190")]),
    ]);
    let other = obj(vec![
        ("metric", obj(vec![("job", text("db"))])),
        ("values", Json::Array(vec![Json::Array(vec![num("200"), text("-3e2")])])),
    ]);
    obj(vec![
        ("status", text("success")),
        (
            "data",
            obj(vec![
                ("resultType", text("matrix")),
                ("result", Json::Array(vec![obj(vec![("metric", labels), ("values", values)]), other])),
            ]),
        ),
    ])
}

fn metric_row(name: Option<&str>, labels: Json, time: Option<i64>, value: Option<&str>) -> Row {
    row(vec![
        ("metric_name", name.map(|n| Cell::String(s(n)))),
        ("metric_labels", Some(Cell::Json(labels))),
        ("metric_time", time.map(Cell::I64)),
        ("metric_value", value.map(|v| Cell::F64(s(v)))),
    ])
}

#[test]
fn metrics_answer_flattens_to_samples() {
    let rows = resp_to_rows(
        "metrics",
        &prometheus_answer(),
        &cols(&["metric_name", "metric_labels", "metric_time", "metric_value"]),
    );
    let labels = obj(vec![("__name__", text("cpu")), ("job", text("node"))]);
    assert_eq!(
        rows,
        vec![
            metric_row(Some("cpu"), labels.clone(), Some(100), Some("1.5")),
            metric_row(Some("cpu"), labels.clone(), Some(160), Some("NaN")),
            metric_row(Some("cpu"), labels.clone(), None, Some("2")),
            metric_row(Some("cpu"), labels.clone(), Some(180), None),
            metric_row(Some("cpu"), labels, Some(190), None),
            metric_row(None, obj(vec![("job", text("db"))]), Some(200), Some("-3e2")),
        ]
    );
}

#[test]
fn metrics_respects_requested_columns() {
    let rows = resp_to_rows("metrics", &prometheus_answer(), &cols(&["metric_value", "metric_time"]));
    assert_eq!(rows.len(), 6);
    assert_eq!(
        rows[0],
        row(vec![("metric_value", Some(Cell::F64(s("1.5")))), ("metric_time", Some(Cell::I64(100)))])
    );
}

#[test]
fn metrics_series_without_name_has_null_name() {
    let doc = obj(vec![(
        "data",
        obj(vec![(
            "result",
            Json::Array(vec![obj(vec![
                ("metric", obj(vec![("job", text("node"))])),
                ("values", Json::Array(vec![Json::Array(vec![num("100"), text("0.5")])])),
            ])]),
        )]),
    )]);
    let rows = resp_to_rows(
        "metrics",
        &doc,
        &cols(&["metric_name", "metric_labels", "metric_time", "metric_value"]),
    );
    assert_eq!(rows.len(), 1);
    assert_eq!(rows[0].entries[0].1, None);
    assert_eq!(rows[0].entries[2].1, Some(Cell::I64(100)));
    assert_eq!(rows[0].entries[3].1, Some(Cell::F64(s("0.5"))));
}

#[test]
fn metrics_pair_without_value_keeps_row() {
    let doc = obj(vec![(
        "data",
        obj(vec![(
            "result",
            Json::Array(vec![obj(vec![
                ("metric", obj(vec![("__name__", text("cpu"))])),
                ("values", Json::Array(vec![Json::Array(vec![num("100")])])),
            ])]),
        )]),
    )]);
    let rows = resp_to_rows(
        "metrics",
        &doc,
        &cols(&["metric_name", "metric_labels", "metric_time", "metric_value"]),
    );
    assert_eq!(rows.len(), 1);
    assert_eq!(rows[0].entries[0].1, Some(Cell::String(s("cpu"))));
    assert_eq!(rows[0].entries[2].1, Some(Cell::I64(100)));
    assert_eq!(rows[0].entries[3].1, None);
}

#[test]
fn metrics_series_without_labels_has_null_labels() {
    let doc = obj(vec![(
        "data",
        obj(vec![(
            "result",
            Json::Array(vec![obj(vec![("values", Json::Array(vec![Json::Array(vec![num("5"), text("1")])]))])]),
        )]),
    )]);
    let rows = resp_to_rows("metrics", &doc, &cols(&["metric_labels", "metric_name"]));
    assert_eq!(rows, vec![row(vec![("metric_labels", None), ("metric_name", None)])]);
}

#[test]
fn metrics_answer_without_result_gives_no_rows() {
    let doc = obj(vec![("status", text("error"))]);
    assert!(resp_to_rows("metrics", &doc, &cols(&["metric_name"])).is_empty());
}

#[test]
fn unknown_object_gives_no_rows() {
    assert!(resp_to_rows("logs", &prometheus_answer(), &cols(&["metric_name"])).is_empty());
}
