use prometheus_fdw::plan::{
    validate_options, value_to_promql_string, Connector, OptionKey, PlanError, Qual, QualValue,
};
use prometheus_fdw::schema::ObjectType;

fn s(x: &str) -> String {
    x.to_string()
}

fn opts(pairs: &[(&str, &str)]) -> Vec<(String, String)> {
    pairs.iter().map(|(k, v)| (s(k), s(v))).collect()
}

fn qual(field: &str, op: &str, value: QualValue) -> Qual {
    Qual { field: s(field), operator: s(op), value }
}

fn prometheus() -> Connector {
    Connector::new(&opts(&[("base_url", "http://prom:9090")]), None, None)
}

fn range_quals() -> Vec<Qual> {
    vec![
        qual("metric_name", "=", QualValue::Str(s("cpu"))),
        qual("metric_time", ">", QualValue::Int(100)),
        qual("metric_time", "<", QualValue::Int(200)),
    ]
}

fn query_params(url: &str) -> Vec<String> {
    let mut params: Vec<String> = url.split_once('?').unwrap().1.split('&').map(s).collect();
    params.sort();
    params
}

#[test]
fn range_query_parameters() {
    let plan = prometheus()
        .plan(&opts(&[("object", "metrics"), ("step", "5m")]), &range_quals())
        .unwrap();
    assert_eq!(plan.requests.len(), 1);
    let url = &plan.requests[0].url;
    assert_eq!(url, "http://prom:9090/api/v1/query_range?query=cpu&start=100&end=200&step=5m");
    assert_eq!(query_params(url), vec![s("end=200"), s("query=cpu"), s("start=100"), s("step=5m")]);
    assert!(plan.requests[0].headers.is_empty());
    assert_eq!(plan.schema.object_type, ObjectType::Metrics);
}

#[test]
fn range_query_default_step() {
    let plan = prometheus().plan(&opts(&[("object", "metrics")]), &range_quals()).unwrap();
    assert!(plan.requests[0].url.ends_with("&step=10m"));
}

#[test]
fn range_query_without_lower_bound_plans_nothing() {
    let quals: Vec<Qual> = range_quals().into_iter().filter(|q| q.operator != ">").collect();
    let r = prometheus().plan(&opts(&[("object", "metrics"), ("step", "5m")]), &quals);
    assert_eq!(r.err(), Some(PlanError::FilterMissing));
}

#[test]
fn other_operators_are_not_pushed_down() {
    let quals = vec![
        qual("metric_name", "=", QualValue::Str(s("cpu"))),
        qual("metric_time", ">=", QualValue::Int(100)),
        qual("metric_time", "<", QualValue::Int(200)),
    ];
    let r = prometheus().plan(&opts(&[("object", "metrics")]), &quals);
    assert_eq!(r.err(), Some(PlanError::FilterMissing));
}

#[test]
fn first_matching_predicate_wins() {
    let mut quals = range_quals();
    quals.push(qual("metric_name", "=", QualValue::Str(s("mem"))));
    let plan = prometheus().plan(&opts(&[("object", "metrics")]), &quals).unwrap();
    assert!(plan.requests[0].url.contains("query=cpu&"));
}

#[test]
fn missing_object_option() {
    let r = prometheus().plan(&opts(&[("step", "5m")]), &range_quals());
    assert_eq!(r.err(), Some(PlanError::MissingOption(OptionKey::Object)));
}

#[test]
fn unknown_object_type() {
    let r = prometheus().plan(&opts(&[("object", "logs")]), &range_quals());
    assert_eq!(r.err(), Some(PlanError::UnsupportedObjectType(s("logs"))));
}

#[test]
fn metrics_need_a_base_url() {
    let conn = Connector::new(&opts(&[]), None, None);
    let r = conn.plan(&opts(&[("object", "metrics")]), &range_quals());
    assert_eq!(r.err(), Some(PlanError::MissingOption(OptionKey::BaseUrl)));
}

#[test]
fn fallback_base_url() {
    let conn = Connector::new(&opts(&[]), Some(s("http://env:9090")), None);
    assert_eq!(conn.base_url, Some(s("http://env:9090")));
    let conn = Connector::new(&opts(&[("base_url", "http://opt")]), Some(s("http://env:9090")), None);
    assert_eq!(conn.base_url, Some(s("http://opt")));
}

#[test]
fn identity_objects_need_a_key() {
    let conn = Connector::new(&opts(&[]), None, None);
    let r = conn.plan(&opts(&[("object", "users")]), &vec![]);
    assert_eq!(r.err(), Some(PlanError::MissingOption(OptionKey::ApiKey)));
}

#[test]
fn identity_list_request() {
    let conn = Connector::new(&opts(&[("api_key", "sk_test")]), None, None);
    let plan = conn.plan(&opts(&[("object", "users")]), &vec![]).unwrap();
    assert_eq!(plan.requests[0].url, "https://api.clerk.com/v1/users?limit=500");
    assert_eq!(plan.requests[0].headers, vec![(s("Authorization"), s("Bearer sk_test"))]);
    assert!(plan.schema.supports_attrs);
    let cols: Vec<&str> = plan.schema.fields.iter().map(|f| f.column.as_str()).collect();
    assert_eq!(cols[0], "user_id");
    assert_eq!(cols.len(), 10);
}

#[test]
fn fallback_key() {
    let conn = Connector::new(&opts(&[]), None, Some(s("sk_env")));
    let plan = conn.plan(&opts(&[("object", "organizations")]), &vec![]).unwrap();
    assert_eq!(plan.requests[0].url, "https://api.clerk.com/v1/organizations?limit=500");
    assert_eq!(plan.requests[0].headers[0].1, "Bearer sk_env");
}

#[test]
fn promql_values() {
    assert_eq!(value_to_promql_string(&QualValue::Str(s("up"))), "up");
    assert_eq!(value_to_promql_string(&QualValue::Int(-42)), "-42");
    assert_eq!(value_to_promql_string(&QualValue::Unsupported), "");
}

#[test]
fn validator_requires_object_on_tables() {
    let with = vec![Some(s("step=5m")), None, Some(s("object=metrics"))];
    let without = vec![Some(s("objects=metrics")), Some(s("step=5m"))];
    assert_eq!(validate_options(&with, true), Ok(()));
    assert_eq!(validate_options(&without, true), Err(OptionKey::Object));
    assert_eq!(validate_options(&without, false), Ok(()));
}

#[test]
fn error_messages() {
    assert_eq!(PlanError::MissingOption(OptionKey::Object).message(), "missing option: object");
    assert_eq!(PlanError::UnsupportedObjectType(s("x")).message(), "unsupported object: x");
    assert_eq!(PlanError::FilterMissing.message(), "filters not found in quals");
}
