use prometheus_fdw::cell::Cell;
use prometheus_fdw::cursor::ResultCursor;
use prometheus_fdw::json::Json;
use prometheus_fdw::materialize::Row;
use prometheus_fdw::plan::{Connector, PlanError, Qual, QualValue};
use prometheus_fdw::scan::{begin_scan, Action, FetchError, Phase};
use prometheus_fdw::setup::{basic_setup_sql, retention_sql};

fn s(x: &str) -> String {
    x.to_string()
}

fn text(x: &str) -> Json {
    Json::Str(s(x))
}

fn obj(members: Vec<(&str, Json)>) -> Json {
    Json::Object(members.into_iter().map(|(k, v)| (s(k), v)).collect())
}

fn opts(pairs: &[(&str, &str)]) -> Vec<(String, String)> {
    pairs.iter().map(|(k, v)| (s(k), s(v))).collect()
}

fn clerk() -> Connector {
    Connector::new(&opts(&[("api_key", "sk")]), None, None)
}

fn organizations(ids: &[&str]) -> Json {
    obj(vec![("data", Json::Array(ids.iter().map(|i| obj(vec![("id", text(i))])).collect()))])
}

fn memberships(org: &str, users: &[&str]) -> Json {
    let items = users
        .iter()
        .map(|u| {
            obj(vec![
                ("public_user_data", obj(vec![("user_id", text(u))])),
                ("organization", obj(vec![("id", text(org))])),
                ("role", text("member")),
            ])
        })
        .collect();
    obj(vec![("data", Json::Array(items))])
}

fn user_of(row: &Row) -> Option<Cell> {
    row.entries[0].1.clone()
}

fn fetch_url(a: Action) -> String {
    match a {
        Action::Fetch(r) => r.url,
        other => panic!("expected a fetch, got {:?}", other),
    }
}

#[test]
fn fan_out_rows_in_parent_order_with_pacing() {
    let cols = vec![s("user_id"), s("organization_id")];
    let mut scan = begin_scan(&clerk(), &opts(&[("object", "organization_memberships")]), &vec![], cols).unwrap();
    assert_eq!(fetch_url(scan.next_action()), "https://api.clerk.com/v1/organizations?limit=500");
    scan.primary_done(Ok(organizations(&["org_1", "org_2"])));
    assert_eq!(
        fetch_url(scan.next_action()),
        "https://api.clerk.com/v1/organizations/org_1/memberships?limit=500"
    );
    scan.child_done(Ok(memberships("org_1", &["u1", "u2", "u3"])));
    assert_eq!(scan.next_action(), Action::Pause(50));
    scan.paused();
    assert_eq!(
        fetch_url(scan.next_action()),
        "https://api.clerk.com/v1/organizations/org_2/memberships?limit=500"
    );
    scan.child_done(Ok(memberships("org_2", &["u4", "u5", "u6"])));
    assert_eq!(scan.next_action(), Action::Finish);
    assert_eq!(scan.pauses, 1);
    let users: Vec<Option<Cell>> = scan.rows.iter().map(user_of).collect();
    let expected: Vec<Option<Cell>> =
        ["u1", "u2", "u3", "u4", "u5", "u6"].iter().map(|u| Some(Cell::String(s(u)))).collect();
    assert_eq!(users, expected);
    assert_eq!(scan.rows[4].entries[1].1, Some(Cell::String(s("org_2"))));
}

#[test]
fn failed_child_fetch_is_isolated() {
    let cols = vec![s("user_id")];
    let mut scan = begin_scan(&clerk(), &opts(&[("object", "organization_memberships")]), &vec![], cols).unwrap();
    scan.primary_done(Ok(organizations(&["org_1", "org_2", "org_3"])));
    scan.child_done(Err(FetchError::Transport(s("connection reset"))));
    scan.paused();
    scan.child_done(Ok(memberships("org_2", &["u4"])));
    scan.paused();
    scan.child_done(Err(FetchError::Status(500)));
    assert_eq!(scan.phase, Phase::Done);
    assert_eq!(scan.skipped, vec![s("org_1"), s("org_3")]);
    assert_eq!(scan.rows.len(), 1);
    assert_eq!(user_of(&scan.rows[0]), Some(Cell::String(s("u4"))));
    assert_eq!(scan.pauses, 2);
}

#[test]
fn failed_parent_list_ends_scan_empty() {
    let mut scan = begin_scan(&clerk(), &opts(&[("object", "organization_memberships")]), &vec![], vec![s("role")]).unwrap();
    scan.primary_done(Err(FetchError::Status(401)));
    assert_eq!(scan.phase, Phase::Done);
    assert_eq!(scan.next_action(), Action::Finish);
    assert!(scan.into_cursor().next_row().is_none());
}

#[test]
fn no_parents_means_no_child_requests() {
    let mut scan = begin_scan(&clerk(), &opts(&[("object", "organization_memberships")]), &vec![], vec![s("role")]).unwrap();
    scan.primary_done(Ok(organizations(&[])));
    assert_eq!(scan.next_action(), Action::Finish);
}

#[test]
fn cancel_keeps_rows_so_far() {
    let mut scan = begin_scan(&clerk(), &opts(&[("object", "organization_memberships")]), &vec![], vec![s("user_id")]).unwrap();
    scan.primary_done(Ok(organizations(&["org_1", "org_2"])));
    scan.child_done(Ok(memberships("org_1", &["u1", "u2"])));
    scan.cancel();
    assert_eq!(scan.next_action(), Action::Finish);
    assert_eq!(scan.rows.len(), 2);
}

#[test]
fn single_request_scan_and_cursor() {
    let conn = Connector::new(&opts(&[("base_url", "http://prom")]), None, None);
    let quals = vec![
        Qual { field: s("metric_name"), operator: s("="), value: QualValue::Str(s("up")) },
        Qual { field: s("metric_time"), operator: s(">"), value: QualValue::Int(1) },
        Qual { field: s("metric_time"), operator: s("<"), value: QualValue::Int(2) },
    ];
    let mut scan = begin_scan(&conn, &opts(&[("object", "metrics")]), &quals, vec![s("metric_time")]).unwrap();
    assert_eq!(
        fetch_url(scan.next_action()),
        "http://prom/api/v1/query_range?query=up&start=1&end=2&step=10m"
    );
    let values = Json::Array(vec![
        Json::Array(vec![Json::Number(s("1")), text("0")]),
        Json::Array(vec![Json::Number(s("2")), text("1")]),
    ]);
    let answer = obj(vec![(
        "data",
        obj(vec![("result", Json::Array(vec![obj(vec![("metric", obj(vec![])), ("values", values)])]))]),
    )]);
    scan.primary_done(Ok(answer));
    assert_eq!(scan.next_action(), Action::Finish);
    let mut cursor = scan.into_cursor();
    assert_eq!(cursor.next_row().unwrap().entries[0].1, Some(Cell::I64(1)));
    assert_eq!(cursor.next_row().unwrap().entries[0].1, Some(Cell::I64(2)));
    assert!(cursor.next_row().is_none());
    assert!(cursor.next_row().is_none());
}

#[test]
fn missing_filter_scan_yields_nothing() {
    let conn = Connector::new(&opts(&[("base_url", "http://prom")]), None, None);
    let quals = vec![Qual { field: s("metric_name"), operator: s("="), value: QualValue::Str(s("up")) }];
    let r = begin_scan(&conn, &opts(&[("object", "metrics")]), &quals, vec![]);
    assert_eq!(r.err(), Some(PlanError::FilterMissing));
    assert!(ResultCursor::empty().next_row().is_none());
}

#[test]
fn single_organization_bypasses_fan_out() {
    let options = opts(&[("object", "organization_memberships"), ("organization_id", "org_9")]);
    let mut scan = begin_scan(&clerk(), &options, &vec![], vec![s("user_id"), s("role")]).unwrap();
    assert!(scan.direct);
    assert_eq!(
        fetch_url(scan.next_action()),
        "https://api.clerk.com/v1/organizations/org_9/memberships?limit=500"
    );
    scan.primary_done(Ok(memberships("org_9", &["u1", "u2"])));
    assert_eq!(scan.next_action(), Action::Finish);
    assert_eq!(scan.pauses, 0);
    assert_eq!(scan.rows.len(), 2);
    assert_eq!(scan.rows[1].entries[0].1, Some(Cell::String(s("u2"))));
    assert_eq!(scan.rows[1].entries[1].1, Some(Cell::String(s("member"))));
}

#[test]
fn organization_id_is_ignored_for_other_objects() {
    let options = opts(&[("object", "users"), ("organization_id", "org_9")]);
    let scan = begin_scan(&clerk(), &options, &vec![], vec![s("user_id")]).unwrap();
    assert!(!scan.direct);
    assert_eq!(fetch_url(scan.next_action()), "https://api.clerk.com/v1/users?limit=500");
}

#[test]
fn close_discards_rows() {
    let row = Row { entries: vec![(s("a"), None)] };
    let mut cursor = ResultCursor::new(vec![row, Row { entries: vec![] }]);
    assert_eq!(cursor.next_row(), Some(Row { entries: vec![(s("a"), None)] }));
    cursor.close();
    assert!(cursor.next_row().is_none());
    cursor.close();
    assert!(cursor.next_row().is_none());
}

#[test]
fn setup_statements() {
    let sql = basic_setup_sql("http://prom:9090");
    assert!(sql.contains("OPTIONS (base_url 'http://prom:9090');"));
    assert!(sql.contains("step '10m'"));
    assert_eq!(
        retention_sql("30 days"),
        "UPDATE part_config SET retention = '30 days', retention_keep_table = false, retention_keep_index = false, infinite_time_partitions = true WHERE parent_table = 'public.metric_values';"
    );
}
