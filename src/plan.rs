//! Planning the requests of a scan from its options and predicates.
use vstd::prelude::*;
use crate::json::str_eq;
use crate::registry::{endpoint_of, lookup, object_type_named, registered};
use crate::schema::{ObjectSchema, ObjectType};
use crate::text::{int_text, int_to_text};

verus! {

broadcast use vstd::std_specs::vec::group_vec_axioms, vstd::seq::group_seq_axioms;

/// The value side of a predicate.
#[derive(PartialEq, Debug)]
pub enum QualValue {
    Str(String),
    Int(i64),
    /// Any other value (a float, a date, a list): not rendered into a query.
    Unsupported,
}

/// A predicate `field operator value` that the query engine offers.
pub struct Qual {
    pub field: String,
    pub operator: String,
    pub value: QualValue,
}

/// The value of option `key`: the first entry with that key.
pub open spec fn option_of(opts: Seq<(String, String)>, key: Seq<char>) -> Option<Seq<char>>
    decreases opts.len(),
{
    if opts.len() == 0 {
        None
    } else if opts[0].0@ == key {
        Some(opts[0].1@)
    } else {
        option_of(opts.drop_first(), key)
    }
}

/// The value of option `key`, if it is set.
pub fn option_value<'a>(opts: &'a Vec<(String, String)>, key: &str) -> (r: Option<&'a String>)
    ensures
        match r {
            Some(v) => option_of(opts@, key@) == Some(v@),
            None => option_of(opts@, key@) is None,
        },
{
    let mut i: usize = 0;
    assert(opts@.subrange(0, opts@.len() as int) =~= opts@);
    while i < opts.len()
        invariant
            i <= opts.len(),
            option_of(opts@, key@) == option_of(opts@.subrange(i as int, opts@.len() as int), key@),
        decreases opts.len() - i,
    {
        let ghost rest = opts@.subrange(i as int, opts@.len() as int);
        assert(rest.drop_first() =~= opts@.subrange(i + 1, opts@.len() as int));
        if str_eq(opts[i].0.as_str(), key) {
            return Some(&opts[i].1);
        }
        i = i + 1;
    }
    None
}

/// The first predicate on `field` with operator `op`.
pub open spec fn find_qual(quals: Seq<Qual>, field: Seq<char>, op: Seq<char>) -> Option<Qual>
    decreases quals.len(),
{
    if quals.len() == 0 {
        None
    } else if quals[0].field@ == field && quals[0].operator@ == op {
        Some(quals[0])
    } else {
        find_qual(quals.drop_first(), field, op)
    }
}

fn first_qual<'a>(quals: &'a Vec<Qual>, field: &str, op: &str) -> (r: Option<&'a Qual>)
    ensures
        match r {
            Some(q) => find_qual(quals@, field@, op@) == Some(*q),
            None => find_qual(quals@, field@, op@) is None,
        },
{
    let mut i: usize = 0;
    assert(quals@.subrange(0, quals@.len() as int) =~= quals@);
    while i < quals.len()
        invariant
            i <= quals.len(),
            find_qual(quals@, field@, op@) == find_qual(
                quals@.subrange(i as int, quals@.len() as int),
                field@,
                op@,
            ),
        decreases quals.len() - i,
    {
        let ghost rest = quals@.subrange(i as int, quals@.len() as int);
        assert(rest.drop_first() =~= quals@.subrange(i + 1, quals@.len() as int));
        if str_eq(quals[i].field.as_str(), field) && str_eq(quals[i].operator.as_str(), op) {
            return Some(&quals[i]);
        }
        i = i + 1;
    }
    None
}

/// How a predicate value is written into a query: a string as it is, an
/// integer in decimal, anything else as nothing.
pub open spec fn promql_text(v: QualValue) -> Seq<char> {
    match v {
        QualValue::Str(s) => s@,
        QualValue::Int(i) => int_text(i as int),
        QualValue::Unsupported => Seq::empty(),
    }
}

/// The step of a range query when no `step` option is set.
pub open spec fn default_step() -> Seq<char> {
    "10m"@
}

/// The sampling step: the `step` option, or the default.
pub open spec fn step_of(opts: Seq<(String, String)>) -> Seq<char> {
    match option_of(opts, "step"@) {
        Some(s) => s,
        None => default_step(),
    }
}

/// The range-query URL for the predicates: it needs `metric_name = ..`,
/// `metric_time > ..` and `metric_time < ..`; the first of each is used.
pub open spec fn range_query_url(
    base: Seq<char>,
    opts: Seq<(String, String)>,
    quals: Seq<Qual>,
) -> Option<Seq<char>> {
    match (
        find_qual(quals, "metric_name"@, "="@),
        find_qual(quals, "metric_time"@, ">"@),
        find_qual(quals, "metric_time"@, "<"@),
    ) {
        (Some(name), Some(lo), Some(hi)) => Some(
            base + "/api/v1/query_range?query="@ + promql_text(name.value) + "&start="@
                + promql_text(lo.value) + "&end="@ + promql_text(hi.value) + "&step="@ + step_of(
                opts,
            ),
        ),
        _ => None,
    }
}

/// Writes a predicate value into a query.
pub fn value_to_promql_string(value: &QualValue) -> (r: String)
    ensures
        r@ == promql_text(*value),
{
    match value {
        QualValue::Str(s) => s.clone(),
        QualValue::Int(i) => int_to_text(*i),
        QualValue::Unsupported => String::new(),
    }
}

/// An option the scan needs.
#[derive(PartialEq, Eq, Structural, Clone, Copy, Debug)]
pub enum OptionKey {
    Object,
    BaseUrl,
    ApiKey,
}

/// Why a scan plans no request.
#[derive(PartialEq, Debug)]
pub enum PlanError {
    MissingOption(OptionKey),
    UnsupportedObjectType(String),
    /// A predicate that the object type requires is absent.
    FilterMissing,
}

impl OptionKey {
    /// The option's name as it is written in a definition.
    pub fn name(&self) -> (r: String)
        ensures
            r@ == match *self {
                OptionKey::Object => "object"@,
                OptionKey::BaseUrl => "base_url"@,
                OptionKey::ApiKey => "api_key"@,
            },
    {
        match self {
            OptionKey::Object => String::from_str("object"),
            OptionKey::BaseUrl => String::from_str("base_url"),
            OptionKey::ApiKey => String::from_str("api_key"),
        }
    }
}

impl PlanError {
    /// A diagnostic for the user.
    pub fn message(&self) -> (r: String)
        ensures
            r@ == match *self {
                PlanError::MissingOption(k) => "missing option: "@ + match k {
                    OptionKey::Object => "object"@,
                    OptionKey::BaseUrl => "base_url"@,
                    OptionKey::ApiKey => "api_key"@,
                },
                PlanError::UnsupportedObjectType(n) => "unsupported object: "@ + n@,
                PlanError::FilterMissing => "filters not found in quals"@,
            },
    {
        match self {
            PlanError::MissingOption(k) => String::from_str("missing option: ").concat(
                k.name().as_str(),
            ),
            PlanError::UnsupportedObjectType(n) => String::from_str("unsupported object: ").concat(
                n.as_str(),
            ),
            PlanError::FilterMissing => String::from_str("filters not found in quals"),
        }
    }
}

/// An HTTP GET to perform.
#[derive(PartialEq, Debug)]
pub struct RequestDescriptor {
    pub url: String,
    pub headers: Vec<(String, String)>,
}

/// The connection settings of one connector instance.
pub struct Connector {
    pub base_url: Option<String>,
    pub api_key: Option<String>,
}

pub open spec fn opt_view(o: Option<String>) -> Option<Seq<char>> {
    match o {
        Some(s) => Some(s@),
        None => None,
    }
}

fn copy_opt(o: Option<&String>) -> (r: Option<String>)
    ensures
        opt_view(r) == match o {
            Some(s) => Some(s@),
            None => None::<Seq<char>>,
        },
{
    match o {
        Some(s) => Some(s.clone()),
        None => None,
    }
}

/// The host of the identity-provider API, when no base URL is configured.
pub open spec fn identity_host() -> Seq<char> {
    "https://api.clerk.com/v1"@
}

impl Connector {
    /// Settings from the server options: `base_url` and `api_key` where set,
    /// else the fallbacks that the environment gives.
    pub fn new(
        options: &Vec<(String, String)>,
        fallback_base_url: Option<String>,
        fallback_api_key: Option<String>,
    ) -> (r: Connector)
        ensures
            opt_view(r.base_url) == match option_of(options@, "base_url"@) {
                Some(u) => Some(u),
                None => opt_view(fallback_base_url),
            },
            opt_view(r.api_key) == match option_of(options@, "api_key"@) {
                Some(k) => Some(k),
                None => opt_view(fallback_api_key),
            },
    {
        let base_url = match option_value(options, "base_url") {
            Some(u) => Some(u.clone()),
            None => fallback_base_url,
        };
        let api_key = match option_value(options, "api_key") {
            Some(k) => Some(k.clone()),
            None => fallback_api_key,
        };
        Connector { base_url, api_key }
    }

    /// The base URL for an object type: the configured one, else the
    /// identity provider's host for its object types; metrics have no
    /// default host.
    pub open spec fn base_for(&self, t: ObjectType) -> Option<Seq<char>> {
        match self.base_url {
            Some(u) => Some(u@),
            None => if t == ObjectType::Metrics {
                None
            } else {
                Some(identity_host())
            },
        }
    }

    pub(crate) fn base(&self, t: ObjectType) -> (r: Option<String>)
        ensures
            opt_view(r) == self.base_for(t),
    {
        match &self.base_url {
            Some(u) => Some(u.clone()),
            None => if t == ObjectType::Metrics {
                None
            } else {
                Some(String::from_str("https://api.clerk.com/v1"))
            },
        }
    }

    /// The headers of every request: a bearer token when a key is set.
    pub open spec fn headers_spec(&self) -> Seq<(Seq<char>, Seq<char>)> {
        match self.api_key {
            Some(k) => seq![("Authorization"@, "Bearer "@ + k@)],
            None => Seq::empty(),
        }
    }

    pub fn headers(&self) -> (r: Vec<(String, String)>)
        ensures
            header_view(r@) == self.headers_spec(),
    {
        let mut r: Vec<(String, String)> = Vec::new();
        match &self.api_key {
            Some(k) => {
                let value = String::from_str("Bearer ").concat(k.as_str());
                r.push((String::from_str("Authorization"), value));
                assert(header_view(r@) =~= self.headers_spec());
            },
            None => {
                assert(header_view(r@) =~= self.headers_spec());
            },
        }
        r
    }

    /// The range-query URL; `None` when a required predicate is absent.
    pub fn build_url(&self, base: &str, options: &Vec<(String, String)>, quals: &Vec<Qual>) -> (r:
        Option<String>)
        ensures
            match r {
                Some(u) => range_query_url(base@, options@, quals@) == Some(u@),
                None => range_query_url(base@, options@, quals@) is None,
            },
    {
        let step = match option_value(options, "step") {
            Some(s) => s.clone(),
            None => String::from_str("10m"),
        };
        let name = first_qual(quals, "metric_name", "=");
        let lo = first_qual(quals, "metric_time", ">");
        let hi = first_qual(quals, "metric_time", "<");
        match (name, lo, hi) {
            (Some(name), Some(lo), Some(hi)) => {
                let url = String::from_str(base).concat("/api/v1/query_range?query=").concat(
                    value_to_promql_string(&name.value).as_str(),
                ).concat("&start=").concat(value_to_promql_string(&lo.value).as_str()).concat(
                    "&end=",
                ).concat(value_to_promql_string(&hi.value).as_str()).concat("&step=").concat(
                    step.as_str(),
                );
                Some(url)
            },
            _ => None,
        }
    }
}

pub open spec fn header_view(h: Seq<(String, String)>) -> Seq<(Seq<char>, Seq<char>)> {
    Seq::new(h.len(), |i: int| (h[i].0@, h[i].1@))
}

/// The request that a scan starts with, or why it has none.
pub ghost enum PlanOutcome {
    Request(ObjectType, Seq<char>),
    MissingOption(OptionKey),
    UnsupportedObjectType(Seq<char>),
    FilterMissing,
}

/// The one organization whose memberships are asked for directly, through
/// the `organization_id` option, bypassing the fan-out.
pub open spec fn direct_parent(opts: Seq<(String, String)>, t: ObjectType) -> Option<Seq<char>> {
    if t == ObjectType::OrganizationMemberships {
        option_of(opts, "organization_id"@)
    } else {
        None
    }
}

/// Whether error `e` reports outcome `o`.
pub open spec fn error_outcome(e: PlanError, o: PlanOutcome) -> bool {
    match (e, o) {
        (PlanError::MissingOption(k), PlanOutcome::MissingOption(k2)) => k == k2,
        (PlanError::UnsupportedObjectType(n), PlanOutcome::UnsupportedObjectType(n2)) => n@ == n2,
        (PlanError::FilterMissing, PlanOutcome::FilterMissing) => true,
        _ => false,
    }
}

/// A planned scan: the object's catalog entry and the requests to make
/// first. For an object gathered per parent, that is the parent list.
pub struct ScanPlan {
    pub schema: ObjectSchema,
    pub requests: Vec<RequestDescriptor>,
    /// The base URL that the requests, and any child requests, start with.
    pub base: String,
    /// The first request already names the single parent, so its answer
    /// holds the rows themselves and no fan-out follows.
    pub direct: bool,
}

pub open spec fn request_view(r: RequestDescriptor) -> (Seq<char>, Seq<(Seq<char>, Seq<char>)>) {
    (r.url@, header_view(r.headers@))
}

impl Connector {
    /// What planning gives for the options and predicates: the `object`
    /// option must name a known object type; the identity provider's object
    /// types need an API key; a range query needs its three predicates.
    pub open spec fn plan_spec(&self, opts: Seq<(String, String)>, quals: Seq<Qual>) -> PlanOutcome {
        match option_of(opts, "object"@) {
            None => PlanOutcome::MissingOption(OptionKey::Object),
            Some(name) => match object_type_named(name) {
                None => PlanOutcome::UnsupportedObjectType(name),
                Some(t) => match self.base_for(t) {
                    None => PlanOutcome::MissingOption(OptionKey::BaseUrl),
                    Some(base) => if t == ObjectType::Metrics {
                        match range_query_url(base, opts, quals) {
                            Some(u) => PlanOutcome::Request(t, u),
                            None => PlanOutcome::FilterMissing,
                        }
                    } else if self.api_key is None {
                        PlanOutcome::MissingOption(OptionKey::ApiKey)
                    } else {
                        match direct_parent(opts, t) {
                            Some(id) => PlanOutcome::Request(
                                t,
                                base + "/organizations/"@ + id + "/memberships?limit=500"@,
                            ),
                            None => PlanOutcome::Request(t, base + endpoint_of(t)),
                        }
                    },
                },
            },
        }
    }

    /// Plans a scan: the first request to make, with the catalog entry of
    /// the object type, or why there is none.
    pub fn plan(&self, options: &Vec<(String, String)>, quals: &Vec<Qual>) -> (r: Result<
        ScanPlan,
        PlanError,
    >)
        ensures
            match (r, self.plan_spec(options@, quals@)) {
                (Ok(p), PlanOutcome::Request(t, url)) => {
                    &&& registered(p.schema, t)
                    &&& p.requests@.len() == 1
                    &&& request_view(p.requests@[0]) == (url, self.headers_spec())
                    &&& self.base_for(t) == Some(p.base@)
                    &&& p.direct == direct_parent(options@, t) is Some
                },
                (Err(e), o) => error_outcome(e, o),
                _ => false,
            },
    {
        let name = match option_value(options, "object") {
            Some(n) => n,
            None => {
                return Err(PlanError::MissingOption(OptionKey::Object));
            },
        };
        let schema = match lookup(name.as_str()) {
            Some(s) => s,
            None => {
                return Err(PlanError::UnsupportedObjectType(name.clone()));
            },
        };
        let t = schema.object_type;
        let mut direct = false;
        let base = match self.base(t) {
            Some(b) => b,
            None => {
                return Err(PlanError::MissingOption(OptionKey::BaseUrl));
            },
        };
        let url = if t == ObjectType::Metrics {
            match self.build_url(base.as_str(), options, quals) {
                Some(u) => u,
                None => {
                    return Err(PlanError::FilterMissing);
                },
            }
        } else if self.api_key.is_none() {
            return Err(PlanError::MissingOption(OptionKey::ApiKey));
        } else {
            match (&schema.fan_out, option_value(options, "organization_id")) {
                (Some(f), Some(id)) => {
                    direct = true;
                    base.clone().concat(f.child_path_prefix.as_str()).concat(id.as_str()).concat(
                        f.child_path_suffix.as_str(),
                    )
                },
                _ => base.clone().concat(schema.endpoint.as_str()),
            }
        };
        let mut requests: Vec<RequestDescriptor> = Vec::new();
        requests.push(RequestDescriptor { url, headers: self.headers() });
        Ok(ScanPlan { schema, requests, base, direct })
    }
}

/// Whether an option entry written `key=value` sets option `key`.
pub open spec fn sets_option(entry: Seq<char>, key: Seq<char>) -> bool {
    let k = key + "="@;
    k.len() <= entry.len() && entry.subrange(0, k.len() as int) == k
}

/// Whether an option entry, if present, sets option `key`.
pub open spec fn entry_sets(entry: Option<String>, key: Seq<char>) -> bool {
    match entry {
        Some(e) => sets_option(e@, key),
        None => false,
    }
}

fn starts_with(s: &str, prefix: &str) -> (r: bool)
    ensures
        r == (prefix@.len() <= s@.len() && s@.subrange(0, prefix@.len() as int) == prefix@),
{
    let n = s.unicode_len();
    let m = prefix.unicode_len();
    if m > n {
        return false;
    }
    let mut i: usize = 0;
    while i < m
        invariant
            n == s@.len(),
            m == prefix@.len(),
            m <= n,
            i <= m,
            forall|j: int| 0 <= j < i ==> s@[j] == prefix@[j],
        decreases m - i,
    {
        if s.get_char(i) != prefix.get_char(i) {
            assert(s@.subrange(0, m as int)[i as int] != prefix@[i as int]);
            return false;
        }
        i = i + 1;
    }
    assert(s@.subrange(0, m as int) =~= prefix@);
    true
}

/// Checks the options of a table definition: a foreign table must set
/// `object`. Other definitions need nothing.
pub fn validate_options(options: &Vec<Option<String>>, foreign_table: bool) -> (r: Result<
    (),
    OptionKey,
>)
    ensures
        r is Ok == (!foreign_table || exists|i: int|
            0 <= i < options@.len() && entry_sets(#[trigger] options@[i], "object"@)),
        r matches Err(k) ==> k == OptionKey::Object,
{
    if !foreign_table {
        return Ok(());
    }
    let key = String::from_str("object").concat("=");
    let mut i: usize = 0;
    while i < options.len()
        invariant
            i <= options.len(),
            key@ == "object"@ + "="@,
            forall|j: int| 0 <= j < i ==> !entry_sets(#[trigger] options@[j], "object"@),
        decreases options.len() - i,
    {
        match &options[i] {
            Some(e) => {
                if starts_with(e.as_str(), key.as_str()) {
                    assert(entry_sets(options@[i as int], "object"@));
                    return Ok(());
                }
            },
            None => {},
        }
        i = i + 1;
    }
    Err(OptionKey::Object)
}

/// A range query that lacks its lower time bound plans no request.
pub proof fn lemma_range_query_needs_lower_bound(
    c: Connector,
    opts: Seq<(String, String)>,
    quals: Seq<Qual>,
)
    requires
        option_of(opts, "object"@) == Some("metrics"@),
        c.base_url is Some,
        find_qual(quals, "metric_time"@, ">"@) is None,
    ensures
        c.plan_spec(opts, quals) == PlanOutcome::FilterMissing,
{
}

} // verus!
