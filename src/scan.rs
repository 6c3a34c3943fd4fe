//! One scan: the requests it makes, in order, and the rows it gathers.
//!
//! The scan decides; its caller performs. The caller asks `next_action`,
//! performs the fetch or the pause it names, and reports the outcome back,
//! until the action is `Finish`.
use vstd::prelude::*;
use crate::json::{at_path, path_view, Json, JsonV};
use crate::materialize::{elements, elements_of, json_views, materialize, materialized, names, rows_view, Row, RowV};
use crate::cursor::ResultCursor;
use crate::plan::{
    direct_parent, error_outcome, header_view, request_view, Connector, PlanError, PlanOutcome, Qual,
    RequestDescriptor, ScanPlan,
};
use crate::registry::registered;
use crate::schema::{FanOutSpec, Layout, ObjectSchema};

verus! {

broadcast use vstd::std_specs::vec::group_vec_axioms, vstd::seq::group_seq_axioms;

/// Why a fetch gave no document.
#[derive(PartialEq, Debug)]
pub enum FetchError {
    /// The upstream answered with a status outside 2xx.
    Status(u16),
    /// The request or the response body could not be carried.
    Transport(String),
    /// The body is not JSON.
    Malformed(String),
}

#[derive(PartialEq, Eq, Structural, Clone, Copy, Debug)]
pub enum Phase {
    /// The first request is to be made.
    Primary,
    /// Children are fetched, one parent after another.
    Children,
    Done,
}

/// What the caller is to do next.
#[derive(PartialEq, Debug)]
pub enum Action {
    Fetch(RequestDescriptor),
    /// Wait this many milliseconds, then report `paused`.
    Pause(u64),
    Finish,
}

pub struct Scan {
    pub schema: ObjectSchema,
    pub columns: Vec<String>,
    pub primary: RequestDescriptor,
    /// Base URL and headers of child requests.
    pub base: String,
    pub headers: Vec<(String, String)>,
    pub parents: Vec<String>,
    /// The parent whose children come next.
    pub next: usize,
    /// A pause is owed before the next child request.
    pub pause_due: bool,
    pub pauses: usize,
    pub rows: Vec<Row>,
    /// Parents whose children could not be fetched.
    pub skipped: Vec<String>,
    /// Why the first request failed, if it did.
    pub failure: Option<FetchError>,
    pub phase: Phase,
    /// The first request names the single parent; its answer holds the rows.
    pub direct: bool,
}

/// The state of a scan, as its laws speak of it.
pub ghost struct ScanV {
    pub phase: Phase,
    pub parents: Seq<Seq<char>>,
    pub next: nat,
    pub pause_due: bool,
    pub pauses: nat,
    pub rows: Seq<RowV>,
    pub skipped: Seq<Seq<char>>,
    pub schema: ObjectSchema,
    pub cols: Seq<Seq<char>>,
    pub direct: bool,
}

impl View for Scan {
    type V = ScanV;

    open spec fn view(&self) -> ScanV {
        ScanV {
            phase: self.phase,
            parents: names(self.parents@),
            next: self.next as nat,
            pause_due: self.pause_due,
            pauses: self.pauses as nat,
            rows: rows_view(self.rows@),
            skipped: names(self.skipped@),
            schema: self.schema,
            cols: names(self.columns@),
            direct: self.direct,
        }
    }
}

/// The document a fetch gave, if any.
pub open spec fn fetched(r: Result<Json, FetchError>) -> Option<JsonV> {
    match r {
        Ok(doc) => Some(doc@),
        Err(_) => None,
    }
}

/// The identifiers of the parents in a parent list, in order: the string
/// found at `id_path` of each parent element that has one.
pub open spec fn parent_ids(elems: Seq<JsonV>, id_path: Seq<Seq<char>>) -> Seq<Seq<char>>
    decreases elems.len(),
{
    if elems.len() == 0 {
        Seq::empty()
    } else {
        let prev = parent_ids(elems.drop_last(), id_path);
        match at_path(elems.last(), id_path) {
            Some(JsonV::Str(id)) => prev.push(id),
            _ => prev,
        }
    }
}

/// The state after the children of the current parent were fetched
/// (`Some`) or could not be (`None`).
pub open spec fn after_child(s: ScanV, r: Option<JsonV>) -> ScanV {
    let n = s.next + 1;
    ScanV {
        phase: if n < s.parents.len() {
            Phase::Children
        } else {
            Phase::Done
        },
        parents: s.parents,
        next: n,
        pause_due: n < s.parents.len(),
        pauses: s.pauses,
        rows: match r {
            Some(doc) => s.rows + materialized(s.schema, doc, s.cols),
            None => s.rows,
        },
        skipped: match r {
            Some(_) => s.skipped,
            None => s.skipped.push(s.parents[s.next as int]),
        },
        schema: s.schema,
        cols: s.cols,
        direct: s.direct,
    }
}

/// The state after the owed pause.
pub open spec fn after_pause(s: ScanV) -> ScanV {
    ScanV {
        phase: s.phase,
        parents: s.parents,
        next: s.next,
        pause_due: false,
        pauses: s.pauses + 1,
        rows: s.rows,
        skipped: s.skipped,
        schema: s.schema,
        cols: s.cols,
        direct: s.direct,
    }
}

/// Whether the first request's answer holds the rows themselves.
pub open spec fn rows_at_once(s: ScanV) -> bool {
    s.schema.fan_out is None || s.direct
}

/// The state after the first request gave `r`: a failure ends the scan;
/// a document gives the rows, or the parents whose children come next.
pub open spec fn after_primary(s: ScanV, r: Option<JsonV>) -> ScanV {
    match r {
        None => ScanV { phase: Phase::Done, ..s },
        Some(doc) => if rows_at_once(s) {
            ScanV { phase: Phase::Done, rows: materialized(s.schema, doc, s.cols), ..s }
        } else {
            let f = s.schema.fan_out->0;
            let ps = parent_ids(elements_of(f.parent_layout, doc), path_view(f.parent_id_path@));
            ScanV {
                phase: if ps.len() > 0 {
                    Phase::Children
                } else {
                    Phase::Done
                },
                parents: ps,
                next: 0,
                pause_due: false,
                skipped: Seq::empty(),
                ..s
            }
        },
    }
}

/// The child request path for a parent.
pub open spec fn child_url(base: Seq<char>, f: FanOutSpec, id: Seq<char>) -> Seq<char> {
    base + f.child_path_prefix@ + id + f.child_path_suffix@
}

impl Scan {
    pub open spec fn wf(&self) -> bool {
        &&& self.next <= self.parents@.len()
        &&& self.phase == Phase::Children ==> self.next < self.parents@.len()
            && self.schema.fan_out is Some
        &&& self.pause_due ==> self.phase == Phase::Children
    }

    /// A scan that has made no request yet.
    pub fn start(plan: ScanPlan, columns: Vec<String>) -> (r: Scan)
        requires
            plan.requests@.len() == 1,
        ensures
            r.wf(),
            r.phase == Phase::Primary,
            r@.rows.len() == 0,
            r@.pauses == 0,
            r@.parents.len() == 0,
            r@.skipped.len() == 0,
            r.next == 0,
            !r.pause_due,
            r.direct == plan.direct,
            r.schema == plan.schema,
            r@.cols == names(columns@),
            request_view(r.primary) == request_view(plan.requests@[0]),
            header_view(r.headers@) == header_view(plan.requests@[0].headers@),
            r.base@ == plan.base@,
    {
        let mut requests = plan.requests;
        let primary = requests.pop().unwrap();
        let headers = clone_headers(&primary.headers);
        let r = Scan {
            schema: plan.schema,
            columns,
            primary,
            base: plan.base,
            headers,
            parents: Vec::new(),
            next: 0,
            pause_due: false,
            pauses: 0,
            rows: Vec::new(),
            skipped: Vec::new(),
            failure: None,
            phase: Phase::Primary,
            direct: plan.direct,
        };
        assert(r@.rows =~= Seq::<RowV>::empty());
        assert(r@.parents =~= Seq::<Seq<char>>::empty());
        assert(r@.skipped =~= Seq::<Seq<char>>::empty());
        r
    }

    /// What the caller is to do next: make the first request; between two
    /// child requests, pause for the schema's pacing delay; request the
    /// next parent's children; or finish.
    pub fn next_action(&self) -> (r: Action)
        requires
            self.wf(),
        ensures
            self.phase == Phase::Primary ==> (r matches Action::Fetch(q) && request_view(q)
                == request_view(self.primary)),
            self.phase == Phase::Children && self.pause_due ==> (r matches Action::Pause(ms)
                && ms == self.schema.fan_out->0.pacing_ms),
            self.phase == Phase::Children && !self.pause_due ==> (r matches Action::Fetch(q)
                && request_view(q) == (
                child_url(self.base@, self.schema.fan_out->0, self@.parents[self.next as int]),
                header_view(self.headers@),
            )),
            self.phase == Phase::Done ==> r is Finish,
    {
        match self.phase {
            Phase::Primary => Action::Fetch(
                RequestDescriptor {
                    url: self.primary.url.clone(),
                    headers: clone_headers(&self.primary.headers),
                },
            ),
            Phase::Children => {
                let f = match &self.schema.fan_out {
                    Some(f) => f,
                    None => {
                        return Action::Finish;
                    },
                };
                if self.pause_due {
                    Action::Pause(f.pacing_ms)
                } else {
                    let url = self.base.clone().concat(f.child_path_prefix.as_str()).concat(
                        self.parents[self.next].as_str(),
                    ).concat(f.child_path_suffix.as_str());
                    Action::Fetch(RequestDescriptor { url, headers: clone_headers(&self.headers) })
                }
            },
            Phase::Done => Action::Finish,
        }
    }

    /// Takes the outcome of the first request. A failure ends the scan with
    /// no rows. A document gives the rows of a plain object type; for an
    /// object gathered per parent it gives the parents to visit.
    pub fn primary_done(&mut self, r: Result<Json, FetchError>)
        requires
            old(self).wf(),
            old(self).phase == Phase::Primary,
            old(self)@.rows.len() == 0,
        ensures
            final(self).wf(),
            final(self).schema == old(self).schema,
            final(self)@.cols == old(self)@.cols,
            final(self)@.pauses == old(self)@.pauses,
            final(self).base@ == old(self).base@,
            header_view(final(self).headers@) == header_view(old(self).headers@),
            final(self)@ == after_primary(old(self)@, fetched(r)),
            fetched(r) is None ==> final(self).failure is Some,
    {
        let doc = match r {
            Ok(doc) => doc,
            Err(e) => {
                self.failure = Some(e);
                self.phase = Phase::Done;
                return;
            },
        };
        let parents = match &self.schema.fan_out {
            Some(f) => {
                if self.direct {
                    self.rows = materialize(&self.schema, &doc, &self.columns);
                    self.phase = Phase::Done;
                    return;
                }
                parent_list(f, &doc)
            },
            None => {
                self.rows = materialize(&self.schema, &doc, &self.columns);
                self.phase = Phase::Done;
                return;
            },
        };
        self.parents = parents;
        self.next = 0;
        self.pause_due = false;
        self.skipped = Vec::new();
        assert(self@.skipped =~= Seq::<Seq<char>>::empty());
        self.phase = if self.parents.len() > 0 {
            Phase::Children
        } else {
            Phase::Done
        };
    }

    /// Takes the outcome of the current parent's child request: its rows are
    /// appended, or the parent is recorded as skipped; either way the scan
    /// moves on to the next parent.
    pub fn child_done(&mut self, r: Result<Json, FetchError>)
        requires
            old(self).wf(),
            old(self).phase == Phase::Children,
            !old(self).pause_due,
        ensures
            final(self).wf(),
            final(self)@ == after_child(old(self)@, fetched(r)),
            final(self).base@ == old(self).base@,
            header_view(final(self).headers@) == header_view(old(self).headers@),
    {
        let ghost before = self@;
        let total = self.parents.len();
        let n = self.next + 1;
        match r {
            Ok(doc) => {
                let more = materialize(&self.schema, &doc, &self.columns);
                append_rows(&mut self.rows, more);
            },
            Err(_) => {
                let id = self.parents[self.next].clone();
                self.skipped.push(id);
                assert(names(self.skipped@) =~= before.skipped.push(before.parents[before.next as int]));
            },
        }
        self.next = n;
        if n < total {
            self.pause_due = true;
        } else {
            self.phase = Phase::Done;
        }
        assert(self@ == after_child(before, fetched(r)));
    }

    /// Reports that the owed pause was made.
    pub fn paused(&mut self)
        requires
            old(self).wf(),
            old(self).pause_due,
            old(self).pauses < usize::MAX,
        ensures
            final(self).wf(),
            final(self)@ == after_pause(old(self)@),
            final(self).base@ == old(self).base@,
            header_view(final(self).headers@) == header_view(old(self).headers@),
    {
        self.pause_due = false;
        self.pauses = self.pauses + 1;
    }

    /// Stops the scan: no further request is made, and the rows gathered so
    /// far are kept.
    pub fn cancel(&mut self)
        ensures
            final(self).phase == Phase::Done,
            final(self)@.rows == old(self)@.rows,
            final(self)@.parents == old(self)@.parents,
            final(self).next == old(self).next,
    {
        self.phase = Phase::Done;
        self.pause_due = false;
    }
}

/// Plans a scan and readies it for its first request, or says why it
/// cannot run.
pub fn begin_scan(
    conn: &Connector,
    options: &Vec<(String, String)>,
    quals: &Vec<Qual>,
    columns: Vec<String>,
) -> (r: Result<Scan, PlanError>)
    ensures
        match (r, conn.plan_spec(options@, quals@)) {
            (Ok(s), PlanOutcome::Request(t, url)) => {
                &&& s.wf()
                &&& s.phase == Phase::Primary
                &&& s@.rows.len() == 0
                &&& s@.pauses == 0
                &&& registered(s.schema, t)
                &&& request_view(s.primary) == (url, conn.headers_spec())
                &&& header_view(s.headers@) == conn.headers_spec()
                &&& conn.base_for(t) == Some(s.base@)
                &&& s@.cols == names(columns@)
                &&& s@.parents.len() == 0
                &&& s@.skipped.len() == 0
                &&& s.next == 0
                &&& !s.pause_due
                &&& s.direct == direct_parent(options@, t) is Some
            },
            (Err(e), o) => error_outcome(e, o),
            _ => false,
        },
{
    let plan = conn.plan(options, quals)?;
    Ok(Scan::start(plan, columns))
}

impl Scan {
    /// The gathered rows, ready to be handed out.
    pub fn into_cursor(self) -> (r: ResultCursor)
        ensures
            r@ == self@.rows,
    {
        ResultCursor::new(self.rows)
    }
}

fn clone_headers(h: &Vec<(String, String)>) -> (r: Vec<(String, String)>)
    ensures
        header_view(r@) == header_view(h@),
{
    let mut r: Vec<(String, String)> = Vec::new();
    let mut i: usize = 0;
    while i < h.len()
        invariant
            i <= h.len(),
            r@.len() == i,
            forall|j: int| 0 <= j < i ==> #[trigger] r@[j].0@ == h@[j].0@ && r@[j].1@ == h@[j].1@,
        decreases h.len() - i,
    {
        r.push((h[i].0.clone(), h[i].1.clone()));
        i = i + 1;
    }
    assert(header_view(r@) =~= header_view(h@));
    r
}

fn append_rows(rows: &mut Vec<Row>, more: Vec<Row>)
    ensures
        rows_view(final(rows)@) == rows_view(old(rows)@) + rows_view(more@),
{
    let mut more = more;
    let ghost start = rows_view(rows@);
    let ghost mv = rows_view(more@);
    rows.append(&mut more);
    assert(rows_view(rows@) =~= start + mv);
}

/// The parents listed in a parent-list document.
fn parent_list(f: &FanOutSpec, doc: &Json) -> (r: Vec<String>)
    ensures
        names(r@) == parent_ids(
            elements_of(f.parent_layout, doc@),
            path_view(f.parent_id_path@),
        ),
{
    let elems = elements(&f.parent_layout, doc);
    let ghost ev = json_views(elems@);
    let ghost path = path_view(f.parent_id_path@);
    let mut ids: Vec<String> = Vec::new();
    let mut i: usize = 0;
    assert(names(ids@) =~= parent_ids(ev.subrange(0, 0), path));
    while i < elems.len()
        invariant
            i <= elems.len(),
            ev == json_views(elems@),
            path == path_view(f.parent_id_path@),
            names(ids@) == parent_ids(ev.subrange(0, i as int), path),
        decreases elems.len() - i,
    {
        let ghost next = ev.subrange(0, i + 1);
        assert(next.drop_last() =~= ev.subrange(0, i as int));
        let ghost before = ids@;
        match elems[i].get_path(&f.parent_id_path) {
            Some(Json::Str(id)) => {
                ids.push(id.clone());
                assert(names(ids@) =~= names(before).push(id@));
            },
            _ => {},
        }
        i = i + 1;
    }
    assert(ev.subrange(0, i as int) =~= ev);
    ids
}

/// The state after the remaining parents were visited in order with the
/// given outcomes, each owed pause made.
pub open spec fn drive(s: ScanV, outs: Seq<Option<JsonV>>) -> ScanV
    decreases outs.len(),
{
    if outs.len() == 0 {
        s
    } else {
        let s1 = after_child(s, outs[0]);
        drive(
            if s1.pause_due {
                after_pause(s1)
            } else {
                s1
            },
            outs.drop_first(),
        )
    }
}

/// The rows of the fetched child documents, in order; a failed fetch
/// contributes none.
pub open spec fn gathered(schema: ObjectSchema, outs: Seq<Option<JsonV>>, cols: Seq<Seq<char>>) -> Seq<
    RowV,
>
    decreases outs.len(),
{
    if outs.len() == 0 {
        Seq::empty()
    } else {
        (match outs[0] {
            Some(doc) => materialized(schema, doc, cols),
            None => Seq::empty(),
        }) + gathered(schema, outs.drop_first(), cols)
    }
}

/// The parents, in order, whose child request failed.
pub open spec fn failed_parents(ps: Seq<Seq<char>>, outs: Seq<Option<JsonV>>) -> Seq<Seq<char>>
    decreases outs.len(),
{
    if outs.len() == 0 || ps.len() == 0 {
        Seq::empty()
    } else {
        let rest = failed_parents(ps.drop_first(), outs.drop_first());
        if outs[0] is None {
            seq![ps[0]] + rest
        } else {
            rest
        }
    }
}

/// Visiting all N parents gathers their child rows in parent order, after
/// the rows already held, and pauses exactly N - 1 times: once between
/// each two consecutive child requests.
pub proof fn lemma_fan_out_order_and_pacing(s: ScanV, outs: Seq<Option<JsonV>>)
    requires
        s.phase == Phase::Children,
        !s.pause_due,
        outs.len() > 0,
        s.next + outs.len() == s.parents.len(),
    ensures
        drive(s, outs).rows == s.rows + gathered(s.schema, outs, s.cols),
        drive(s, outs).pauses == s.pauses + outs.len() - 1,
        drive(s, outs).phase == Phase::Done,
        drive(s, outs).next == s.parents.len(),
        drive(s, outs).skipped == s.skipped + failed_parents(
            s.parents.subrange(s.next as int, s.parents.len() as int),
            outs,
        ),
    decreases outs.len(),
{
    let ps = s.parents.subrange(s.next as int, s.parents.len() as int);
    assert(ps.drop_first() =~= s.parents.subrange((s.next + 1) as int, s.parents.len() as int));
    assert(ps[0] == s.parents[s.next as int]);
    let s1 = after_child(s, outs[0]);
    let part = match outs[0] {
        Some(doc) => materialized(s.schema, doc, s.cols),
        None => Seq::<RowV>::empty(),
    };
    let rest = outs.drop_first();
    if outs.len() == 1 {
        assert(rest.len() == 0);
        assert(!s1.pause_due);
        assert(drive(s1, rest) == s1);
        assert(drive(s, outs) == s1);
        assert(gathered(s.schema, rest, s.cols) == Seq::<RowV>::empty());
        assert(s.rows + gathered(s.schema, outs, s.cols) =~= s.rows + part);
        assert(failed_parents(ps.drop_first(), rest) == Seq::<Seq<char>>::empty());
        assert(drive(s, outs).skipped =~= s.skipped + failed_parents(ps, outs));
    } else {
        let s2 = after_pause(s1);
        assert(s1.pause_due);
        assert(drive(s, outs) == drive(s2, rest));
        lemma_fan_out_order_and_pacing(s2, rest);
        assert(s.rows + gathered(s.schema, outs, s.cols) =~= s.rows + part + gathered(
            s.schema,
            rest,
            s.cols,
        ));
        assert(drive(s, outs).skipped =~= s.skipped + failed_parents(ps, outs));
    }
}

/// Gathering over two runs of parents is gathering over each in turn.
pub proof fn lemma_gathered_concat(
    schema: ObjectSchema,
    a: Seq<Option<JsonV>>,
    b: Seq<Option<JsonV>>,
    cols: Seq<Seq<char>>,
)
    ensures
        gathered(schema, a + b, cols) == gathered(schema, a, cols) + gathered(schema, b, cols),
    decreases a.len(),
{
    if a.len() == 0 {
        assert(a + b =~= b);
        assert(gathered(schema, a, cols) + gathered(schema, b, cols) =~= gathered(schema, b, cols));
    } else {
        assert((a + b).drop_first() =~= a.drop_first() + b);
        lemma_gathered_concat(schema, a.drop_first(), b, cols);
        let part = match a[0] {
            Some(doc) => materialized(schema, doc, cols),
            None => Seq::<RowV>::empty(),
        };
        assert(part + (gathered(schema, a.drop_first(), cols) + gathered(schema, b, cols)) =~= (part
            + gathered(schema, a.drop_first(), cols)) + gathered(schema, b, cols));
    }
}

/// A parent whose child request failed costs only its own rows: the rows of
/// every other parent are still gathered, in order.
pub proof fn lemma_failed_parent_isolated(
    schema: ObjectSchema,
    outs: Seq<Option<JsonV>>,
    cols: Seq<Seq<char>>,
    k: int,
)
    requires
        0 <= k < outs.len(),
        outs[k] is None,
    ensures
        gathered(schema, outs, cols) == gathered(schema, outs.take(k), cols) + gathered(
            schema,
            outs.skip(k + 1),
            cols,
        ),
{
    let one = seq![outs[k]];
    assert(outs =~= outs.take(k) + (one + outs.skip(k + 1)));
    lemma_gathered_concat(schema, outs.take(k), one + outs.skip(k + 1), cols);
    lemma_gathered_concat(schema, one, outs.skip(k + 1), cols);
    assert(one.drop_first() =~= Seq::<Option<JsonV>>::empty());
    assert(gathered(schema, one.drop_first(), cols) == Seq::<RowV>::empty());
    assert(gathered(schema, one, cols) =~= Seq::<RowV>::empty());
    assert(gathered(schema, one + outs.skip(k + 1), cols) =~= gathered(schema, outs.skip(k + 1), cols));
}

proof fn lemma_failed_parents_contains(ps: Seq<Seq<char>>, outs: Seq<Option<JsonV>>, k: int)
    requires
        0 <= k < outs.len(),
        k < ps.len(),
        outs[k] is None,
    ensures
        failed_parents(ps, outs).contains(ps[k]),
    decreases k,
{
    if k == 0 {
        assert(failed_parents(ps, outs)[0] == ps[0]);
    } else {
        lemma_failed_parents_contains(ps.drop_first(), outs.drop_first(), k - 1);
        let rest = failed_parents(ps.drop_first(), outs.drop_first());
        let j = choose|j: int| 0 <= j < rest.len() && rest[j] == ps[k];
        if outs[0] is None {
            assert((seq![ps[0]] + rest)[j + 1] == ps[k]);
        }
    }
}

/// From a scan as `begin_scan` returns it, for an object gathered per
/// parent: when the parent list gives N >= 1 parents and their child
/// requests, made in parent order, give `outs`, the scan ends with the child
/// rows in parent-then-child order and has paused exactly N - 1 times.
pub proof fn lemma_scan_gathers_in_parent_order(s: ScanV, doc: JsonV, outs: Seq<Option<JsonV>>)
    requires
        s.phase == Phase::Primary,
        s.rows.len() == 0,
        s.pauses == 0,
        s.skipped.len() == 0,
        !rows_at_once(s),
        outs.len() == after_primary(s, Some(doc)).parents.len(),
        outs.len() > 0,
    ensures
        drive(after_primary(s, Some(doc)), outs).rows == gathered(s.schema, outs, s.cols),
        drive(after_primary(s, Some(doc)), outs).pauses == outs.len() - 1,
        drive(after_primary(s, Some(doc)), outs).phase == Phase::Done,
        drive(after_primary(s, Some(doc)), outs).next == outs.len(),
{
    let s1 = after_primary(s, Some(doc));
    lemma_fan_out_order_and_pacing(s1, outs);
    assert(s1.rows + gathered(s.schema, outs, s.cols) =~= gathered(s.schema, outs, s.cols));
}

/// From a scan as `begin_scan` returns it, for an object gathered per
/// parent: when the child request of parent `k` fails, the scan still ends
/// with every other parent's rows, in order, and records parent `k` as
/// skipped.
pub proof fn lemma_scan_isolates_failed_parent(
    s: ScanV,
    doc: JsonV,
    outs: Seq<Option<JsonV>>,
    k: int,
)
    requires
        s.phase == Phase::Primary,
        s.rows.len() == 0,
        s.pauses == 0,
        s.skipped.len() == 0,
        !rows_at_once(s),
        outs.len() == after_primary(s, Some(doc)).parents.len(),
        0 <= k < outs.len(),
        outs[k] is None,
    ensures
        drive(after_primary(s, Some(doc)), outs).rows == gathered(s.schema, outs.take(k), s.cols)
            + gathered(s.schema, outs.skip(k + 1), s.cols),
        drive(after_primary(s, Some(doc)), outs).skipped.contains(
            after_primary(s, Some(doc)).parents[k],
        ),
{
    let s1 = after_primary(s, Some(doc));
    lemma_scan_gathers_in_parent_order(s, doc, outs);
    lemma_fan_out_order_and_pacing(s1, outs);
    lemma_failed_parent_isolated(s.schema, outs, s.cols, k);
    let ps = s1.parents.subrange(0, s1.parents.len() as int);
    assert(ps =~= s1.parents);
    lemma_failed_parents_contains(s1.parents, outs, k);
    assert(s1.skipped + failed_parents(ps, outs) =~= failed_parents(s1.parents, outs));
}

} // verus!
