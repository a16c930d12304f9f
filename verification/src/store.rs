//! The entity-graph store and the fetch orchestration around it.
//!
//! The store is the shared snapshot of "the world as last observed": a
//! mapping from entity identifier to its query row, a download status flag,
//! the query descriptor produced by discovery, and the last error. A
//! successful fetch replaces the snapshot wholesale; every failure keeps
//! the previous snapshot and overwrites the error. The surrounding
//! application holds the store behind a mutex and calls one transition per
//! completion callback.

use vstd::prelude::*;

use crate::codec::{spec_parse, Codec, Envelope};
use crate::decode::{QueryRow, RowModel};
use crate::error::{spec_describe, ClientError, ErrorModel};
use crate::value::{spec_obj_get, Value};

verus! {

/// The mapping a sequence of rows denotes: keyed by entity, and when the
/// same entity appears twice the later row wins.
pub open spec fn map_of(rows: Seq<RowModel>) -> Map<u64, RowModel>
    decreases rows.len(),
{
    if rows.len() == 0 {
        Map::empty()
    } else {
        map_of(rows.drop_last()).insert(rows.last().entity, rows.last())
    }
}

/// The mapping a row sequence denotes has finitely many keys.
pub proof fn lemma_map_of_finite(rows: Seq<RowModel>)
    ensures
        map_of(rows).dom().finite(),
    decreases rows.len(),
{
    if rows.len() > 0 {
        lemma_map_of_finite(rows.drop_last());
    }
}

/// The snapshot of one completed fetch: the decoded rows, in response
/// order, read as a mapping from entity identifier to row.
#[derive(Debug, PartialEq, Eq)]
pub struct Snapshot {
    /// The rows exactly as decoded from the response.
    pub rows: Vec<QueryRow>,
}

impl View for Snapshot {
    type V = Map<u64, RowModel>;

    open spec fn view(&self) -> Map<u64, RowModel> {
        map_of(self.models())
    }
}

impl Snapshot {
    /// The rows' spec-level models, in response order.
    pub open spec fn models(&self) -> Seq<RowModel> {
        self.rows@.map_values(|q: QueryRow| q@)
    }

    /// A snapshot of no entities at all.
    pub fn empty() -> (s: Snapshot)
        ensures
            s.rows@.len() == 0,
            s@ == Map::<u64, RowModel>::empty(),
    {
        Snapshot { rows: Vec::new() }
    }

    /// The row of one entity: the last row carrying that identifier, as the
    /// mapping reads it.
    #[verifier::loop_isolation(false)]
    pub fn get(&self, id: u64) -> (r: Option<&QueryRow>)
        ensures
            match r {
                Some(q) => self@.contains_key(id) && q@ == self@[id],
                None => !self@.contains_key(id),
            },
    {
        let ghost full = self.models();
        proof {
            assert(full.subrange(0, full.len() as int) =~= full);
        }
        let mut i = self.rows.len();
        while i > 0
            invariant
                i <= self.rows.len(),
                map_of(full.subrange(0, i as int)).contains_key(id) == self@.contains_key(id),
                map_of(full.subrange(0, i as int)).contains_key(id) ==> map_of(
                    full.subrange(0, i as int),
                )[id] == self@[id],
            decreases i,
        {
            i = i - 1;
            proof {
                assert(full.subrange(0, i + 1).drop_last() =~= full.subrange(0, i as int));
                assert(full.subrange(0, i + 1).last() == full[i as int]);
            }
            if self.rows[i].entity == id {
                return Some(&self.rows[i]);
            }
        }
        proof {
            assert(full.subrange(0, 0) =~= Seq::<RowModel>::empty());
        }
        None
    }
}

/// Where the one in-flight request stands, as the interface gates on it.
#[derive(Debug, PartialEq, Eq)]
pub enum DownloadStatus {
    /// No request has been dispatched yet.
    Idle,
    /// A request was dispatched and its completion has not fired.
    InProgress,
    /// The last completion has fired, successfully or not.
    Done,
}

/// Which component data every fetch asks the remote for. Discovery fills
/// `optional` with every known component type name; the other lists stay
/// empty, so no entity is excluded from the query.
#[derive(Clone, Debug, PartialEq, Eq)]
pub struct QueryDescriptor {
    /// Component types an entity must have, fetched strictly.
    pub components: Vec<String>,
    /// Component types fetched when present (wire name: `option`).
    pub optional: Vec<String>,
    /// Component types checked for presence only.
    pub has: Vec<String>,
    /// Filter: component types an entity must have to be listed.
    pub filter_with: Vec<String>,
    /// Filter: component types an entity must not have to be listed.
    pub filter_without: Vec<String>,
}

/// The store: snapshot, status, descriptor and last error, mutated only by
/// the transitions below.
#[derive(Debug)]
pub struct Store {
    /// The last successfully fetched snapshot.
    pub snapshot: Snapshot,
    /// Where the in-flight request stands.
    pub status: DownloadStatus,
    /// The query built from discovery; set once, then reused per fetch.
    pub descriptor: Option<QueryDescriptor>,
    /// The last completion's diagnostic; cleared by every success.
    pub error: Option<String>,
}

/// What a discovery completion decodes to, as a function of the response
/// document alone.
pub open spec fn spec_discovery_outcome(body: Option<Value>) -> Result<Seq<String>, ErrorModel> {
    match spec_parse(body) {
        Err(e) => Err(e),
        Ok(payload) => match crate::decode::spec_type_list(payload) {
            Some(names) => Ok(names),
            None => Err(ErrorModel::Decode("expected an array of component type names"@)),
        },
    }
}

/// What a fetch completion decodes to, as a function of the response
/// document alone.
pub open spec fn spec_fetch_outcome(body: Option<Value>) -> Result<Seq<RowModel>, ErrorModel> {
    match spec_parse(body) {
        Err(e) => Err(e),
        Ok(payload) => match crate::decode::spec_rows(payload) {
            Some(rows) => Ok(rows),
            None => Err(ErrorModel::Decode("expected an array of query rows"@)),
        },
    }
}

/// What the presentation layer shows this frame.
pub enum ViewState<'a> {
    /// The last operation failed: show its diagnostic, whatever the
    /// snapshot holds.
    Error(&'a String),
    /// Nothing fetched yet and nothing wrong: prompt to fetch.
    Empty,
    /// Show the snapshot's entity forest.
    Populated(&'a Snapshot),
}

impl Store {
    /// The state before anything was fetched.
    pub fn new() -> (s: Store)
        ensures
            s.snapshot.rows@.len() == 0,
            s.status is Idle,
            s.descriptor is None,
            s.error is None,
    {
        Store {
            snapshot: Snapshot::empty(),
            status: DownloadStatus::Idle,
            descriptor: None,
            error: None,
        }
    }

    /// Whether discovery should fire this tick: no descriptor exists yet
    /// and no request is in flight.
    pub fn should_discover(&self) -> (r: bool)
        ensures
            r == (self.descriptor is None && !(self.status is InProgress)),
    {
        let in_progress = matches!(self.status, DownloadStatus::InProgress);
        self.descriptor.is_none() && !in_progress
    }

    /// Whether a fetch may be issued: discovery has produced a descriptor
    /// and no request is in flight.
    pub fn can_fetch(&self) -> (r: bool)
        ensures
            r == (self.descriptor is Some && !(self.status is InProgress)),
    {
        let in_progress = matches!(self.status, DownloadStatus::InProgress);
        self.descriptor.is_some() && !in_progress
    }

    /// Mark a request as dispatched. Nothing else changes.
    pub fn begin_request(&mut self)
        ensures
            final(self).status is InProgress,
            final(self).snapshot == old(self).snapshot,
            final(self).descriptor == old(self).descriptor,
            final(self).error == old(self).error,
    {
        self.status = DownloadStatus::InProgress;
    }

    /// A completion whose transport failed outright (connection error or a
    /// non-success HTTP status): record the diagnostic, keep everything
    /// else.
    pub fn fail_request(&mut self, diagnostic: String)
        ensures
            final(self).status is Done,
            final(self).snapshot == old(self).snapshot,
            final(self).descriptor == old(self).descriptor,
            final(self).error matches Some(s) && s@ == spec_describe(
                ErrorModel::Transport(diagnostic@),
            ),
    {
        self.status = DownloadStatus::Done;
        self.error = Some(ClientError::Transport(diagnostic).describe());
    }

    /// Apply a discovery completion: on success the descriptor asks for
    /// every discovered type name — an empty discovery still yields a
    /// usable, trivial descriptor — and the error clears; on failure the
    /// descriptor is left as it was and the error records the failure.
    /// The snapshot is never touched.
    pub fn complete_discovery(&mut self, body: Option<Value>)
        ensures
            final(self).status is Done,
            final(self).snapshot == old(self).snapshot,
            match spec_discovery_outcome(body) {
                Ok(names) => {
                    &&& final(self).descriptor matches Some(d) && d.components@.len() == 0
                        && d.optional@ == names && d.has@.len() == 0 && d.filter_with@.len() == 0
                        && d.filter_without@.len() == 0
                    &&& final(self).error is None
                },
                Err(e) => {
                    &&& final(self).descriptor == old(self).descriptor
                    &&& final(self).error matches Some(s) && s@ == spec_describe(e)
                },
            },
    {
        self.status = DownloadStatus::Done;
        let outcome = match crate::codec::parse(body) {
            Ok(payload) => crate::decode::decode_type_list(payload),
            Err(e) => Err(e),
        };
        match outcome {
            Ok(names) => {
                self.descriptor = Some(
                    QueryDescriptor {
                        components: Vec::new(),
                        optional: names,
                        has: Vec::new(),
                        filter_with: Vec::new(),
                        filter_without: Vec::new(),
                    },
                );
                self.error = None;
            },
            Err(e) => {
                self.error = Some(e.describe());
            },
        }
    }

    /// Apply a fetch completion: on success the snapshot is replaced
    /// wholesale by the decoded rows — never merged with its predecessor —
    /// and the error clears; on failure the previous snapshot stays and the
    /// error records the failure. The descriptor is never touched.
    pub fn complete_fetch(&mut self, body: Option<Value>)
        ensures
            final(self).status is Done,
            final(self).descriptor == old(self).descriptor,
            match spec_fetch_outcome(body) {
                Ok(rows) => {
                    &&& final(self).snapshot.models() == rows
                    &&& final(self).snapshot@ == map_of(rows)
                    &&& final(self).error is None
                },
                Err(e) => {
                    &&& final(self).snapshot == old(self).snapshot
                    &&& final(self).error matches Some(s) && s@ == spec_describe(e)
                },
            },
    {
        self.status = DownloadStatus::Done;
        let outcome = match crate::codec::parse(body) {
            Ok(payload) => crate::decode::decode_rows(payload),
            Err(e) => Err(e),
        };
        match outcome {
            Ok(rows) => {
                self.snapshot = Snapshot { rows };
                self.error = None;
            },
            Err(e) => {
                self.error = Some(e.describe());
            },
        }
    }

    /// Apply a destroy completion. Only the status moves: the snapshot is
    /// not patched locally — whether the entity is really gone is the next
    /// fetch's to report.
    pub fn complete_destroy(&mut self)
        ensures
            final(self).status is Done,
            final(self).snapshot == old(self).snapshot,
            final(self).descriptor == old(self).descriptor,
            final(self).error == old(self).error,
    {
        self.status = DownloadStatus::Done;
    }

    /// What to show this frame. A recorded error takes precedence over the
    /// empty-snapshot prompt, even when the snapshot is also empty.
    pub fn view_state(&self) -> (v: ViewState)
        ensures
            match v {
                ViewState::Error(s) => self.error matches Some(m) && *s == m,
                ViewState::Empty => self.error is None && self.snapshot.rows@.len() == 0,
                ViewState::Populated(sn) => self.error is None && self.snapshot.rows@.len() > 0
                    && *sn == self.snapshot,
            },
    {
        match &self.error {
            Some(m) => ViewState::Error(m),
            None => {
                if self.snapshot.rows.len() == 0 {
                    ViewState::Empty
                } else {
                    ViewState::Populated(&self.snapshot)
                }
            },
        }
    }
}

/// Whether `v` is the array of exactly these strings, in order.
pub open spec fn is_string_array(v: Value, names: Seq<String>) -> bool {
    &&& v is Arr
    &&& v->Arr_0@.len() == names.len()
    &&& forall|i: int| 0 <= i < names.len() ==> v->Arr_0@[i] == Value::Str(names[i])
}

/// Whether `p` is the parameter object a fetch sends for descriptor `d`:
/// `{"data": {"components": [...], "option": [...], "has": [...]},
///   "filter": {"with": [...], "without": [...]}}`.
pub open spec fn params_match_descriptor(p: Value, d: QueryDescriptor) -> bool {
    &&& p is Obj
    &&& spec_obj_get(p->Obj_0@, "data"@) matches Some(data) && data is Obj && {
        &&& spec_obj_get(data->Obj_0@, "components"@) matches Some(c) && is_string_array(
            c,
            d.components@,
        )
        &&& spec_obj_get(data->Obj_0@, "option"@) matches Some(o) && is_string_array(
            o,
            d.optional@,
        )
        &&& spec_obj_get(data->Obj_0@, "has"@) matches Some(h) && is_string_array(h, d.has@)
    }
    &&& spec_obj_get(p->Obj_0@, "filter"@) matches Some(f) && f is Obj && {
        &&& spec_obj_get(f->Obj_0@, "with"@) matches Some(w) && is_string_array(w, d.filter_with@)
        &&& spec_obj_get(f->Obj_0@, "without"@) matches Some(wo) && is_string_array(
            wo,
            d.filter_without@,
        )
    }
}

/// Whether `p` is the parameter object a destroy sends: `{"entity": id}`.
pub open spec fn params_match_destroy(p: Value, entity: u64) -> bool {
    &&& p is Obj
    &&& p->Obj_0@.len() == 1
    &&& p->Obj_0@[0].0@ == "entity"@
    &&& p->Obj_0@[0].1 == Value::UInt(entity)
}

/// The strings of `names`, each wrapped as a string value.
fn string_values(names: &Vec<String>) -> (r: Vec<Value>)
    ensures
        r@.len() == names@.len(),
        forall|i: int| 0 <= i < names@.len() ==> r@[i] == Value::Str(names@[i]),
{
    let mut r: Vec<Value> = Vec::new();
    let n = names.len();
    for i in 0..n
        invariant
            n == names.len(),
            r@.len() == i,
            forall|j: int| 0 <= j < i ==> r@[j] == Value::Str(names@[j]),
    {
        r.push(Value::Str(names[i].clone()));
    }
    r
}

/// The discovery request: "list all component types", no parameters.
pub fn discovery_request(codec: &mut Codec) -> (e: Envelope)
    requires
        old(codec)@ < u64::MAX,
    ensures
        final(codec)@ == old(codec)@ + 1,
        e.id == old(codec)@,
        e.method@ == "bevy/list"@,
        e.params is None,
        e.jsonrpc@ == "2.0"@,
{
    codec.create_request(crate::codec::list_method(), None)
}

/// The fetch request: "query entities", parameterized by the descriptor.
pub fn fetch_request(codec: &mut Codec, d: &QueryDescriptor) -> (e: Envelope)
    requires
        old(codec)@ < u64::MAX,
    ensures
        final(codec)@ == old(codec)@ + 1,
        e.id == old(codec)@,
        e.method@ == "bevy/query"@,
        e.params matches Some(p) && params_match_descriptor(p, *d),
        e.jsonrpc@ == "2.0"@,
{
    let data = Value::Obj(
        vec![
            ("components".to_owned(), Value::Arr(string_values(&d.components))),
            ("option".to_owned(), Value::Arr(string_values(&d.optional))),
            ("has".to_owned(), Value::Arr(string_values(&d.has))),
        ],
    );
    let ghost gdata = data;
    let filter = Value::Obj(
        vec![
            ("with".to_owned(), Value::Arr(string_values(&d.filter_with))),
            ("without".to_owned(), Value::Arr(string_values(&d.filter_without))),
        ],
    );
    let ghost gfilter = filter;
    let params = Value::Obj(vec![("data".to_owned(), data), ("filter".to_owned(), filter)]);
    proof {
        reveal_strlit("data");
        reveal_strlit("filter");
        reveal_strlit("components");
        reveal_strlit("option");
        reveal_strlit("has");
        reveal_strlit("with");
        reveal_strlit("without");
        assert("data"@.len() == 4 && "filter"@.len() == 6);
        assert("components"@.len() == 10 && "option"@.len() == 6 && "has"@.len() == 3);
        assert("with"@.len() == 4 && "without"@.len() == 7);
        crate::value::lemma_obj_get_found(params->Obj_0@, "data"@, 0);
        crate::value::lemma_obj_get_found(params->Obj_0@, "filter"@, 1);
        crate::value::lemma_obj_get_found(gdata->Obj_0@, "components"@, 0);
        crate::value::lemma_obj_get_found(gdata->Obj_0@, "option"@, 1);
        crate::value::lemma_obj_get_found(gdata->Obj_0@, "has"@, 2);
        crate::value::lemma_obj_get_found(gfilter->Obj_0@, "with"@, 0);
        crate::value::lemma_obj_get_found(gfilter->Obj_0@, "without"@, 1);
        assert(params_match_descriptor(params, *d));
    }
    codec.create_request(crate::codec::query_method(), Some(params))
}

/// The destroy request: "destroy entity", carrying the target identifier.
pub fn destroy_request(codec: &mut Codec, entity: u64) -> (e: Envelope)
    requires
        old(codec)@ < u64::MAX,
    ensures
        final(codec)@ == old(codec)@ + 1,
        e.id == old(codec)@,
        e.method@ == "bevy/destroy"@,
        e.params matches Some(p) && params_match_destroy(p, entity),
        e.jsonrpc@ == "2.0"@,
{
    let params = Value::Obj(vec![("entity".to_owned(), Value::UInt(entity))]);
    codec.create_request(crate::codec::destroy_method(), Some(params))
}

/// What the user asked for on one rendered entity.
#[derive(PartialEq, Eq, PartialOrd, Ord, Debug, Default)]
pub enum ActionToDo {
    /// Nothing: the entity was only looked at.
    #[default]
    Nothing,
    /// Remove this entity from the simulation.
    Remove,
}

/// The request a user action on `entity` calls for: a destroy request for
/// a removal, nothing otherwise. Issuing a destroy never touches the
/// snapshot: whether the entity is really gone is the next fetch's to say.
pub fn action_request(codec: &mut Codec, action: &ActionToDo, entity: u64) -> (r: Option<Envelope>)
    requires
        old(codec)@ < u64::MAX,
    ensures
        match r {
            None => *action is Nothing && final(codec)@ == old(codec)@,
            Some(e) => {
                &&& *action is Remove
                &&& final(codec)@ == old(codec)@ + 1
                &&& e.id == old(codec)@
                &&& e.method@ == "bevy/destroy"@
                &&& e.params matches Some(p) && params_match_destroy(p, entity)
            },
        },
{
    match action {
        ActionToDo::Nothing => None,
        ActionToDo::Remove => Some(destroy_request(codec, entity)),
    }
}

} // verus!
