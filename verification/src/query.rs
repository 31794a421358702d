//! Query execution: the request that carries a set of named queries, and the
//! demultiplexing of the response stream into rows per query name.

use crate::error::APIClientError;
use crate::json::{decode_rows, json_rows};
use crate::text::{same_text, starts_with, texts};
use vstd::prelude::*;
use vstd::string::*;

verus! {

/// The texts of a list of key/value pairs.
pub open spec fn pairs(env: Seq<(String, String)>) -> Seq<(Seq<char>, Seq<char>)> {
    Seq::new(env.len(), |i: int| (env[i].0@, env[i].1@))
}

/// A copy of a list of key/value pairs.
pub fn clone_pairs(env: &Vec<(String, String)>) -> (r: Vec<(String, String)>)
    ensures
        r@ == env@,
{
    let mut out: Vec<(String, String)> = Vec::new();
    let mut i: usize = 0;
    while i < env.len()
        invariant
            i <= env.len(),
            out@ == env@.take(i as int),
        decreases env.len() - i,
    {
        let pair = (env[i].0.clone(), env[i].1.clone());
        out.push(pair);
        assert(out@ =~= env@.take(i + 1));
        i = i + 1;
    }
    assert(env@.take(env@.len() as int) =~= env@);
    out
}

/// How many rows the service is asked to send per batch unless told otherwise.
pub const DEFAULT_MAX_ROW: u64 = 10;

/// What accompanies a query: environment pairs, organization and batch size.
#[derive(Debug)]
pub struct QueryOptions {
    env: Vec<(String, String)>,
    org_id: Option<String>,
    max_row: u64,
}

/// Collects the settings of a `QueryOptions`; what is not set keeps its
/// default.
pub struct QueryOptionsBuilder {
    options: QueryOptions,
}

impl QueryOptions {
    /// The environment pairs, in the order in which they are sent.
    pub closed spec fn env_view(&self) -> Seq<(Seq<char>, Seq<char>)> {
        pairs(self.env@)
    }

    /// The organization, `None` for the root organization.
    pub closed spec fn org_view(&self) -> Option<Seq<char>> {
        match self.org_id {
            Some(org) => Some(org@),
            None => None,
        }
    }

    /// The number of rows per batch.
    pub closed spec fn max_row_view(&self) -> u64 {
        self.max_row
    }

    /// A builder in which every setting has its default: no environment, the
    /// root organization, ten rows per batch.
    pub fn builder() -> (r: QueryOptionsBuilder)
        ensures
            r.options().env_view() == Seq::<(Seq<char>, Seq<char>)>::empty(),
            r.options().org_view() == None::<Seq<char>>,
            r.options().max_row_view() == DEFAULT_MAX_ROW,
    {
        let r = QueryOptionsBuilder {
            options: QueryOptions { env: Vec::new(), org_id: None, max_row: DEFAULT_MAX_ROW },
        };
        assert(r.options.env_view() =~= Seq::empty());
        r
    }

    pub fn env(&self) -> (r: &Vec<(String, String)>)
        ensures
            pairs(r@) == self.env_view(),
    {
        &self.env
    }

    pub fn org_id(&self) -> (r: &Option<String>)
        ensures
            r is Some <==> self.org_view() is Some,
            r is Some ==> r->Some_0@ == self.org_view()->Some_0,
    {
        &self.org_id
    }

    pub fn max_row(&self) -> (r: u64)
        ensures
            r == self.max_row_view(),
    {
        self.max_row
    }
}

impl QueryOptionsBuilder {
    /// The options as they stand.
    pub closed spec fn options(&self) -> QueryOptions {
        self.options
    }

    /// Replaces the environment pairs; duplicate keys are kept.
    pub fn env(self, env: Vec<(String, String)>) -> (r: Self)
        ensures
            r.options().env_view() == pairs(env@),
            r.options().org_view() == self.options().org_view(),
            r.options().max_row_view() == self.options().max_row_view(),
    {
        QueryOptionsBuilder {
            options: QueryOptions { env, org_id: self.options.org_id, max_row: self.options.max_row },
        }
    }

    /// Sets the organization; `None` stands for the root organization.
    pub fn org_id(self, org_id: Option<String>) -> (r: Self)
        ensures
            r.options().env_view() == self.options().env_view(),
            org_id is Some <==> r.options().org_view() is Some,
            org_id is Some ==> r.options().org_view() == Some(org_id->Some_0@),
            r.options().max_row_view() == self.options().max_row_view(),
    {
        QueryOptionsBuilder {
            options: QueryOptions { env: self.options.env, org_id, max_row: self.options.max_row },
        }
    }

    /// Sets the number of rows per batch.
    pub fn max_row(self, max_row: u64) -> (r: Self)
        ensures
            r.options().env_view() == self.options().env_view(),
            r.options().org_view() == self.options().org_view(),
            r.options().max_row_view() == max_row,
    {
        QueryOptionsBuilder {
            options: QueryOptions { env: self.options.env, org_id: self.options.org_id, max_row },
        }
    }

    pub fn build(self) -> (r: QueryOptions)
        ensures
            r == self.options(),
    {
        self.options
    }
}

/// One query of a request: a label chosen by the caller, and the query text.
#[derive(Debug)]
pub struct Query {
    pub name: String,
    pub vql: String,
}

/// The texts of a list of queries, as (name, query text).
pub open spec fn query_texts(queries: Seq<Query>) -> Seq<(Seq<char>, Seq<char>)> {
    Seq::new(queries.len(), |i: int| (queries[i].name@, queries[i].vql@))
}

/// One streaming call: everything the service is sent.
#[derive(Debug)]
pub struct QueryRequest {
    pub env: Vec<(String, String)>,
    pub org_id: String,
    pub max_row: u64,
    pub query: Vec<Query>,
}

/// What a streaming call carries, as plain texts.
pub struct RequestView {
    pub env: Seq<(Seq<char>, Seq<char>)>,
    pub org_id: Seq<char>,
    pub max_row: u64,
    pub query: Seq<(Seq<char>, Seq<char>)>,
}

impl View for QueryRequest {
    type V = RequestView;

    open spec fn view(&self) -> RequestView {
        RequestView {
            env: pairs(self.env@),
            org_id: self.org_id@,
            max_row: self.max_row,
            query: query_texts(self.query@),
        }
    }
}

/// The organization text that is sent: empty for the root organization.
pub open spec fn org_text(org: Option<Seq<char>>) -> Seq<char> {
    match org {
        Some(text) => text,
        None => Seq::empty(),
    }
}

impl QueryRequest {
    /// The call that submits `queries` together under `options`.
    pub fn new(queries: Vec<Query>, options: &QueryOptions) -> (r: QueryRequest)
        ensures
            r@.env == options.env_view(),
            r@.org_id == org_text(options.org_view()),
            r@.max_row == options.max_row_view(),
            r@.query == query_texts(queries@),
    {
        let org_id = match options.org_id() {
            Some(org) => org.clone(),
            None => String::new(),
        };
        QueryRequest {
            env: clone_pairs(options.env()),
            org_id,
            max_row: options.max_row(),
            query: queries,
        }
    }
}

/// One message of the response stream.  A field that the service left out is
/// empty.
#[derive(Debug)]
pub struct ResponseMessage {
    /// The name of the query that the row batch belongs to.
    pub query_name: String,
    /// The row batch: a JSON array of rows, or empty.
    pub response: String,
    /// A log line, or empty.
    pub log: String,
}

/// A message of the response stream, as plain texts.
pub struct MessageView {
    pub name: Seq<char>,
    pub response: Seq<char>,
    pub log: Seq<char>,
}

impl View for ResponseMessage {
    type V = MessageView;

    open spec fn view(&self) -> MessageView {
        MessageView { name: self.query_name@, response: self.response@, log: self.log@ }
    }
}

/// The views of a list of messages.
pub open spec fn message_views(messages: Seq<ResponseMessage>) -> Seq<MessageView> {
    Seq::new(messages.len(), |i: int| messages[i]@)
}

/// The prefix by which the service marks a log line as a query failure.
pub open spec fn error_sentinel() -> Seq<char> {
    "VQL Error:"@
}

/// The message carries a row batch that does not decode.
pub open spec fn undecodable(m: MessageView) -> bool {
    m.response.len() > 0 && json_rows(m.response) is None
}

/// The message carries a row batch that decodes.
pub open spec fn carries_rows(m: MessageView) -> bool {
    m.response.len() > 0 && json_rows(m.response) is Some
}

/// The message's log line says that the query failed.
pub open spec fn reports_error(m: MessageView) -> bool {
    error_sentinel().is_prefix_of(m.log)
}

/// The message ends the call with an error.
pub open spec fn fails(m: MessageView) -> bool {
    undecodable(m) || reports_error(m)
}

/// Rows per query name, in order of first appearance.
pub type Table = Seq<(Seq<char>, Seq<Seq<char>>)>;

/// No name occurs twice.
pub open spec fn distinct_names(t: Table) -> bool {
    forall|i: int, j: int| 0 <= i < j < t.len() ==> (#[trigger] t[i]).0 != (#[trigger] t[j]).0
}

/// The table has an entry for `name`.
pub open spec fn has_name(t: Table, name: Seq<char>) -> bool {
    exists|i: int| 0 <= i < t.len() && (#[trigger] t[i]).0 == name
}

/// Where the entry for `name` stands, if there is one.
pub open spec fn index_of(t: Table, name: Seq<char>) -> int {
    choose|i: int| 0 <= i < t.len() && (#[trigger] t[i]).0 == name
}

/// The rows collected for `name`; none where the table has no such entry.
pub open spec fn rows_of(t: Table, name: Seq<char>) -> Seq<Seq<char>> {
    if has_name(t, name) {
        t[index_of(t, name)].1
    } else {
        Seq::empty()
    }
}

/// The table after `rows` arrived for `name`: appended to that name's rows,
/// or a new last entry where the name is seen for the first time.
pub open spec fn with_rows(t: Table, name: Seq<char>, rows: Seq<Seq<char>>) -> Table {
    if has_name(t, name) {
        let i = index_of(t, name);
        t.update(i, (name, t[i].1 + rows))
    } else {
        t.push((name, rows))
    }
}

/// The table after a message that does not fail to decode.
pub open spec fn after_message(t: Table, m: MessageView) -> Table {
    if carries_rows(m) {
        with_rows(t, m.name, json_rows(m.response)->Some_0)
    } else {
        t
    }
}

/// The table after all of `messages`, taken in order.
pub open spec fn accumulate(messages: Seq<MessageView>) -> Table
    decreases messages.len(),
{
    if messages.len() == 0 {
        Seq::empty()
    } else {
        after_message(accumulate(messages.drop_last()), messages.last())
    }
}

/// The rows of every batch sent for `name`, concatenated in arrival order.
pub open spec fn batches_for(messages: Seq<MessageView>, name: Seq<char>) -> Seq<Seq<char>>
    decreases messages.len(),
{
    if messages.len() == 0 {
        Seq::empty()
    } else {
        let earlier = batches_for(messages.drop_last(), name);
        let m = messages.last();
        if carries_rows(m) && m.name == name {
            earlier + json_rows(m.response)->Some_0
        } else {
            earlier
        }
    }
}

/// Some message carries a row batch for `name`.
pub open spec fn answered(messages: Seq<MessageView>, name: Seq<char>) -> bool {
    exists|i: int| 0 <= i < messages.len() && carries_rows(#[trigger] messages[i]) && messages[i].name == name
}

#[derive(Debug)]
struct Entry {
    name: String,
    rows: Vec<String>,
}

spec fn table_of(entries: Seq<Entry>) -> Table {
    Seq::new(entries.len(), |i: int| (entries[i].name@, texts(entries[i].rows@)))
}

/// The rows received so far, per query name.
#[derive(Debug)]
pub struct QueryResultSet {
    entries: Vec<Entry>,
}

impl View for QueryResultSet {
    type V = Table;

    closed spec fn view(&self) -> Table {
        table_of(self.entries@)
    }
}

impl QueryResultSet {
    #[verifier::type_invariant]
    spec fn names_once(&self) -> bool {
        distinct_names(self@)
    }

    /// The result of a call before any message arrived.
    pub fn new() -> (r: QueryResultSet)
        ensures
            r@ == Seq::<(Seq<char>, Seq<Seq<char>>)>::empty(),
    {
        let r = QueryResultSet { entries: Vec::new() };
        assert(r@ =~= Seq::empty());
        r
    }

    /// The number of names.
    pub fn len(&self) -> (r: usize)
        ensures
            r == self@.len(),
            distinct_names(self@),
    {
        proof {
            use_type_invariant(self);
        }
        self.entries.len()
    }

    /// The name of the entry at `i`, counted by first appearance.
    pub fn name_at(&self, i: usize) -> (r: &String)
        requires
            i < self@.len(),
        ensures
            r@ == self@[i as int].0,
    {
        &self.entries[i].name
    }

    /// The rows of the entry at `i`, in arrival order.
    pub fn rows_at(&self, i: usize) -> (r: &Vec<String>)
        requires
            i < self@.len(),
        ensures
            texts(r@) == self@[i as int].1,
    {
        &self.entries[i].rows
    }

    /// Where the entry for `name` stands.
    pub fn find(&self, name: &str) -> (r: Option<usize>)
        ensures
            r is Some <==> has_name(self@, name@),
            r is Some ==> r->Some_0 < self@.len() && self@[r->Some_0 as int].0 == name@,
    {
        let mut i: usize = 0;
        while i < self.entries.len()
            invariant
                i <= self.entries@.len(),
                forall|j: int| 0 <= j < i ==> (#[trigger] self@[j]).0 != name@,
            decreases self.entries@.len() - i,
        {
            if same_text(self.entries[i].name.as_str(), name) {
                assert(self@[i as int].0 == name@);
                return Some(i);
            }
            i = i + 1;
        }
        None
    }

    /// The rows collected for `name`, in arrival order; `None` where no batch
    /// came for it.
    pub fn rows(&self, name: &str) -> (r: Option<&Vec<String>>)
        ensures
            r is Some <==> has_name(self@, name@),
            r is Some ==> texts(r->Some_0@) == rows_of(self@, name@),
    {
        proof {
            use_type_invariant(self);
        }
        match self.find(name) {
            Some(i) => {
                assert(self@[i as int].0 == name@);
                Some(&self.entries[i].rows)
            },
            None => None,
        }
    }

    /// Takes in the decoded rows of one batch sent for `name`.
    pub fn add_rows(&mut self, name: &str, rows: Vec<String>)
        ensures
            final(self)@ == with_rows(old(self)@, name@, texts(rows@)),
            distinct_names(final(self)@),
    {
        let ghost before = self@;
        let ghost added = texts(rows@);
        proof {
            use_type_invariant(&*self);
            lemma_with_rows(before, name@, added, name@);
        }
        let found = self.find(name);
        let mut entries: Vec<Entry> = Vec::new();
        core::mem::swap(&mut entries, &mut self.entries);
        match found {
            Some(i) => {
                assert(before[i as int].0 == name@);
                let mut rows = rows;
                let mut entry = entries.remove(i);
                let ghost had = texts(entry.rows@);
                entry.rows.append(&mut rows);
                assert(texts(entry.rows@) =~= had + added);
                entries.insert(i, entry);
                assert(table_of(entries@) =~= before.update(
                    i as int,
                    (name@, before[i as int].1 + added),
                ));
            },
            None => {
                entries.push(Entry { name: String::from_str(name), rows });
                assert(table_of(entries@) =~= before.push((name@, added)));
            },
        }
        self.entries = entries;
    }

    /// Takes in one message of the response stream.  A row batch is decoded
    /// and its rows are added under the message's query name; then the log
    /// line is looked at.
    pub fn receive(&mut self, msg: &ResponseMessage) -> (r: Result<(), APIClientError>)
        ensures
            distinct_names(final(self)@),
            undecodable(msg@) ==> (r matches Err(APIClientError::MalformedResponse(_))),
            undecodable(msg@) ==> final(self)@ == old(self)@,
            !undecodable(msg@) ==> final(self)@ == after_message(old(self)@, msg@),
            !undecodable(msg@) && reports_error(msg@) ==> (r matches Err(APIClientError::VQL(text))
                && text@ == msg@.log),
            !fails(msg@) ==> r is Ok,
    {
        proof {
            use_type_invariant(&*self);
        }
        if !msg.response.as_str().is_empty() {
            match decode_rows(msg.response.as_str()) {
                Ok(rows) => {
                    self.add_rows(msg.query_name.as_str(), rows);
                },
                Err(e) => {
                    return Err(APIClientError::MalformedResponse(e));
                },
            }
        }
        if starts_with(msg.log.as_str(), "VQL Error:") {
            return Err(APIClientError::VQL(msg.log.clone()));
        }
        Ok(())
    }

    /// Runs a whole response stream: the rows per query name where no message
    /// fails, else the error of the first message that does.
    pub fn collect(messages: &Vec<ResponseMessage>) -> (r: Result<QueryResultSet, APIClientError>)
        ensures
            r is Ok <==> (forall|i: int| 0 <= i < messages@.len() ==> !fails(#[trigger] messages@[i]@)),
            (exists|i: int| 0 <= i < messages@.len() && reports_error(#[trigger] messages@[i]@))
                ==> r is Err,
            (forall|i: int| 0 <= i < messages@.len() ==> !fails(#[trigger] messages@[i]@)) ==> (r matches Ok(
                table,
            ) && table@ == accumulate(message_views(messages@))),
            forall|i: int|
                0 <= i < messages@.len() && fails(#[trigger] messages@[i]@) && (forall|j: int|
                    0 <= j < i ==> !fails(#[trigger] messages@[j]@)) ==> if undecodable(
                    messages@[i]@,
                ) {
                    (r matches Err(APIClientError::MalformedResponse(_)))
                } else {
                    (r matches Err(APIClientError::VQL(text)) && text@ == messages@[i]@.log)
                },
    {
        let mut table = QueryResultSet::new();
        let mut i: usize = 0;
        assert(message_views(messages@).take(0) =~= Seq::empty());
        while i < messages.len()
            invariant
                i <= messages@.len(),
                table@ == accumulate(message_views(messages@).take(i as int)),
                forall|j: int| 0 <= j < i ==> !fails(#[trigger] messages@[j]@),
            decreases messages@.len() - i,
        {
            let ghost views = message_views(messages@);
            assert(views.take(i + 1).drop_last() =~= views.take(i as int));
            assert(views.take(i + 1).last() == messages@[i as int]@);
            match table.receive(&messages[i]) {
                Ok(()) => {},
                Err(e) => {
                    return Err(e);
                },
            }
            i = i + 1;
        }
        assert(message_views(messages@).take(i as int) =~= message_views(messages@));
        Ok(table)
    }
}

/// What adding rows for one name does to the entry of any name: names stay
/// distinct, the name added is present, and only its rows grow.
pub proof fn lemma_with_rows(t: Table, name: Seq<char>, rows: Seq<Seq<char>>, other: Seq<char>)
    requires
        distinct_names(t),
    ensures
        distinct_names(with_rows(t, name, rows)),
        has_name(with_rows(t, name, rows), other) <==> (has_name(t, other) || other == name),
        rows_of(with_rows(t, name, rows), other) == if other == name {
            rows_of(t, name) + rows
        } else {
            rows_of(t, other)
        },
{
    let u = with_rows(t, name, rows);
    if has_name(t, name) {
        let i = index_of(t, name);
        assert(u.len() == t.len());
        assert forall|k: int| 0 <= k < t.len() implies (#[trigger] u[k]).0 == t[k].0 by {}
        assert(distinct_names(u));
        if has_name(t, other) {
            let k = index_of(t, other);
            assert(u[k].0 == other);
        }
        if has_name(u, other) {
            let j = index_of(u, other);
            assert(t[j].0 == other);
            let k = index_of(t, other);
            assert(k == j) by {
                if k < j {
                    assert(t[k].0 != t[j].0);
                } else if j < k {
                    assert(t[j].0 != t[k].0);
                }
            }
            if other == name {
                assert(i == j);
            } else {
                assert(i != j);
            }
        }
    } else {
        assert(u.len() == t.len() + 1);
        assert forall|k: int| 0 <= k < t.len() implies (#[trigger] u[k]) == t[k] by {}
        assert(u[t.len() as int].0 == name);
        assert forall|a: int, b: int| 0 <= a < b < u.len() implies (#[trigger] u[a]).0 != (
        #[trigger] u[b]).0 by {
            if b == t.len() {
                assert(t[a].0 != name);
            } else {
                assert(t[a].0 != t[b].0);
            }
        }
        if has_name(t, other) {
            let k = index_of(t, other);
            assert(u[k].0 == other);
        }
        if has_name(u, other) {
            let j = index_of(u, other);
            if j < t.len() {
                assert(t[j].0 == other);
                let k = index_of(t, other);
                assert(k == j) by {
                    if k < j {
                        assert(t[k].0 != t[j].0);
                    } else if j < k {
                        assert(t[j].0 != t[k].0);
                    }
                }
            } else {
                assert(other == name);
                assert(rows_of(t, name) + rows =~= rows);
            }
        }
    }
}

/// A message never takes away what was received: every name stays, and its
/// rows stay at the front of what it has afterwards, also where the batch
/// that came for it is empty.
pub proof fn lemma_rows_are_kept(t: Table, m: MessageView, name: Seq<char>)
    requires
        distinct_names(t),
    ensures
        has_name(t, name) ==> has_name(after_message(t, m), name),
        rows_of(t, name).is_prefix_of(rows_of(after_message(t, m), name)),
{
    if carries_rows(m) {
        lemma_with_rows(t, m.name, json_rows(m.response)->Some_0, name);
    }
}

/// The table that a stream of messages builds holds each name once; it has
/// an entry for exactly the names that a row batch came for; and the rows
/// of a name are its batches, concatenated in arrival order.
pub proof fn lemma_rows_by_name(messages: Seq<MessageView>, name: Seq<char>)
    ensures
        distinct_names(accumulate(messages)),
        has_name(accumulate(messages), name) <==> answered(messages, name),
        rows_of(accumulate(messages), name) == batches_for(messages, name),
    decreases messages.len(),
{
    if messages.len() > 0 {
        let earlier = messages.drop_last();
        let m = messages.last();
        lemma_rows_by_name(earlier, name);
        assert forall|i: int| 0 <= i < earlier.len() implies #[trigger] earlier[i] == messages[i] by {}
        if answered(earlier, name) {
            let i = choose|i: int|
                0 <= i < earlier.len() && carries_rows(#[trigger] earlier[i]) && earlier[i].name == name;
            assert(carries_rows(messages[i]) && messages[i].name == name);
        }
        if carries_rows(m) && m.name == name {
            assert(messages[messages.len() - 1] == m);
        }
        if answered(messages, name) {
            let i = choose|i: int|
                0 <= i < messages.len() && carries_rows(#[trigger] messages[i]) && messages[i].name == name;
            if i < earlier.len() {
                assert(carries_rows(earlier[i]) && earlier[i].name == name);
            }
        }
        if carries_rows(m) {
            lemma_with_rows(accumulate(earlier), m.name, json_rows(m.response)->Some_0, name);
        }
    } else {
        assert(!has_name(accumulate(messages), name));
    }
}

/// Where every row batch belongs to one of the submitted queries and every
/// submitted query got at least one batch, the names of the result are
/// exactly the submitted names, and the rows of each are the batches sent
/// for it, concatenated in arrival order.
pub proof fn lemma_keys_are_submitted_names(messages: Seq<MessageView>, names: Seq<Seq<char>>)
    requires
        forall|i: int|
            0 <= i < messages.len() && carries_rows(#[trigger] messages[i]) ==> names.contains(
                messages[i].name,
            ),
        forall|k: int| 0 <= k < names.len() ==> answered(messages, #[trigger] names[k]),
    ensures
        distinct_names(accumulate(messages)),
        forall|name: Seq<char>| #[trigger]
            has_name(accumulate(messages), name) <==> names.contains(name),
        forall|name: Seq<char>| #[trigger]
            rows_of(accumulate(messages), name) == batches_for(messages, name),
{
    lemma_rows_by_name(messages, Seq::empty());
    assert forall|name: Seq<char>| #[trigger]
        has_name(accumulate(messages), name) <==> names.contains(name) by {
        lemma_rows_by_name(messages, name);
        if answered(messages, name) {
            let i = choose|i: int|
                0 <= i < messages.len() && carries_rows(#[trigger] messages[i]) && messages[i].name == name;
            assert(names.contains(messages[i].name));
        }
        if names.contains(name) {
            let k = choose|k: int| 0 <= k < names.len() && names[k] == name;
            assert(answered(messages, names[k]));
        }
    }
    assert forall|name: Seq<char>| #[trigger]
        rows_of(accumulate(messages), name) == batches_for(messages, name) by {
        lemma_rows_by_name(messages, name);
    }
}

} // verus!
