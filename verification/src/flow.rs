//! Flows: scheduling work on an endpoint, and following it through status,
//! logs and results.
//!
//! The service is polled, never listening.  Each function here takes what
//! one poll returned and says what to do next; the caller performs the polls
//! and the waiting.

use crate::client::APIClient;
use crate::clock::{resolve_timestamp, timestamp_text};
use crate::error::APIClientError;
use crate::query::{QueryOptions, QueryRequest, DEFAULT_MAX_ROW};
use crate::text::{same_text, texts};
use vstd::prelude::*;
use vstd::string::*;

verus! {

/// How long to wait before asking again, in milliseconds.
pub const BACKOFF_MILLIS: u64 = 100;

/// The query that asks the service to collect an artifact on an endpoint.
pub open spec fn collect_query() -> Seq<char> {
    "SELECT\n                   collect_client(client_id=client_id,\n                                  artifacts=artifact,\n                                  env=dict(Command=Command))\n                   AS request\n                   FROM scope()"@
}

/// The query for a flow's status.
pub open spec fn status_query() -> Seq<char> {
    "SELECT * FROM flows(client_id=client_id, flow_id=flow_id)"@
}

/// The query for a flow's log.
pub open spec fn logs_query() -> Seq<char> {
    "SELECT * FROM flow_logs(client_id=client_id, flow_id=flow_id)"@
}

/// The query for a flow's results.
pub open spec fn results_query() -> Seq<char> {
    "SELECT * FROM flow_results(client_id=client_id, flow_id=flow_id)"@
}

/// An endpoint known to the service.
pub struct Client<'a> {
    api_client: &'a APIClient,
    client_id: String,
}

/// A flow scheduled on an endpoint.  Its identifier never changes.
pub struct ClientFlow<'a> {
    api_client: &'a APIClient,
    client_id: String,
    flow_id: String,
}

/// The state of a flow, as the service reports it.
#[derive(Clone, Copy, Debug, PartialEq, Eq, Structural)]
pub enum FlowState {
    Unset,
    Running,
    Finished,
    Error,
}

/// The state that a reported name stands for; any other name counts as unset.
pub open spec fn state_of(name: Seq<char>) -> FlowState {
    if name == "RUNNING"@ {
        FlowState::Running
    } else if name == "FINISHED"@ {
        FlowState::Finished
    } else if name == "ERROR"@ {
        FlowState::Error
    } else {
        FlowState::Unset
    }
}

/// The state that a status poll found: that of its first row, unset where it
/// has none.
pub open spec fn polled_state(names: Seq<Seq<char>>) -> FlowState {
    if names.len() == 0 {
        FlowState::Unset
    } else {
        state_of(names[0])
    }
}

impl FlowState {
    pub fn from_name(name: &str) -> (r: FlowState)
        ensures
            r == state_of(name@),
    {
        if same_text(name, "RUNNING") {
            FlowState::Running
        } else if same_text(name, "FINISHED") {
            FlowState::Finished
        } else if same_text(name, "ERROR") {
            FlowState::Error
        } else {
            FlowState::Unset
        }
    }

    /// Whether polling for the status goes on.
    pub fn is_running(&self) -> (r: bool)
        ensures
            r == (*self == FlowState::Running),
    {
        match self {
            FlowState::Running => true,
            _ => false,
        }
    }
}

/// What is being polled.
#[derive(Clone, Copy, Debug, PartialEq, Eq, Structural)]
pub enum FlowPhase {
    Status,
    Logs,
    Results,
}

/// What the caller does next.
#[derive(Debug)]
pub enum FlowAction {
    /// Wait for `delay_millis`, then poll for `phase`.
    Poll { phase: FlowPhase, delay_millis: u64 },
    /// The flow's rows, in arrival order.
    Done(Vec<String>),
    /// The flow failed.
    Failed(APIClientError),
}

/// A single flow log entry.
#[derive(Debug)]
pub struct FlowLogEntry {
    /// Seconds since the epoch, by the endpoint's clock.
    pub client_time: u64,
    pub level: String,
    pub message: String,
}

/// A flow log entry, as plain values.
pub struct EntryView {
    pub client_time: u64,
    pub level: Seq<char>,
    pub message: Seq<char>,
}

impl View for FlowLogEntry {
    type V = EntryView;

    open spec fn view(&self) -> EntryView {
        EntryView { client_time: self.client_time, level: self.level@, message: self.message@ }
    }
}

/// The views of a list of entries.
pub open spec fn entry_views(entries: Seq<FlowLogEntry>) -> Seq<EntryView> {
    Seq::new(entries.len(), |i: int| entries[i]@)
}

/// The entry makes the flow count as failed.
pub open spec fn is_error(e: EntryView) -> bool {
    e.level == "ERROR"@
}

/// The entry is shown to the operator.
pub open spec fn is_reported(e: EntryView) -> bool {
    e.level == "ERROR"@ || e.level == "WARN"@
}

/// Some entry makes the flow count as failed.
pub open spec fn has_error(entries: Seq<EntryView>) -> bool {
    exists|i: int| 0 <= i < entries.len() && is_error(#[trigger] entries[i])
}

/// The wall-clock text of an entry's time, where it has one.
pub open spec fn resolved_time(client_time: u64) -> Option<Seq<char>> {
    if client_time <= 0x7fff_ffff_ffff_ffff {
        timestamp_text(client_time as int)
    } else {
        None
    }
}

/// One line for the operator: time, level and message; without the time
/// where it could not be resolved.
pub open spec fn line_text(time: Option<Seq<char>>, level: Seq<char>, message: Seq<char>) -> Seq<char> {
    match time {
        Some(t) => t + " "@ + level + ": "@ + message,
        None => level + ": "@ + message,
    }
}

/// The lines for the operator: one for each reported entry, in order.
pub open spec fn diagnostics_of(entries: Seq<EntryView>) -> Seq<Seq<char>>
    decreases entries.len(),
{
    if entries.len() == 0 {
        Seq::empty()
    } else {
        let earlier = diagnostics_of(entries.drop_last());
        let e = entries.last();
        if is_reported(e) {
            earlier.push(line_text(resolved_time(e.client_time), e.level, e.message))
        } else {
            earlier
        }
    }
}

/// One line for the operator.
pub fn diagnostic_line(time: Option<String>, level: &str, message: &str) -> (r: String)
    ensures
        time matches Some(t) ==> r@ == line_text(Some(t@), level@, message@),
        time is None ==> r@ == line_text(None, level@, message@),
{
    let mut line = match time {
        Some(t) => {
            let mut start = t;
            start.append(" ");
            start
        },
        None => String::new(),
    };
    line.append(level);
    line.append(": ");
    line.append(message);
    proof {
        if time is None {
            assert(line@ =~= level@ + ": "@ + message@);
        }
    }
    line
}

/// What a poll of the flow's log leads to.
pub struct LogOutcome {
    /// The lines to show to the operator before anything else is done.
    pub diagnostics: Vec<String>,
    pub action: FlowAction,
}

impl<'a> Client<'a> {
    pub closed spec fn id(&self) -> Seq<char> {
        self.client_id@
    }

    pub closed spec fn connection(&self) -> APIClient {
        *self.api_client
    }

    pub fn api_client(&self) -> (r: &'a APIClient)
        ensures
            *r == self.connection(),
    {
        self.api_client
    }

    pub fn client_id(&self) -> (r: &str)
        ensures
            r@ == self.id(),
    {
        self.client_id.as_str()
    }

    /// The call that schedules a flow: one query, the collection of
    /// `artifact` on this endpoint with `cmd` as its command, in the root
    /// organization.
    pub fn schedule_flow(&self, artifact: &str, cmd: &str) -> (r: QueryRequest)
        ensures
            r@.env == seq![
                ("client_id"@, self.id()),
                ("artifact"@, artifact@),
                ("Command"@, cmd@),
            ],
            r@.org_id == Seq::<char>::empty(),
            r@.max_row == DEFAULT_MAX_ROW,
            r@.query == seq![(Seq::<char>::empty(), collect_query())],
    {
        let mut env: Vec<(String, String)> = Vec::new();
        env.push((String::from_str("client_id"), self.client_id.clone()));
        env.push((String::from_str("artifact"), String::from_str(artifact)));
        env.push((String::from_str("Command"), String::from_str(cmd)));
        let options = QueryOptions::builder().env(env).org_id(Some(String::new())).build();
        let r = self.api_client.sync_query(
            "SELECT\n                   collect_client(client_id=client_id,\n                                  artifacts=artifact,\n                                  env=dict(Command=Command))\n                   AS request\n                   FROM scope()",
            &options,
        );
        assert(r@.env =~= seq![
            ("client_id"@, self.id()),
            ("artifact"@, artifact@),
            ("Command"@, cmd@),
        ]);
        r
    }

    /// The flow that the service scheduled.  `flow_ids` holds, for each row
    /// that the scheduling call returned, the flow identifier in it, or
    /// `None` where the row has none.
    pub fn scheduled(&self, flow_ids: &Vec<Option<String>>) -> (r: Result<ClientFlow<'a>, APIClientError>)
        ensures
            flow_ids@.len() > 0 && flow_ids@[0] is Some ==> (r matches Ok(flow) && flow.client()
                == self.id() && flow.id() == flow_ids@[0]->Some_0@ && flow.connection()
                == self.connection()),
            flow_ids@.len() == 0 || flow_ids@[0] is None ==> (r matches Err(
                APIClientError::EmptyResult,
            )),
    {
        if flow_ids.len() == 0 {
            return Err(APIClientError::EmptyResult);
        }
        match &flow_ids[0] {
            Some(flow_id) => Ok(
                ClientFlow {
                    api_client: self.api_client,
                    client_id: self.client_id.clone(),
                    flow_id: flow_id.clone(),
                },
            ),
            None => Err(APIClientError::EmptyResult),
        }
    }
}

impl APIClient {
    /// The endpoint `id`, without asking the service whether it exists.
    pub fn new_client_unchecked(&self, id: &str) -> (r: Client<'_>)
        ensures
            r.id() == id@,
            r.connection() == *self,
    {
        Client { api_client: self, client_id: String::from_str(id) }
    }
}

impl<'a> ClientFlow<'a> {
    pub closed spec fn client(&self) -> Seq<char> {
        self.client_id@
    }

    pub closed spec fn id(&self) -> Seq<char> {
        self.flow_id@
    }

    pub closed spec fn connection(&self) -> APIClient {
        *self.api_client
    }

    pub fn api_client(&self) -> (r: &'a APIClient)
        ensures
            *r == self.connection(),
    {
        self.api_client
    }

    pub fn client_id(&self) -> (r: &str)
        ensures
            r@ == self.client(),
    {
        self.client_id.as_str()
    }

    pub fn flow_id(&self) -> (r: &str)
        ensures
            r@ == self.id(),
    {
        self.flow_id.as_str()
    }

    /// The query text of a phase.
    pub open spec fn query_of(phase: FlowPhase) -> Seq<char> {
        match phase {
            FlowPhase::Status => status_query(),
            FlowPhase::Logs => logs_query(),
            FlowPhase::Results => results_query(),
        }
    }

    /// The call that polls for `phase`: its one query, scoped to this flow,
    /// in the root organization.
    pub fn request(&self, phase: FlowPhase) -> (r: QueryRequest)
        ensures
            r@.env == seq![("client_id"@, self.client()), ("flow_id"@, self.id())],
            r@.org_id == Seq::<char>::empty(),
            r@.max_row == DEFAULT_MAX_ROW,
            r@.query == seq![(Seq::<char>::empty(), Self::query_of(phase))],
    {
        let mut env: Vec<(String, String)> = Vec::new();
        env.push((String::from_str("client_id"), self.client_id.clone()));
        env.push((String::from_str("flow_id"), self.flow_id.clone()));
        let options = QueryOptions::builder().env(env).org_id(Some(String::new())).build();
        let query = match phase {
            FlowPhase::Status => "SELECT * FROM flows(client_id=client_id, flow_id=flow_id)",
            FlowPhase::Logs => "SELECT * FROM flow_logs(client_id=client_id, flow_id=flow_id)",
            FlowPhase::Results => "SELECT * FROM flow_results(client_id=client_id, flow_id=flow_id)",
        };
        let r = self.api_client.sync_query(query, &options);
        assert(r@.env =~= seq![("client_id"@, self.client()), ("flow_id"@, self.id())]);
        r
    }

    /// Begins the retrieval of the flow's results: the status is polled
    /// first, at once.
    pub fn fetch(&self) -> (r: FlowAction)
        ensures
            r == (FlowAction::Poll { phase: FlowPhase::Status, delay_millis: 0 }),
    {
        FlowAction::Poll { phase: FlowPhase::Status, delay_millis: 0 }
    }

    /// Begins the retrieval of the flow's log: the log is polled at once.
    pub fn fetch_log(&self) -> (r: FlowAction)
        ensures
            r == (FlowAction::Poll { phase: FlowPhase::Logs, delay_millis: 0 }),
    {
        FlowAction::Poll { phase: FlowPhase::Logs, delay_millis: 0 }
    }

    /// After a status poll.  `states` holds the state name of each row that
    /// came back.  While the flow runs, the status is polled again after the
    /// backoff; in any other state the log is polled next.
    pub fn on_status(&self, states: &Vec<String>) -> (r: FlowAction)
        ensures
            polled_state(texts(states@)) == FlowState::Running ==> r == (FlowAction::Poll {
                phase: FlowPhase::Status,
                delay_millis: BACKOFF_MILLIS,
            }),
            polled_state(texts(states@)) != FlowState::Running ==> r == (FlowAction::Poll {
                phase: FlowPhase::Logs,
                delay_millis: 0,
            }),
    {
        let state = if states.len() == 0 {
            FlowState::Unset
        } else {
            assert(texts(states@)[0] == states@[0]@);
            FlowState::from_name(states[0].as_str())
        };
        if state.is_running() {
            FlowAction::Poll { phase: FlowPhase::Status, delay_millis: BACKOFF_MILLIS }
        } else {
            FlowAction::Poll { phase: FlowPhase::Logs, delay_millis: 0 }
        }
    }

    /// After a poll of the log.  An empty log is polled again after the
    /// backoff.  Else every entry of level WARN or ERROR gets a line for the
    /// operator; one entry of level ERROR makes the flow fail, and without
    /// one the results are polled next.
    pub fn on_logs(&self, entries: &Vec<FlowLogEntry>) -> (r: LogOutcome)
        ensures
            texts(r.diagnostics@) == diagnostics_of(entry_views(entries@)),
            entries@.len() == 0 ==> r.action == (FlowAction::Poll {
                phase: FlowPhase::Logs,
                delay_millis: BACKOFF_MILLIS,
            }),
            has_error(entry_views(entries@)) ==> (r.action matches FlowAction::Failed(
                APIClientError::FlowFailed(id),
            ) && id@ == self.id()),
            entries@.len() > 0 && !has_error(entry_views(entries@)) ==> r.action == (
            FlowAction::Poll { phase: FlowPhase::Results, delay_millis: 0 }),
    {
        let mut diagnostics: Vec<String> = Vec::new();
        let mut failed = false;
        let mut i: usize = 0;
        let ghost views = entry_views(entries@);
        assert(views.take(0) =~= Seq::empty());
        assert(texts(diagnostics@) =~= Seq::empty());
        while i < entries.len()
            invariant
                i <= entries@.len(),
                views == entry_views(entries@),
                texts(diagnostics@) == diagnostics_of(views.take(i as int)),
                failed == has_error(views.take(i as int)),
            decreases entries@.len() - i,
        {
            let entry = &entries[i];
            let error = same_text(entry.level.as_str(), "ERROR");
            let warning = same_text(entry.level.as_str(), "WARN");
            proof {
                assert(views.take(i + 1).drop_last() =~= views.take(i as int));
                assert(views.take(i + 1).last() == entry@);
                if has_error(views.take(i as int)) {
                    let k = choose|k: int|
                        0 <= k < views.take(i as int).len() && is_error(#[trigger] views.take(i as int)[k]);
                    assert(is_error(views.take(i + 1)[k]));
                }
                if has_error(views.take(i + 1)) && !error {
                    let k = choose|k: int|
                        0 <= k < views.take(i + 1).len() && is_error(#[trigger] views.take(i + 1)[k]);
                    assert(is_error(views.take(i as int)[k]));
                }
                if error {
                    assert(is_error(views.take(i + 1)[i as int]));
                }
            }
            if error || warning {
                let time = if entry.client_time <= 0x7fff_ffff_ffff_ffff {
                    resolve_timestamp(entry.client_time as i64)
                } else {
                    None
                };
                let line = diagnostic_line(time, entry.level.as_str(), entry.message.as_str());
                let ghost had = texts(diagnostics@);
                diagnostics.push(line);
                assert(texts(diagnostics@) =~= had.push(line@));
            }
            if error {
                failed = true;
            }
            i = i + 1;
        }
        assert(views.take(i as int) =~= views);
        let action = if entries.len() == 0 {
            FlowAction::Poll { phase: FlowPhase::Logs, delay_millis: BACKOFF_MILLIS }
        } else if failed {
            FlowAction::Failed(APIClientError::FlowFailed(self.flow_id.clone()))
        } else {
            FlowAction::Poll { phase: FlowPhase::Results, delay_millis: 0 }
        };
        LogOutcome { diagnostics, action }
    }

    /// After a poll of the results.  No rows means not ready: the results
    /// are polled again after the backoff.  The first rows that come are
    /// the flow's result, as they are.
    pub fn on_results(&self, rows: Vec<String>) -> (r: FlowAction)
        ensures
            rows@.len() == 0 ==> r == (FlowAction::Poll {
                phase: FlowPhase::Results,
                delay_millis: BACKOFF_MILLIS,
            }),
            rows@.len() > 0 ==> r == FlowAction::Done(rows),
    {
        if rows.len() == 0 {
            FlowAction::Poll { phase: FlowPhase::Results, delay_millis: BACKOFF_MILLIS }
        } else {
            FlowAction::Done(rows)
        }
    }
}

} // verus!
