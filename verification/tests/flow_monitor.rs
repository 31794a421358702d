use velociraptor_api::client::{APIClient, APIClientConfig};
use velociraptor_api::error::APIClientError;
use velociraptor_api::flow::{
    diagnostic_line, ClientFlow, FlowAction, FlowLogEntry, FlowPhase, FlowState, BACKOFF_MILLIS,
};

fn api_client() -> APIClient {
    let cfg = APIClientConfig::new(
        "ca".to_string(),
        "cert".to_string(),
        "key".to_string(),
        "velociraptor.example:8001".to_string(),
        "tester".to_string(),
    );
    APIClient::try_from(&cfg).unwrap()
}

fn flow(api_client: &APIClient) -> ClientFlow<'_> {
    api_client
        .new_client_unchecked("C.1234")
        .scheduled(&vec![Some("F.5678".to_string())])
        .unwrap()
}

fn entry(client_time: u64, level: &str, message: &str) -> FlowLogEntry {
    FlowLogEntry { client_time, level: level.to_string(), message: message.to_string() }
}

fn strings(items: &[&str]) -> Vec<String> {
    items.iter().map(|s| s.to_string()).collect()
}

fn pair(key: &str, value: &str) -> (String, String) {
    (key.to_string(), value.to_string())
}

#[test]
fn scheduling_sends_one_query_with_the_three_bindings() {
    let api_client = api_client();
    let client = api_client.new_client_unchecked("C.1234");
    assert_eq!(client.client_id(), "C.1234");
    let request = client.schedule_flow("Linux.Sys.BashShell", "uname -a");
    assert_eq!(
        request.env,
        vec![
            pair("client_id", "C.1234"),
            pair("artifact", "Linux.Sys.BashShell"),
            pair("Command", "uname -a"),
        ]
    );
    assert_eq!(request.org_id, "");
    assert_eq!(request.max_row, 10);
    assert_eq!(request.query.len(), 1);
    assert_eq!(request.query[0].name, "");
    let words: Vec<&str> = request.query[0].vql.split_whitespace().collect();
    assert_eq!(
        words.join(" "),
        "SELECT collect_client(client_id=client_id, artifacts=artifact, env=dict(Command=Command)) AS request FROM scope()"
    );
}

#[test]
fn scheduled_flow_is_named_by_the_first_row() {
    let api_client = api_client();
    let client = api_client.new_client_unchecked("C.1");
    let flow = client
        .scheduled(&vec![Some("F.1".to_string()), Some("F.2".to_string())])
        .unwrap();
    assert_eq!(flow.client_id(), "C.1");
    assert_eq!(flow.flow_id(), "F.1");
    assert_eq!(flow.api_client().uri(), "https://velociraptor.example:8001/");
}

#[test]
fn scheduling_without_a_row_or_an_identifier_fails() {
    let api_client = api_client();
    let client = api_client.new_client_unchecked("C.1");
    assert!(matches!(client.scheduled(&Vec::new()), Err(APIClientError::EmptyResult)));
    assert!(matches!(
        client.scheduled(&vec![None, Some("F.2".to_string())]),
        Err(APIClientError::EmptyResult)
    ));
}

#[test]
fn polls_are_scoped_to_the_flow() {
    let api_client = api_client();
    let flow = flow(&api_client);
    let expected = [
        (FlowPhase::Status, "SELECT * FROM flows(client_id=client_id, flow_id=flow_id)"),
        (FlowPhase::Logs, "SELECT * FROM flow_logs(client_id=client_id, flow_id=flow_id)"),
        (FlowPhase::Results, "SELECT * FROM flow_results(client_id=client_id, flow_id=flow_id)"),
    ];
    for (phase, vql) in expected {
        let request = flow.request(phase);
        assert_eq!(request.env, vec![pair("client_id", "C.1234"), pair("flow_id", "F.5678")]);
        assert_eq!(request.org_id, "");
        assert_eq!(request.query.len(), 1);
        assert_eq!(request.query[0].name, "");
        assert_eq!(request.query[0].vql, vql);
    }
}

#[test]
fn state_names() {
    assert_eq!(FlowState::from_name("RUNNING"), FlowState::Running);
    assert_eq!(FlowState::from_name("FINISHED"), FlowState::Finished);
    assert_eq!(FlowState::from_name("ERROR"), FlowState::Error);
    assert_eq!(FlowState::from_name("UNSET"), FlowState::Unset);
    assert_eq!(FlowState::from_name(""), FlowState::Unset);
    assert_eq!(FlowState::from_name("running"), FlowState::Unset);
    assert!(FlowState::Running.is_running());
    assert!(!FlowState::Error.is_running());
}

#[test]
fn status_without_a_row_counts_as_unset() {
    let api_client = api_client();
    let flow = flow(&api_client);
    assert!(matches!(
        flow.on_status(&Vec::new()),
        FlowAction::Poll { phase: FlowPhase::Logs, delay_millis: 0 }
    ));
    assert!(matches!(
        flow.on_status(&strings(&["ERROR"])),
        FlowAction::Poll { phase: FlowPhase::Logs, delay_millis: 0 }
    ));
    assert!(matches!(
        flow.on_status(&strings(&["RUNNING", "FINISHED"])),
        FlowAction::Poll { phase: FlowPhase::Status, delay_millis: 100 }
    ));
}

#[test]
fn scripted_flow_takes_three_status_polls_and_three_result_polls() {
    let api_client = api_client();
    let flow = flow(&api_client);
    let statuses = vec![strings(&["RUNNING"]), strings(&["RUNNING"]), strings(&["FINISHED"])];
    let logs = vec![vec![entry(0, "INFO", "collection started")]];
    let results = vec![Vec::new(), Vec::new(), strings(&["{\"row\":\"A\"}", "{\"row\":\"B\"}"])];
    let (mut status_polls, mut log_polls, mut result_polls) = (0, 0, 0);
    let mut delays: Vec<(FlowPhase, u64)> = Vec::new();
    let mut action = flow.fetch();
    let rows = loop {
        match action {
            FlowAction::Poll { phase, delay_millis } => {
                delays.push((phase, delay_millis));
                action = match phase {
                    FlowPhase::Status => {
                        status_polls += 1;
                        flow.on_status(&statuses[status_polls - 1])
                    }
                    FlowPhase::Logs => {
                        log_polls += 1;
                        let outcome = flow.on_logs(&logs[log_polls - 1]);
                        assert!(outcome.diagnostics.is_empty());
                        outcome.action
                    }
                    FlowPhase::Results => {
                        result_polls += 1;
                        flow.on_results(results[result_polls - 1].clone())
                    }
                };
            }
            FlowAction::Done(rows) => break rows,
            FlowAction::Failed(_) => panic!("the flow did not fail"),
        }
    };
    assert_eq!(rows, strings(&["{\"row\":\"A\"}", "{\"row\":\"B\"}"]));
    assert_eq!((status_polls, log_polls, result_polls), (3, 1, 3));
    assert_eq!(BACKOFF_MILLIS, 100);
    assert_eq!(
        delays,
        vec![
            (FlowPhase::Status, 0),
            (FlowPhase::Status, 100),
            (FlowPhase::Status, 100),
            (FlowPhase::Logs, 0),
            (FlowPhase::Results, 0),
            (FlowPhase::Results, 100),
            (FlowPhase::Results, 100),
        ]
    );
}

#[test]
fn one_error_entry_fails_the_flow_before_any_result_poll() {
    let api_client = api_client();
    let flow = flow(&api_client);
    let log = vec![
        entry(1_546_300_800, "INFO", "starting"),
        entry(1_546_300_801, "ERROR", "command not found"),
        entry(1_546_300_802, "INFO", "done"),
    ];
    let outcome = flow.on_logs(&log);
    match outcome.action {
        FlowAction::Failed(APIClientError::FlowFailed(id)) => assert_eq!(id, "F.5678"),
        _ => panic!("the flow must fail"),
    }
    assert_eq!(outcome.diagnostics.len(), 1);
    let moment = time::OffsetDateTime::from_unix_timestamp(1_546_300_801).unwrap();
    assert_eq!(outcome.diagnostics[0], format!("{moment} ERROR: command not found"));
    assert!(outcome.diagnostics[0].starts_with("2019-01-01 "));
}

#[test]
fn warnings_are_shown_and_do_not_fail_the_flow() {
    let api_client = api_client();
    let flow = flow(&api_client);
    let log = vec![
        entry(0, "WARN", "slow disk"),
        entry(5, "INFO", "fine"),
        entry(86_400, "WARN", "still slow"),
    ];
    let outcome = flow.on_logs(&log);
    assert!(matches!(
        outcome.action,
        FlowAction::Poll { phase: FlowPhase::Results, delay_millis: 0 }
    ));
    assert_eq!(outcome.diagnostics.len(), 2);
    assert!(outcome.diagnostics[0].starts_with("1970-01-01 "));
    assert!(outcome.diagnostics[0].ends_with(" WARN: slow disk"));
    assert!(outcome.diagnostics[1].starts_with("1970-01-02 "));
    assert!(outcome.diagnostics[1].ends_with(" WARN: still slow"));
    assert_ne!(outcome.diagnostics[0], "0 WARN: slow disk");
}

#[test]
fn empty_log_is_polled_again_after_the_backoff() {
    let api_client = api_client();
    let flow = flow(&api_client);
    assert!(matches!(
        flow.fetch_log(),
        FlowAction::Poll { phase: FlowPhase::Logs, delay_millis: 0 }
    ));
    let outcome = flow.on_logs(&Vec::new());
    assert!(outcome.diagnostics.is_empty());
    assert!(matches!(
        outcome.action,
        FlowAction::Poll { phase: FlowPhase::Logs, delay_millis: 100 }
    ));
}

#[test]
fn time_beyond_the_calendar_leaves_the_line_without_it() {
    let api_client = api_client();
    let flow = flow(&api_client);
    let outcome = flow.on_logs(&vec![entry(u64::MAX, "ERROR", "late"), entry(1 << 62, "WARN", "later")]);
    assert_eq!(outcome.diagnostics, strings(&["ERROR: late", "WARN: later"]));
    assert!(matches!(outcome.action, FlowAction::Failed(APIClientError::FlowFailed(_))));
}

#[test]
fn diagnostic_line_joins_time_level_and_message() {
    assert_eq!(
        diagnostic_line(Some("2019-01-01 0:00:00.0 +00:00:00".to_string()), "WARN", "m"),
        "2019-01-01 0:00:00.0 +00:00:00 WARN: m"
    );
    assert_eq!(diagnostic_line(None, "ERROR", "x: y"), "ERROR: x: y");
}

#[test]
fn empty_results_are_polled_again_and_the_first_rows_are_final() {
    let api_client = api_client();
    let flow = flow(&api_client);
    assert!(matches!(
        flow.on_results(Vec::new()),
        FlowAction::Poll { phase: FlowPhase::Results, delay_millis: 100 }
    ));
    match flow.on_results(strings(&["1"])) {
        FlowAction::Done(rows) => assert_eq!(rows, strings(&["1"])),
        _ => panic!("rows end the retrieval"),
    }
}
