use velociraptor_api::client::{APIClient, APIClientConfig};
use velociraptor_api::error::{APIClientError, ConfigError, ErrorKind};
use velociraptor_api::query::{QueryResultSet, ResponseMessage};

#[test]
fn config_errors_name_their_reason() {
    assert_eq!(
        ConfigError::IO("No such file or directory".to_string()).message(),
        "Failed to read file: No such file or directory"
    );
    assert_eq!(
        ConfigError::YAML("missing field `name`".to_string()).message(),
        "Failed to parse YAML: missing field `name`"
    );
}

#[test]
fn client_errors_name_their_reason() {
    assert_eq!(
        APIClientError::Transport("connection refused".to_string()).message(),
        "Transport error: connection refused"
    );
    assert_eq!(
        APIClientError::Status("status: Unavailable".to_string()).message(),
        "Failed to run RPC: status: Unavailable"
    );
    assert_eq!(
        APIClientError::VQL("VQL Error: no such plugin".to_string()).message(),
        "Failed to run VQL query: VQL Error: no such plugin"
    );
    assert_eq!(APIClientError::EmptyResult.message(), "No row received where one is needed");
    assert_eq!(APIClientError::FlowFailed("F.12".to_string()).message(), "Flow F.12 failed.");
}

#[test]
fn outside_errors_are_described_by_their_library() {
    let stream = vec![ResponseMessage {
        query_name: String::new(),
        response: "[1,".to_string(),
        log: String::new(),
    }];
    let decode = QueryResultSet::collect(&stream).err().unwrap();
    let expected = serde_json::from_str::<Vec<serde_json::Value>>("[1,").unwrap_err();
    assert_eq!(decode.message(), format!("Failed to parse response: {expected}"));
    assert_eq!(decode.kind(), ErrorKind::Decode);

    let cfg = APIClientConfig::new(
        String::new(),
        String::new(),
        String::new(),
        "two words".to_string(),
        String::new(),
    );
    let address = APIClient::try_from(&cfg).err().unwrap();
    assert!(address.message().starts_with("Failed to build API client: "));
    assert!(address.message().len() > "Failed to build API client: ".len());
    assert_eq!(address.kind(), ErrorKind::Transport);
}

#[test]
fn failures_are_told_apart_by_kind() {
    assert_eq!(APIClientError::Transport(String::new()).kind(), ErrorKind::Transport);
    assert_eq!(APIClientError::Status(String::new()).kind(), ErrorKind::Call);
    assert_eq!(APIClientError::VQL(String::new()).kind(), ErrorKind::Query);
    assert_eq!(APIClientError::EmptyResult.kind(), ErrorKind::EmptyResult);
    assert_eq!(APIClientError::FlowFailed(String::new()).kind(), ErrorKind::FlowFailed);
}
