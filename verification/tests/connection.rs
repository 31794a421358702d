use velociraptor_api::client::{APIClient, APIClientConfig};
use velociraptor_api::error::APIClientError;

fn config(address: &str) -> APIClientConfig {
    APIClientConfig::new(
        "CA PEM".to_string(),
        "CERT PEM".to_string(),
        "KEY PEM".to_string(),
        address.to_string(),
        "api-user".to_string(),
    )
}

#[test]
fn descriptor_carries_address_name_and_credentials() {
    let cfg = config("velociraptor.example:8001");
    assert_eq!(cfg.name(), "api-user");
    let client = APIClient::try_from(&cfg).unwrap();
    assert_eq!(client.uri(), "https://velociraptor.example:8001/");
    assert_eq!(client.domain_name(), "VelociraptorServer");
    assert_eq!(client.ca_certificate(), "CA PEM");
    assert_eq!(client.client_cert(), "CERT PEM");
    assert_eq!(client.client_private_key(), "KEY PEM");
}

#[test]
fn malformed_address_is_refused() {
    assert!(matches!(
        APIClient::try_from(&config("not a host")),
        Err(APIClientError::HTTP(_))
    ));
    assert!(matches!(APIClient::try_from(&config("")), Err(APIClientError::HTTP(_))));
}

#[test]
fn descriptor_for_a_given_uri() {
    let client = APIClient::with_uri(&config("ignored"), "https://10.0.0.1:8001/".to_string());
    assert_eq!(client.uri(), "https://10.0.0.1:8001/");
    assert_eq!(client.client_cert(), "CERT PEM");
}
