//! The configuration of a connection, and the client that issues calls over
//! it.

use crate::address::{build_uri, uri_text};
use crate::error::APIClientError;
use crate::fetch::{normal_segments_of, CursorView, FileFetchCursor};
use crate::query::{org_text, query_texts, Query, QueryOptions, QueryRequest};
use vstd::prelude::*;
use vstd::string::*;

verus! {

/// The credentials of one API client, as the service's tooling writes them.
/// Certificates and the key are PEM text.
pub struct APIClientConfig {
    ca_certificate: String,
    client_cert: String,
    client_private_key: String,
    api_connection_string: String,
    name: String,
}

/// The texts of a configuration.
pub struct ConfigView {
    pub ca_certificate: Seq<char>,
    pub client_cert: Seq<char>,
    pub client_private_key: Seq<char>,
    pub api_connection_string: Seq<char>,
    pub name: Seq<char>,
}

impl View for APIClientConfig {
    type V = ConfigView;

    closed spec fn view(&self) -> ConfigView {
        ConfigView {
            ca_certificate: self.ca_certificate@,
            client_cert: self.client_cert@,
            client_private_key: self.client_private_key@,
            api_connection_string: self.api_connection_string@,
            name: self.name@,
        }
    }
}

impl APIClientConfig {
    pub fn new(
        ca_certificate: String,
        client_cert: String,
        client_private_key: String,
        api_connection_string: String,
        name: String,
    ) -> (r: APIClientConfig)
        ensures
            r@ == (ConfigView {
                ca_certificate: ca_certificate@,
                client_cert: client_cert@,
                client_private_key: client_private_key@,
                api_connection_string: api_connection_string@,
                name: name@,
            }),
    {
        APIClientConfig { ca_certificate, client_cert, client_private_key, api_connection_string, name }
    }

    pub fn ca_certificate(&self) -> (r: &str)
        ensures
            r@ == self@.ca_certificate,
    {
        self.ca_certificate.as_str()
    }

    pub fn client_cert(&self) -> (r: &str)
        ensures
            r@ == self@.client_cert,
    {
        self.client_cert.as_str()
    }

    pub fn client_private_key(&self) -> (r: &str)
        ensures
            r@ == self@.client_private_key,
    {
        self.client_private_key.as_str()
    }

    /// Host and port of the service.
    pub fn api_connection_string(&self) -> (r: &str)
        ensures
            r@ == self@.api_connection_string,
    {
        self.api_connection_string.as_str()
    }

    /// The name under which the client is known to the service.
    pub fn name(&self) -> (r: &str)
        ensures
            r@ == self@.name,
    {
        self.name.as_str()
    }
}

/// The name that the service's certificate must carry.
pub open spec fn server_name() -> Seq<char> {
    "VelociraptorServer"@
}

/// What a secured session to the service is opened with.
pub struct ConnectionView {
    /// The address of the service, as a URI.
    pub uri: Seq<char>,
    /// The name that the service's certificate must carry.
    pub domain_name: Seq<char>,
    /// The certificate that the service's certificate must be signed by.
    pub ca_certificate: Seq<char>,
    /// The certificate that the client shows.
    pub client_cert: Seq<char>,
    /// The key to the client's certificate.
    pub client_private_key: Seq<char>,
}

/// A connection descriptor: a session is opened from it for each call.
pub struct APIClient {
    uri: String,
    ca_certificate: String,
    client_cert: String,
    client_private_key: String,
}

impl View for APIClient {
    type V = ConnectionView;

    closed spec fn view(&self) -> ConnectionView {
        ConnectionView {
            uri: self.uri@,
            domain_name: server_name(),
            ca_certificate: self.ca_certificate@,
            client_cert: self.client_cert@,
            client_private_key: self.client_private_key@,
        }
    }
}

/// The address of the service that listens at `authority`: `None` where
/// that is no host, or host and port.
pub open spec fn service_uri(authority: Seq<char>) -> Option<Seq<char>> {
    uri_text("https"@, authority, "/"@)
}

/// The connection that a configuration describes, to the service at `uri`:
/// mutual TLS with the configured credentials, with the service expected
/// under its fixed name.
pub open spec fn connection_of(cfg: ConfigView, uri: Seq<char>) -> ConnectionView {
    ConnectionView {
        uri,
        domain_name: server_name(),
        ca_certificate: cfg.ca_certificate,
        client_cert: cfg.client_cert,
        client_private_key: cfg.client_private_key,
    }
}

impl APIClient {
    /// The connection descriptor for a configuration and the URI of its
    /// service.
    pub fn with_uri(cfg: &APIClientConfig, uri: String) -> (r: APIClient)
        ensures
            r@ == connection_of(cfg@, uri@),
    {
        APIClient {
            uri,
            ca_certificate: cfg.ca_certificate.clone(),
            client_cert: cfg.client_cert.clone(),
            client_private_key: cfg.client_private_key.clone(),
        }
    }

    /// The connection descriptor for a configuration.  Fails where the
    /// configured address cannot be part of a URI.
    pub fn try_from(cfg: &APIClientConfig) -> (r: Result<APIClient, APIClientError>)
        ensures
            service_uri(cfg@.api_connection_string) matches Some(uri) ==> (r matches Ok(client)
                && client@ == connection_of(cfg@, uri)),
            service_uri(cfg@.api_connection_string) is None ==> (r matches Err(
                APIClientError::HTTP(_),
            )),
    {
        match build_uri("https", cfg.api_connection_string.as_str(), "/") {
            Ok(uri) => Ok(APIClient::with_uri(cfg, uri)),
            Err(e) => Err(APIClientError::HTTP(e)),
        }
    }

    pub fn uri(&self) -> (r: &str)
        ensures
            r@ == self@.uri,
    {
        self.uri.as_str()
    }

    pub fn domain_name(&self) -> (r: &'static str)
        ensures
            r@ == self@.domain_name,
    {
        "VelociraptorServer"
    }

    pub fn ca_certificate(&self) -> (r: &str)
        ensures
            r@ == self@.ca_certificate,
    {
        self.ca_certificate.as_str()
    }

    pub fn client_cert(&self) -> (r: &str)
        ensures
            r@ == self@.client_cert,
    {
        self.client_cert.as_str()
    }

    pub fn client_private_key(&self) -> (r: &str)
        ensures
            r@ == self@.client_private_key,
    {
        self.client_private_key.as_str()
    }

    /// The call that issues one server-side query: the query goes out alone,
    /// under the empty name, with the environment, organization and batch
    /// size of `options`.
    pub fn sync_query(&self, query: &str, options: &QueryOptions) -> (r: QueryRequest)
        ensures
            r@.env == options.env_view(),
            r@.org_id == org_text(options.org_view()),
            r@.max_row == options.max_row_view(),
            r@.query == seq![(Seq::<char>::empty(), query@)],
    {
        let mut queries: Vec<Query> = Vec::new();
        queries.push(Query { name: String::new(), vql: String::from_str(query) });
        assert(query_texts(queries@) =~= seq![(Seq::<char>::empty(), query@)]);
        QueryRequest::new(queries, options)
    }

    /// Begins the download of the file at `path`: nothing received, and the
    /// path reduced to its normal segments.
    pub fn fetch(&self, path: &str) -> (r: FileFetchCursor)
        ensures
            r@ == (CursorView {
                components: normal_segments_of(path@),
                data: Seq::empty(),
                finished: false,
            }),
    {
        FileFetchCursor::new(path)
    }
}

} // verus!
