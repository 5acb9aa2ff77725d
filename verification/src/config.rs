//! Startup configuration checks of the services and the ingest request.

use vstd::prelude::*;
use vstd::string::*;

use crate::frame::TelemetryFrame;
use crate::sim_node::{trim, trim_chars};
use crate::text::chars_equal;

verus! {

/// Certificate and key files of the control plane's mutual-TLS listener.
#[derive(Debug, Clone)]
pub struct MtlsConfigPaths {
    pub server_cert: String,
    pub server_key: String,
    pub client_ca: String,
}

/// Why a configuration was refused.
#[derive(Debug, Clone, PartialEq, Eq)]
pub struct ConfigError {
    pub message: String,
}

/// The mutual-TLS settings of the control plane: all three files together
/// enable TLS; none of them (without secure-ingest-only mode) disables it;
/// anything else is refused.
pub fn mtls_paths(
    tls_cert: &Option<String>,
    tls_key: &Option<String>,
    client_ca: &Option<String>,
    secure_ingest_only: bool,
) -> (r: Result<Option<MtlsConfigPaths>, ConfigError>)
    ensures
        match r {
            Ok(Some(p)) => tls_cert == Some(p.server_cert) && tls_key == Some(p.server_key) && client_ca == Some(p.client_ca),
            Ok(None) => tls_cert is None && tls_key is None && client_ca is None && !secure_ingest_only,
            Err(e) => !(tls_cert is Some && tls_key is Some && client_ca is Some)
                && !(tls_cert is None && tls_key is None && client_ca is None && !secure_ingest_only)
                && e.message@ == "mTLS ingest requires CONTROL_PLANE_TLS_CERT, CONTROL_PLANE_TLS_KEY, and CONTROL_PLANE_CLIENT_CA"@,
        },
{
    match (tls_cert, tls_key, client_ca) {
        (Some(c), Some(k), Some(a)) => Ok(
            Some(MtlsConfigPaths { server_cert: c.clone(), server_key: k.clone(), client_ca: a.clone() }),
        ),
        (None, None, None) if !secure_ingest_only => Ok(None),
        _ => Err(
            ConfigError {
                message: String::from_str(
                    "mTLS ingest requires CONTROL_PLANE_TLS_CERT, CONTROL_PLANE_TLS_KEY, and CONTROL_PLANE_CLIENT_CA",
                ),
            },
        ),
    }
}

/// Where and how the simulator sidecar sends frames over mutual TLS.
#[derive(Clone, Debug)]
pub struct SecureIngestConfig {
    pub url: String,
    pub client_cert: String,
    pub client_key: String,
    pub server_ca: String,
}

/// The sidecar's secure-ingest settings: all four together enable it, none
/// disables it, anything else is refused.
pub fn secure_ingest_config(
    url: &Option<String>,
    client_cert: &Option<String>,
    client_key: &Option<String>,
    server_ca: &Option<String>,
) -> (r: Result<Option<SecureIngestConfig>, ConfigError>)
    ensures
        match r {
            Ok(Some(c)) => url == Some(c.url) && client_cert == Some(c.client_cert) && client_key == Some(c.client_key)
                && server_ca == Some(c.server_ca),
            Ok(None) => url is None && client_cert is None && client_key is None && server_ca is None,
            Err(e) => !(url is Some && client_cert is Some && client_key is Some && server_ca is Some)
                && !(url is None && client_cert is None && client_key is None && server_ca is None)
                && e.message@ == "secure ingest requires SECURE_INGEST_URL, HIL_SIM_TLS_CERT, HIL_SIM_TLS_KEY, and HIL_SIM_SERVER_CA"@,
        },
{
    match (url, client_cert, client_key, server_ca) {
        (Some(u), Some(c), Some(k), Some(a)) => Ok(
            Some(SecureIngestConfig { url: u.clone(), client_cert: c.clone(), client_key: k.clone(), server_ca: a.clone() }),
        ),
        (None, None, None, None) => Ok(None),
        _ => Err(
            ConfigError {
                message: String::from_str(
                    "secure ingest requires SECURE_INGEST_URL, HIL_SIM_TLS_CERT, HIL_SIM_TLS_KEY, and HIL_SIM_SERVER_CA",
                ),
            },
        ),
    }
}

/// How the sidecar publishes frames: `tls13_mtls` with a secure-ingest
/// configuration, `zmq` without.
pub fn sidecar_transport(secure_ingest: &Option<SecureIngestConfig>) -> (s: &'static str)
    ensures
        s@ == if secure_ingest is Some { "tls13_mtls"@ } else { "zmq"@ },
{
    if secure_ingest.is_some() {
        "tls13_mtls"
    } else {
        "zmq"
    }
}

/// A frame posted to the control plane's ingest endpoint.
#[derive(Debug, Clone)]
pub struct IngestFrameRequest {
    pub source: Option<String>,
    pub frame: TelemetryFrame,
}

/// The only accepted ingest source.
pub open spec fn accepted_source(source: Option<String>) -> bool {
    match source {
        Some(s) => trim(s@) == "software-sim"@,
        None => true,
    }
}

/// Checks the source of an ingest request: absent means `software-sim`;
/// otherwise, surrounding white space aside, it must be `software-sim`.
/// A refusal carries the error text of the HTTP 400 answer.
pub fn check_ingest_source(req: &IngestFrameRequest) -> (r: Result<(), ConfigError>)
    ensures
        r is Ok <==> accepted_source(req.source),
        r matches Err(e) ==> e.message@ == "unsupported ingest source"@,
{
    match &req.source {
        None => Ok(()),
        Some(s) => {
            let t = trim_chars(s.as_str());
            let expected = crate::text::chars_of("software-sim");
            if chars_equal(&t, &expected) {
                Ok(())
            } else {
                Err(ConfigError { message: String::from_str("unsupported ingest source") })
            }
        },
    }
}

} // verus!
