//! What the proxy does with a CONNECT tunnel: after peeking at the client's
//! first bytes it intercepts TLS, relays anything else untouched, or records
//! why the tunnel failed; it needs a certificate for the host before the TLS
//! handshake; after the handshake it records the failure, or marks the
//! capture established and serves the protocol the client negotiated.
use vstd::prelude::*;
use vstd::string::*;

use crate::model::{CaptureError, ErrorStage};
use crate::wire::{normalize_tls_error, tls_error_kind};

verus! {

/// The first byte of a TLS record carrying a handshake.
pub const TLS_HANDSHAKE_RECORD: u8 = 0x16;

/// What peeking at the start of a CONNECT tunnel gave.
#[derive(Debug, Clone, PartialEq, Eq)]
pub enum ConnectInspection {
    /// The bytes the client sent first; empty when it closed the tunnel.
    Bytes(Vec<u8>),
    /// The read failed with this message.
    ReadFailed(String),
    /// Nothing arrived in time.
    TimedOut,
}

/// What to do with a CONNECT tunnel once its first bytes are known.
#[derive(Debug, Clone, PartialEq, Eq)]
pub enum ConnectPlan {
    /// Relay the bytes untouched.
    Tunnel,
    /// Terminate TLS with a certificate for the requested host.
    Intercept,
    /// Record this failure on the tunnel's capture and stop.
    Fail(CaptureError),
}

/// A failure to record, as plain values.
pub open spec fn failure(stage: ErrorStage, kind: Seq<char>, message: Seq<char>, e: CaptureError) -> bool {
    e.stage == stage && e.kind@ == kind && e.message@ == message
}

/// The plan for a CONNECT tunnel: a client that sent a TLS handshake record is
/// intercepted, any other first byte is relayed, and a closed, failed or
/// silent client fails the tunnel at the connect stage.
pub open spec fn connect_plan_spec(inspection: ConnectInspection, r: ConnectPlan) -> bool {
    match inspection {
        ConnectInspection::Bytes(b) => if b@.len() == 0 {
            r matches ConnectPlan::Fail(e) && failure(
                ErrorStage::Connect,
                "client_closed"@,
                "CONNECT tunnel closed before a payload was received"@,
                e,
            )
        } else if b@[0] == TLS_HANDSHAKE_RECORD {
            r == ConnectPlan::Intercept
        } else {
            r == ConnectPlan::Tunnel
        },
        ConnectInspection::ReadFailed(m) => r matches ConnectPlan::Fail(e) && failure(
            ErrorStage::Connect,
            "connect_inspection_failed"@,
            m@,
            e,
        ),
        ConnectInspection::TimedOut => r matches ConnectPlan::Fail(e) && failure(
            ErrorStage::Connect,
            "connect_inspection_timeout"@,
            "CONNECT payload inspection timed out"@,
            e,
        ),
    }
}

/// A tunnel is intercepted exactly when the client's first byte starts a TLS
/// handshake record; any other first byte is relayed untouched, and a client
/// that sends nothing, fails or stays silent fails the tunnel at the connect
/// stage.
pub proof fn law_only_tls_is_intercepted(inspection: ConnectInspection, r: ConnectPlan)
    requires
        connect_plan_spec(inspection, r),
    ensures
        inspection matches ConnectInspection::Bytes(b) ==> (b@.len() > 0 ==> (r == ConnectPlan::Intercept <==> b@[0]
            == 0x16u8) && (r == ConnectPlan::Tunnel <==> b@[0] != 0x16u8)),
        r matches ConnectPlan::Fail(e) ==> e.stage == ErrorStage::Connect,
        r is Fail <==> (inspection matches ConnectInspection::Bytes(b) ==> b@.len() == 0),
{
}

fn failure_record(stage: ErrorStage, kind: &str, message: &str) -> (r: CaptureError)
    ensures
        failure(stage, kind@, message@, r),
{
    CaptureError { stage, kind: kind.to_string(), message: message.to_string() }
}

/// Decides what happens to a CONNECT tunnel from its first bytes.
pub fn plan_connect(inspection: &ConnectInspection) -> (r: ConnectPlan)
    ensures
        connect_plan_spec(*inspection, r),
{
    match inspection {
        ConnectInspection::Bytes(b) => {
            if b.len() == 0 {
                ConnectPlan::Fail(
                    failure_record(
                        ErrorStage::Connect,
                        "client_closed",
                        "CONNECT tunnel closed before a payload was received",
                    ),
                )
            } else if b[0] == TLS_HANDSHAKE_RECORD {
                ConnectPlan::Intercept
            } else {
                ConnectPlan::Tunnel
            }
        },
        ConnectInspection::ReadFailed(m) => ConnectPlan::Fail(
            failure_record(ErrorStage::Connect, "connect_inspection_failed", m.as_str()),
        ),
        ConnectInspection::TimedOut => ConnectPlan::Fail(
            failure_record(
                ErrorStage::Connect,
                "connect_inspection_timeout",
                "CONNECT payload inspection timed out",
            ),
        ),
    }
}

/// How the TLS handshake with the client ended.
#[derive(Debug, Clone, PartialEq, Eq)]
pub enum HandshakeOutcome {
    /// The handshake completed; the protocol the client chose by ALPN, if any.
    Established(Option<Vec<u8>>),
    /// The handshake failed with this message.
    Failed(String),
    /// The handshake did not complete in time.
    TimedOut,
}

/// What to do once the TLS handshake with the client has ended.
#[derive(Debug, Clone, PartialEq, Eq)]
pub enum HandshakePlan {
    /// Serve HTTP/2 when `http2`, HTTP/1.1 otherwise.
    Serve { http2: bool },
    /// Record this failure on the tunnel's capture and stop.
    Fail(CaptureError),
}

/// The plan after a handshake: a client that chose `h2` is served HTTP/2 and
/// any other HTTP/1.1; a failed handshake is recorded under the kind its
/// message classifies to, and a slow one as a timeout.
pub open spec fn handshake_plan_spec(outcome: HandshakeOutcome, r: HandshakePlan) -> bool {
    match outcome {
        HandshakeOutcome::Established(alpn) => r == HandshakePlan::Serve {
            http2: alpn matches Some(p) && p@ == seq![104u8, 50u8],
        },
        HandshakeOutcome::Failed(m) => r matches HandshakePlan::Fail(e) && failure(
            ErrorStage::TlsHandshake,
            tls_error_kind(m@),
            m@,
            e,
        ),
        HandshakeOutcome::TimedOut => r matches HandshakePlan::Fail(e) && failure(
            ErrorStage::TlsHandshake,
            "client_tls_handshake_timeout"@,
            "client TLS handshake timed out"@,
            e,
        ),
    }
}

/// After a handshake, HTTP/2 is served exactly when the client chose `h2` by
/// ALPN; a failed or slow handshake fails at the TLS stage.
pub proof fn law_http2_only_when_negotiated(outcome: HandshakeOutcome, r: HandshakePlan)
    requires
        handshake_plan_spec(outcome, r),
    ensures
        r == (HandshakePlan::Serve { http2: true }) <==> (outcome matches HandshakeOutcome::Established(Some(p))
            && p@ == seq![104u8, 50u8]),
        r matches HandshakePlan::Fail(e) ==> e.stage == ErrorStage::TlsHandshake,
        r is Serve <==> outcome is Established,
{
}

/// Decides what happens after the TLS handshake with the client.
pub fn plan_after_handshake(outcome: &HandshakeOutcome) -> (r: HandshakePlan)
    ensures
        handshake_plan_spec(*outcome, r),
{
    match outcome {
        HandshakeOutcome::Established(alpn) => {
            let http2 = match alpn {
                Some(p) => {
                    let is_h2 = p.len() == 2 && p[0] == 104u8 && p[1] == 50u8;
                    proof {
                        if is_h2 {
                            assert(p@ =~= seq![104u8, 50u8]);
                        }
                    }
                    is_h2
                },
                None => false,
            };
            HandshakePlan::Serve { http2 }
        },
        HandshakeOutcome::Failed(m) => {
            let kind = normalize_tls_error(m.as_str());
            HandshakePlan::Fail(failure_record(ErrorStage::TlsHandshake, kind, m.as_str()))
        },
        HandshakeOutcome::TimedOut => HandshakePlan::Fail(
            failure_record(
                ErrorStage::TlsHandshake,
                "client_tls_handshake_timeout",
                "client TLS handshake timed out",
            ),
        ),
    }
}

/// Whether a certificate for the requested host could be made; without one
/// the tunnel fails at the TLS stage.
pub fn certificate_outcome(made: Result<(), String>) -> (r: Option<CaptureError>)
    ensures
        match made {
            Ok(()) => r.is_none(),
            Err(m) => r matches Some(e) && failure(ErrorStage::TlsHandshake, "certificate_generation_failed"@, m@, e),
        },
{
    match made {
        Ok(()) => None,
        Err(m) => Some(CaptureError {
            stage: ErrorStage::TlsHandshake,
            kind: String::from_str("certificate_generation_failed"),
            message: m,
        }),
    }
}

/// What to do once a handshake completed and the capture was marked as an
/// established interception (or that failed): serve the negotiated protocol,
/// or fail the capture at the TLS stage.
pub fn plan_after_established(http2: bool, stored: Result<(), String>) -> (r: HandshakePlan)
    ensures
        match stored {
            Ok(()) => r == HandshakePlan::Serve { http2 },
            Err(m) => r matches HandshakePlan::Fail(e) && failure(
                ErrorStage::TlsHandshake,
                "connect_capture_finalize_failed"@,
                m@,
                e,
            ),
        },
{
    match stored {
        Ok(()) => HandshakePlan::Serve { http2 },
        Err(m) => HandshakePlan::Fail(CaptureError {
            stage: ErrorStage::TlsHandshake,
            kind: String::from_str("connect_capture_finalize_failed"),
            message: m,
        }),
    }
}

} // verus!
