//! The line that a started process writes to its host.
//!
//! Exactly one line, and then standard output is never used again. The bearer
//! token travels in the environment, never in the arguments.
use vstd::prelude::*;
use vstd::string::StringExecFns;

use crate::text::Text;
use crate::time::Timestamp;

verus! {

/// Version of the protocol.
pub const HANDSHAKE_PROTOCOL: u32 = 1;

/// Environment variable carrying the bearer token that the host generated.
pub const ENV_TOKEN: &'static str = "AUM_TOKEN";

/// Environment variable carrying the host's process id.
pub const ENV_PARENT_PID: &'static str = "AUM_PARENT_PID";

/// Environment variable carrying the data directory.
pub const ENV_DATA_DIR: &'static str = "AUM_DATA_DIR";

/// Environment variable carrying the origin that may call.
pub const ENV_ALLOWED_ORIGIN: &'static str = "AUM_ALLOWED_ORIGIN";

/// What kind of line it is, so that a host can reject unrelated output.
pub const HANDSHAKE_KIND: &'static str = "aum.handshake";

/// The single line written once the process is listening.
#[derive(Debug, Clone, PartialEq, Eq)]
pub struct Handshake {
    pub kind: String,
    pub protocol: u32,
    pub port: u16,
    pub pid: u32,
    /// The host refuses to run against another version.
    pub contract_version: String,
    pub impl_name: String,
    pub impl_version: String,
    pub started_at: Timestamp,
}

/// The line for an encoded handshake, or one that the host will reject.
pub open spec fn handshake_line(encoded: Result<String, String>) -> Text {
    match encoded {
        Ok(json) => json@ + "\n"@,
        Err(e) => "{\"kind\":\"aum.handshake.error\",\"error\":\""@ + e@ + "\"}\n"@,
    }
}

impl Handshake {
    /// A handshake of a process that started at an instant.
    pub fn new_at(
        port: u16,
        pid: u32,
        contract_version: &str,
        impl_version: &str,
        started_at: Timestamp,
    ) -> (h: Self)
        ensures
            h.kind@ == "aum.handshake"@,
            h.protocol == HANDSHAKE_PROTOCOL,
            h.port == port,
            h.pid == pid,
            h.contract_version@ == contract_version@,
            h.impl_name@ == "aum-sidecar-rust"@,
            h.impl_version@ == impl_version@,
            h.started_at == started_at,
    {
        Handshake {
            kind: HANDSHAKE_KIND.to_owned(),
            protocol: HANDSHAKE_PROTOCOL,
            port,
            pid,
            contract_version: contract_version.to_owned(),
            impl_name: "aum-sidecar-rust".to_owned(),
            impl_version: impl_version.to_owned(),
            started_at,
        }
    }

    /// A handshake of a process that starts now. Nothing is said of when that
    /// is.
    pub fn new(port: u16, pid: u32, contract_version: &str, impl_version: &str) -> (h: Self)
        ensures
            h.kind@ == "aum.handshake"@,
            h.protocol == HANDSHAKE_PROTOCOL,
            h.port == port,
            h.pid == pid,
            h.contract_version@ == contract_version@,
            h.impl_name@ == "aum-sidecar-rust"@,
            h.impl_version@ == impl_version@,
    {
        Handshake::new_at(port, pid, contract_version, impl_version, Timestamp::now())
    }

    /// What to write, the newline included; `encoded` is the handshake as JSON,
    /// or why it could not be encoded.
    pub fn to_line(&self, encoded: &Result<String, String>) -> (s: String)
        ensures
            s@ == handshake_line(*encoded),
    {
        match encoded {
            Ok(json) => {
                let mut s = json.clone();
                s.append("\n");
                s
            },
            Err(e) => {
                let mut s = "{\"kind\":\"aum.handshake.error\",\"error\":\"".to_owned();
                s.append(e.as_str());
                s.append("\"}\n");
                s
            },
        }
    }
}

/// A handshake is exactly one line, as long as what is encoded is one.
pub proof fn law_handshake_is_one_line(encoded: Result<String, String>)
    requires
        match encoded {
            Ok(json) => !json@.contains('\n'),
            Err(e) => !e@.contains('\n'),
        },
    ensures
        handshake_line(encoded).last() == '\n',
        forall|i: int|
            0 <= i < handshake_line(encoded).len() - 1 ==> handshake_line(encoded)[i] != '\n',
{
    reveal_strlit("\n");
    reveal_strlit("{\"kind\":\"aum.handshake.error\",\"error\":\"");
    reveal_strlit("\"}\n");
    let line = handshake_line(encoded);
    match encoded {
        Ok(json) => {
            assert forall|i: int| 0 <= i < line.len() - 1 implies line[i] != '\n' by {
                assert(line[i] == json@[i]);
                assert(json@.contains(json@[i]));
            }
        },
        Err(e) => {
            let head = "{\"kind\":\"aum.handshake.error\",\"error\":\""@;
            assert forall|i: int| 0 <= i < line.len() - 1 implies line[i] != '\n' by {
                if head.len() <= i < head.len() + e@.len() {
                    assert(line[i] == e@[i - head.len()]);
                    assert(e@.contains(e@[i - head.len()]));
                }
            }
        },
    }
}

/// The line of a handshake is the handshake and a newline; one that could not be
/// encoded is of another kind and says why.
pub proof fn law_a_handshake_line_is_the_handshake(encoded: Result<String, String>)
    ensures
        encoded is Ok ==> handshake_line(encoded) == encoded->Ok_0@ + "\n"@,
        encoded is Err ==> exists|after: Text|
            handshake_line(encoded)
                == #[trigger] ("{\"kind\":\"aum.handshake.error\",\"error\":\""@ + encoded->Err_0@
                + after),
{
    if encoded is Err {
        assert(handshake_line(encoded)
            == "{\"kind\":\"aum.handshake.error\",\"error\":\""@ + encoded->Err_0@ + "\"}\n"@);
    }
}

} // verus!
