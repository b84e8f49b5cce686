//! Host-side errors and the on-disk grant document.

use vstd::prelude::*;
use vstd::string::StringExecFns;
use crate::coord::{coord_error_text, CoordError};
use crate::device::{protocol_error_text, DeviceGrant, DeviceProtocolError};
use crate::text::{chars_eq_ignore_case, chars_of, eq_ignore_case};

verus! {

/// Host-side errors. Never converted into a silent local-run success.
#[derive(Debug, PartialEq)]
pub enum DeviceError {
    /// Protocol or authorization failure.
    Protocol(DeviceProtocolError),
    /// Filesystem or path fence failure.
    Path(String),
    /// Git invocation failed or timed out.
    Git(String),
    /// Agent process failed.
    Agent(String),
    /// Durable journal I/O.
    Journal(String),
    /// Wire/encryption/transport.
    Transport(String),
    /// Grant file missing or invalid.
    Grant(String),
}

/// The message of each host error.
pub open spec fn device_error_text(e: DeviceError) -> Seq<char> {
    match e {
        DeviceError::Protocol(p) => protocol_error_text(p),
        DeviceError::Path(s) => s@,
        DeviceError::Git(s) => "git: "@ + s@,
        DeviceError::Agent(s) => "agent: "@ + s@,
        DeviceError::Journal(s) => "journal: "@ + s@,
        DeviceError::Transport(s) => "transport: "@ + s@,
        DeviceError::Grant(s) => "grant: "@ + s@,
    }
}

impl DeviceError {
    /// The error's message, as it is shown to users.
    pub fn message(&self) -> (m: String)
        ensures
            m@ == device_error_text(*self),
    {
        match self {
            DeviceError::Protocol(p) => p.message(),
            DeviceError::Path(s) => s.clone(),
            DeviceError::Git(s) => "git: ".to_string().concat(s.as_str()),
            DeviceError::Agent(s) => "agent: ".to_string().concat(s.as_str()),
            DeviceError::Journal(s) => "journal: ".to_string().concat(s.as_str()),
            DeviceError::Transport(s) => "transport: ".to_string().concat(s.as_str()),
            DeviceError::Grant(s) => "grant: ".to_string().concat(s.as_str()),
        }
    }

    /// A coordination error seen by the host, reported as a transport error.
    pub fn from_coord(err: CoordError) -> (r: DeviceError)
        ensures
            r matches DeviceError::Transport(m) && m@ == coord_error_text(err),
    {
        DeviceError::Transport(err.message())
    }

    /// A protocol error seen by the host.
    pub fn from_protocol(e: DeviceProtocolError) -> (r: DeviceError)
        ensures
            r == DeviceError::Protocol(e),
    {
        DeviceError::Protocol(e)
    }
}

/// On-disk grant document (execution authority).
#[derive(Debug)]
pub struct GrantFile {
    /// Stable device id.
    pub device_id: String,
    /// Host service pubkey hex.
    pub device_pubkey_hex: String,
    /// Owner pubkey hex.
    pub owner_pubkey_hex: String,
    /// Additional actor pubkeys hex.
    pub actor_pubkeys: Vec<String>,
    /// Absolute allowed roots.
    pub allowed_roots: Vec<String>,
    /// Generation for revoke-by-replace.
    pub generation: u64,
    /// Optional expiry unix ms.
    pub expires_at_ms: Option<u64>,
    /// Explicit revocation.
    pub revoked: bool,
}

/// A copy of `v` with the same strings.
pub fn copy_strings(v: &Vec<String>) -> (r: Vec<String>)
    ensures
        r@ == v@,
{
    let mut r: Vec<String> = Vec::new();
    let mut i: usize = 0;
    while i < v.len()
        invariant
            i <= v@.len(),
            r@ == v@.take(i as int),
        decreases v@.len() - i,
    {
        r.push(v[i].clone());
        proof {
            assert(r@ =~= v@.take(i as int + 1));
        }
        i += 1;
    }
    proof {
        assert(v@.take(v@.len() as int) == v@);
    }
    r
}

impl GrantFile {
    /// The service runs only under the grant's own key: the host key must
    /// equal `device_pubkey_hex` up to ASCII case.
    pub fn check_host_key(&self, host_pubkey_hex: &str) -> (r: Result<(), String>)
        ensures
            r is Ok <==> eq_ignore_case(host_pubkey_hex@, self.device_pubkey_hex@),
            r matches Err(e) ==> e@ == "nsec file does not match grant device_pubkey_hex"@,
    {
        let host = chars_of(host_pubkey_hex);
        let granted = chars_of(self.device_pubkey_hex.as_str());
        if chars_eq_ignore_case(&host, &granted) {
            Ok(())
        } else {
            Err("nsec file does not match grant device_pubkey_hex".to_string())
        }
    }

    /// Convert to the core grant type.
    pub fn to_grant(&self) -> (g: DeviceGrant)
        ensures
            g.device_id == self.device_id,
            g.device_pubkey_hex == self.device_pubkey_hex,
            g.owner_pubkey_hex == self.owner_pubkey_hex,
            g.actor_pubkeys@ == self.actor_pubkeys@,
            g.allowed_roots@ == self.allowed_roots@,
            g.generation == self.generation,
            g.expires_at_ms == self.expires_at_ms,
            g.revoked == self.revoked,
    {
        DeviceGrant {
            device_id: self.device_id.clone(),
            device_pubkey_hex: self.device_pubkey_hex.clone(),
            owner_pubkey_hex: self.owner_pubkey_hex.clone(),
            actor_pubkeys: copy_strings(&self.actor_pubkeys),
            allowed_roots: copy_strings(&self.allowed_roots),
            generation: self.generation,
            expires_at_ms: self.expires_at_ms,
            revoked: self.revoked,
        }
    }

    /// A copy of this grant document.
    pub fn duplicate(&self) -> (g: GrantFile)
        ensures
            g.device_id == self.device_id,
            g.device_pubkey_hex == self.device_pubkey_hex,
            g.owner_pubkey_hex == self.owner_pubkey_hex,
            g.actor_pubkeys@ == self.actor_pubkeys@,
            g.allowed_roots@ == self.allowed_roots@,
            g.generation == self.generation,
            g.expires_at_ms == self.expires_at_ms,
            g.revoked == self.revoked,
    {
        GrantFile {
            device_id: self.device_id.clone(),
            device_pubkey_hex: self.device_pubkey_hex.clone(),
            owner_pubkey_hex: self.owner_pubkey_hex.clone(),
            actor_pubkeys: copy_strings(&self.actor_pubkeys),
            allowed_roots: copy_strings(&self.allowed_roots),
            generation: self.generation,
            expires_at_ms: self.expires_at_ms,
            revoked: self.revoked,
        }
    }
}

} // verus!
