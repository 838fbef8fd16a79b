//! Verified core of a GnuPG agent bridge for Windows.
//!
//! GnuPG advertises its *extra* socket through a rendezvous file holding a
//! local TCP port and a 16-byte nonce, and serves its *ssh* socket through
//! Pageant-style window messages backed by named shared-memory slots.  This
//! crate holds the bridge's decision logic — rendezvous-file parsing, frame
//! bounds, the slot-token pool and the per-connection accounting — with
//! machine-checked contracts.  The surrounding I/O (sockets, named pipes,
//! shared memory, window messages) lives outside the verified core and hands
//! this crate plain bytes.

use vstd::prelude::*;

pub mod cache;
pub mod endpoint;
pub mod framing;
pub mod rendezvous;
pub mod token;
pub mod util;

pub use cache::AgentMeta;
pub use endpoint::EndpointKind;
pub use endpoint::classify_endpoint;
pub use framing::FrameHeader;
pub use framing::Handler;
pub use framing::SLOT_CAPACITY;
pub use framing::be_u32;
pub use framing::slot_name;
pub use rendezvous::AgentEndpoint;
pub use rendezvous::parse_assuan;
pub use rendezvous::parse_cygwin;
pub use rendezvous::parse_rendezvous;
pub use rendezvous::starts_cygwin;
pub use token::TokenPool;
pub use util::BridgeError;
pub use util::report_data_err;
pub use util::other_error;
pub use util::zero_buffer;

verus! {

/// Which of the two agent sockets a bridge instance serves.
#[derive(Clone, Copy, PartialEq, Eq, Structural, Debug)]
pub enum SocketType {
    Ssh,
    Extra,
}

impl SocketType {
    /// The directory entry name the GnuPG configuration tool is asked for
    /// when resolving this socket's rendezvous-file path.
    pub fn name(&self) -> (r: &'static str)
        ensures
            *self is Ssh ==> r@ == "agent-ssh-socket"@,
            *self is Extra ==> r@ == "agent-extra-socket"@,
    {
        match self {
            SocketType::Ssh => "agent-ssh-socket",
            SocketType::Extra => "agent-extra-socket",
        }
    }
}

/// The user-facing configuration: listen addresses for the two bridges, an
/// optional override for the extra socket's rendezvous file, and whether to
/// respawn detached.
pub struct Args {
    pub ssh: Option<String>,
    pub extra: Option<String>,
    pub extra_socket: Option<String>,
    pub detach: bool,
}

impl Args {
    /// At least one listen address must be given for the bridge to do anything.
    pub fn is_valid(&self) -> (r: bool)
        ensures
            r == (self.ssh is Some || self.extra is Some),
    {
        self.ssh.is_some() || self.extra.is_some()
    }
}

} // verus!
