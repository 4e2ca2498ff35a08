//! Choice between a local socket and a network connection for a host address.
use vstd::prelude::*;

verus! {

/// How a host address is reached.
#[derive(Clone, Copy, Debug, PartialEq, Eq, Structural)]
pub enum Transport {
    /// The address is the path of a local socket.
    UnixSocket,
    /// The address is a network endpoint (`host:port`).
    Tcp,
}

/// What a probe of the filesystem found at the address: whether the path
/// exists, and, where its metadata could be read, whether it is a socket.
pub open spec fn socket_found(exists: bool, is_socket: Option<bool>) -> bool {
    exists && is_socket == Some(true)
}

/// Whether the address names a local socket: the path exists and its
/// metadata says it is a socket. Unreadable metadata counts as no socket.
pub fn is_unix_socket(exists: bool, is_socket: Option<bool>) -> (r: bool)
    ensures
        r == socket_found(exists, is_socket),
{
    exists && match is_socket {
        Some(s) => s,
        None => false,
    }
}

/// The transport to open for a host address, from the probe of its path.
pub fn resolve_transport(exists: bool, is_socket: Option<bool>) -> (r: Transport)
    ensures
        r == (if socket_found(exists, is_socket) {
            Transport::UnixSocket
        } else {
            Transport::Tcp
        }),
{
    if is_unix_socket(exists, is_socket) {
        Transport::UnixSocket
    } else {
        Transport::Tcp
    }
}

} // verus!
