use vstd::prelude::*;
use vstd::string::*;

use crate::json::{int_text, int_to_text};

verus! {

/// The connection file that a frontend hands the kernel at startup.
pub struct ConnectionFile {
    pub control_port: u16,
    pub shell_port: u16,
    pub transport: String,
    pub signature_scheme: String,
    pub stdin_port: u16,
    pub hb_port: u16,
    pub ip: String,
    pub iopub_port: u16,
    pub key: String,
}

/// The five channels of a kernel.
#[derive(Clone, Copy, Debug, PartialEq, Eq, Structural)]
pub enum Channel {
    Heartbeat,
    Shell,
    Control,
    Stdin,
    IoPub,
}

/// The socket patterns that the channels use.
#[derive(Clone, Copy, Debug, PartialEq, Eq, Structural)]
pub enum SocketKind {
    /// Synchronous request and reply.
    Rep,
    /// Identity-preserving, many clients.
    Router,
    /// One-to-many broadcast.
    Pub,
}

/// One socket to bind: the channel it serves, its pattern, its endpoint.
pub struct Binding {
    pub channel: Channel,
    pub kind: SocketKind,
    pub endpoint: String,
}

/// The channels in the order in which they are bound.
pub open spec fn channel_order() -> Seq<Channel> {
    seq![Channel::Heartbeat, Channel::Shell, Channel::Control, Channel::Stdin, Channel::IoPub]
}

/// The port of `channel` in the connection file.
pub open spec fn port_of(cf: ConnectionFile, channel: Channel) -> u16 {
    match channel {
        Channel::Heartbeat => cf.hb_port,
        Channel::Shell => cf.shell_port,
        Channel::Control => cf.control_port,
        Channel::Stdin => cf.stdin_port,
        Channel::IoPub => cf.iopub_port,
    }
}

/// The socket pattern of `channel`.
pub open spec fn kind_of(channel: Channel) -> SocketKind {
    match channel {
        Channel::Heartbeat => SocketKind::Rep,
        Channel::IoPub => SocketKind::Pub,
        _ => SocketKind::Router,
    }
}

/// `{transport}://{ip}:{port}`.
pub open spec fn endpoint_text(transport: Seq<char>, ip: Seq<char>, port: u16) -> Seq<char> {
    transport + seq![':', '/', '/'] + ip + seq![':'] + int_text(port as int)
}

/// The endpoint of the connection file's address at `port`.
pub fn endpoint(cf: &ConnectionFile, port: u16) -> (r: String)
    ensures
        r@ == endpoint_text(cf.transport@, cf.ip@, port),
{
    proof {
        reveal_strlit("://");
        reveal_strlit(":");
    }
    let p = int_to_text(port as i64);
    let r = String::from_str(cf.transport.as_str()).concat("://").concat(cf.ip.as_str()).concat(
        ":",
    ).concat(p.as_str());
    proof {
        assert(r@ =~= endpoint_text(cf.transport@, cf.ip@, port));
    }
    r
}

/// The port of `channel` in the connection file.
pub fn channel_port(cf: &ConnectionFile, channel: Channel) -> (r: u16)
    ensures
        r == port_of(*cf, channel),
{
    match channel {
        Channel::Heartbeat => cf.hb_port,
        Channel::Shell => cf.shell_port,
        Channel::Control => cf.control_port,
        Channel::Stdin => cf.stdin_port,
        Channel::IoPub => cf.iopub_port,
    }
}

/// The socket pattern of `channel`.
pub fn channel_kind(channel: Channel) -> (r: SocketKind)
    ensures
        r == kind_of(channel),
{
    match channel {
        Channel::Heartbeat => SocketKind::Rep,
        Channel::IoPub => SocketKind::Pub,
        _ => SocketKind::Router,
    }
}

/// The sockets to bind: one per channel, in the order of `channel_order`,
/// each at `{transport}://{ip}:{port}` with its channel's port.
pub fn bind_plan(cf: &ConnectionFile) -> (r: Vec<Binding>)
    ensures
        r@.len() == 5,
        forall|i: int|
            0 <= i < 5 ==> {
                let b = #[trigger] r@[i];
                &&& b.channel == channel_order()[i]
                &&& b.kind == kind_of(b.channel)
                &&& b.endpoint@ == endpoint_text(cf.transport@, cf.ip@, port_of(*cf, b.channel))
            },
{
    let channels = [Channel::Heartbeat, Channel::Shell, Channel::Control, Channel::Stdin, Channel::IoPub];
    let mut r: Vec<Binding> = Vec::new();
    let mut i: usize = 0;
    while i < 5
        invariant
            i <= 5,
            r@.len() == i,
            channels@ == channel_order(),
            forall|k: int|
                0 <= k < i ==> {
                    let b = #[trigger] r@[k];
                    &&& b.channel == channel_order()[k]
                    &&& b.kind == kind_of(b.channel)
                    &&& b.endpoint@ == endpoint_text(cf.transport@, cf.ip@, port_of(*cf, b.channel))
                },
        decreases 5 - i,
    {
        let channel = channels[i];
        let port = channel_port(cf, channel);
        r.push(Binding { channel, kind: channel_kind(channel), endpoint: endpoint(cf, port) });
        i = i + 1;
    }
    r
}

/// Every channel is bound exactly once: the bind order lists each of the
/// five channels at one position, so no two loops share a socket.
pub proof fn lemma_each_channel_bound_once(channel: Channel)
    ensures
        channel_order().len() == 5,
        exists|i: int| 0 <= i < 5 && channel_order()[i] == channel,
        forall|i: int, j: int|
            0 <= i < 5 && 0 <= j < 5 && i != j ==> channel_order()[i] != channel_order()[j],
{
    let o = channel_order();
    match channel {
        Channel::Heartbeat => assert(o[0] == channel),
        Channel::Shell => assert(o[1] == channel),
        Channel::Control => assert(o[2] == channel),
        Channel::Stdin => assert(o[3] == channel),
        Channel::IoPub => assert(o[4] == channel),
    }
}

} // verus!
