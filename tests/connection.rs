use box_kernel::connection_file::{bind_plan, endpoint, Channel, ConnectionFile, SocketKind};

fn file() -> ConnectionFile {
    ConnectionFile {
        control_port: 50160,
        shell_port: 57503,
        transport: "tcp".to_string(),
        signature_scheme: "hmac-sha256".to_string(),
        stdin_port: 52597,
        hb_port: 42540,
        ip: "127.0.0.1".to_string(),
        iopub_port: 40885,
        key: "a0436f6c-1916-498b-8eb9-e81ab9368e84".to_string(),
    }
}

#[test]
fn every_channel_gets_its_own_socket() {
    let plan = bind_plan(&file());
    let expected = [
        (Channel::Heartbeat, SocketKind::Rep, "tcp://127.0.0.1:42540"),
        (Channel::Shell, SocketKind::Router, "tcp://127.0.0.1:57503"),
        (Channel::Control, SocketKind::Router, "tcp://127.0.0.1:50160"),
        (Channel::Stdin, SocketKind::Router, "tcp://127.0.0.1:52597"),
        (Channel::IoPub, SocketKind::Pub, "tcp://127.0.0.1:40885"),
    ];
    assert_eq!(plan.len(), 5);
    for (b, (channel, kind, ep)) in plan.iter().zip(expected.iter()) {
        assert_eq!(b.channel, *channel);
        assert_eq!(b.kind, *kind);
        assert_eq!(b.endpoint, *ep);
    }
}

#[test]
fn endpoint_port_extremes() {
    let f = file();
    assert_eq!(endpoint(&f, 0), "tcp://127.0.0.1:0");
    assert_eq!(endpoint(&f, 65535), "tcp://127.0.0.1:65535");
}
