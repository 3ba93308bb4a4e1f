use tunnel_mate::socks5::{format_ipv4, format_ipv6, Socks5Action, Socks5Negotiation, Socks5Stage};

fn expect_continue(a: Socks5Action) {
    assert!(matches!(a, Socks5Action::Continue), "unexpected {:?}", a);
}

#[test]
fn domain_connect_is_accepted() {
    let mut n = Socks5Negotiation::new();
    assert_eq!(n.need(), 2);
    expect_continue(n.receive(&[5, 2]));
    assert_eq!(n.need(), 2);
    match n.receive(&[2, 0]) {
        Socks5Action::Reply(r) => assert_eq!(r, vec![5, 0]),
        other => panic!("unexpected {:?}", other),
    }
    assert_eq!(n.need(), 4);
    expect_continue(n.receive(&[5, 1, 0, 3]));
    expect_continue(n.receive(&[11]));
    assert_eq!(n.need(), 11);
    expect_continue(n.receive(b"example.com"));
    match n.receive(&[0x1f, 0x90]) {
        Socks5Action::Connect(host, port, reply) => {
            assert_eq!(host, "example.com");
            assert_eq!(port, 8080);
            assert_eq!(reply, vec![5, 0, 0, 1, 0, 0, 0, 0, 0, 0]);
        }
        other => panic!("unexpected {:?}", other),
    }
    assert_eq!(n.stage(), Socks5Stage::Finished);
}

#[test]
fn ipv4_and_ipv6_hosts_are_formatted() {
    let mut n = Socks5Negotiation::new();
    expect_continue(n.receive(&[5, 1]));
    assert!(matches!(n.receive(&[0]), Socks5Action::Reply(_)));
    expect_continue(n.receive(&[5, 1, 0, 1]));
    expect_continue(n.receive(&[192, 168, 0, 10]));
    match n.receive(&[0, 22]) {
        Socks5Action::Connect(host, port, _) => {
            assert_eq!(host, "192.168.0.10");
            assert_eq!(port, 22);
        }
        other => panic!("unexpected {:?}", other),
    }
    assert_eq!(format_ipv4(&[0, 0, 0, 0]), "0.0.0.0");
    let v6 = [0x20, 0x01, 0x0d, 0xb8, 0, 0, 0, 0, 0, 0, 0, 0, 0, 0, 0, 1];
    assert_eq!(format_ipv6(&v6), "[2001:0db8:0000:0000:0000:0000:0000:0001]");
}

#[test]
fn unsupported_requests_are_refused() {
    let mut n = Socks5Negotiation::new();
    match n.receive(&[4, 1]) {
        Socks5Action::Fail(e) => assert_eq!(e, "Unsupported SOCKS version: 4"),
        other => panic!("unexpected {:?}", other),
    }

    let mut n = Socks5Negotiation::new();
    expect_continue(n.receive(&[5, 1]));
    match n.receive(&[2]) {
        Socks5Action::Refuse(reply, e) => {
            assert_eq!(reply, vec![5, 0xff]);
            assert_eq!(e, "No supported authentication methods");
        }
        other => panic!("unexpected {:?}", other),
    }

    let mut n = Socks5Negotiation::new();
    expect_continue(n.receive(&[5, 1]));
    assert!(matches!(n.receive(&[0]), Socks5Action::Reply(_)));
    match n.receive(&[5, 2, 0, 1]) {
        Socks5Action::Refuse(reply, e) => {
            assert_eq!(reply, vec![5, 7, 0, 1, 0, 0, 0, 0, 0, 0]);
            assert_eq!(e, "Unsupported command: 2");
        }
        other => panic!("unexpected {:?}", other),
    }

    let mut n = Socks5Negotiation::new();
    expect_continue(n.receive(&[5, 1]));
    assert!(matches!(n.receive(&[0]), Socks5Action::Reply(_)));
    match n.receive(&[5, 1, 0, 9]) {
        Socks5Action::Refuse(reply, e) => {
            assert_eq!(reply, vec![5, 8, 0, 1, 0, 0, 0, 0, 0, 0]);
            assert_eq!(e, "Unsupported address type: 9");
        }
        other => panic!("unexpected {:?}", other),
    }

    let mut n = Socks5Negotiation::new();
    expect_continue(n.receive(&[5, 1]));
    assert!(matches!(n.receive(&[0]), Socks5Action::Reply(_)));
    match n.receive(&[6, 1, 0, 1]) {
        Socks5Action::Fail(e) => assert_eq!(e, "Unsupported SOCKS version in request: 6"),
        other => panic!("unexpected {:?}", other),
    }
}

#[test]
fn invalid_domain_names_fail() {
    let mut n = Socks5Negotiation::new();
    expect_continue(n.receive(&[5, 1]));
    assert!(matches!(n.receive(&[0]), Socks5Action::Reply(_)));
    expect_continue(n.receive(&[5, 1, 0, 3]));
    expect_continue(n.receive(&[2]));
    match n.receive(&[0xff, 0xfe]) {
        Socks5Action::Fail(e) => assert!(e.starts_with("Invalid UTF-8 domain name: ")),
        other => panic!("unexpected {:?}", other),
    }
}

#[test]
fn io_errors_name_the_stage() {
    let n = Socks5Negotiation::new();
    assert_eq!(n.read_error("early eof"), "Failed to read SOCKS5 greeting: early eof");
    assert_eq!(n.write_error("broken pipe"), "Failed to write SOCKS5 greeting reply: broken pipe");
    let mut m = Socks5Negotiation::new();
    expect_continue(m.receive(&[5, 0]));
    assert_eq!(m.need(), 0);
    assert_eq!(m.read_error("x"), "Failed to read SOCKS5 auth methods: x");
}
