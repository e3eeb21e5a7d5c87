use rustywin::display::{
    parse_x11_display, try_parse_x11_display, X11ConnectionDescriptor, X11ConnectionType,
};

#[test]
fn test_parse_x11_display() {
    let display = ":0";
    let connection = parse_x11_display(&display);
    assert_eq!(connection.connection_type, X11ConnectionType::Local);
    assert_eq!(connection.host_name, None);
    assert_eq!(connection.screen_num, 0);
    assert_eq!(connection.server_num, 0);
    let display = "mozilla.org:1.2";
    let connection = parse_x11_display(&display);
    assert_eq!(connection.connection_type, X11ConnectionType::TCP);
    assert_eq!(connection.host_name.unwrap(), "mozilla.org");
    assert_eq!(connection.server_num, 1);
    assert_eq!(connection.screen_num, 2);
}

#[test]
fn display_without_server_number_is_refused() {
    let display = "udp/x:0.2";
    let connection = try_parse_x11_display(&display).unwrap();
    assert_eq!(connection.connection_type, X11ConnectionType::TCP);
    assert_eq!(connection.server_num(), 0);
    assert_eq!(connection.screen_num(), 2);
    assert_eq!(try_parse_x11_display("x:x.2"), None);
    assert_eq!(try_parse_x11_display("nocolon"), None);
    assert_eq!(try_parse_x11_display(""), None);
    assert_eq!(try_parse_x11_display(":"), None);
    assert_eq!(try_parse_x11_display(":0."), None);
    assert_eq!(try_parse_x11_display(":.1"), None);
    assert_eq!(try_parse_x11_display(":-1"), None);
    assert_eq!(try_parse_x11_display(":1 "), None);
    assert_eq!(try_parse_x11_display(":99999999999999999999999999"), None);
}

#[test]
fn transports_and_hosts() {
    let local = try_parse_x11_display("unix/:0.0").unwrap();
    assert!(local.is_unix_socket());
    assert_eq!(local.host_name, None);
    assert_eq!((local.server_num(), local.screen_num()), (0, 0));

    let tcp = try_parse_x11_display("TcP/:3").unwrap();
    assert_eq!(tcp.connection_type, X11ConnectionType::TCP);
    assert!(!tcp.is_unix_socket());
    assert_eq!(tcp.host_name, None);
    assert_eq!(tcp.server_num(), 3);

    let not_tcp = try_parse_x11_display("tcpx/:3").unwrap();
    assert_eq!(not_tcp.connection_type, X11ConnectionType::Local);

    let decnet = try_parse_x11_display("node::7.1").unwrap();
    assert_eq!(decnet.connection_type, X11ConnectionType::DECnet);
    assert_eq!(decnet.host_name.as_deref(), Some("node"));
    assert_eq!((decnet.server_num(), decnet.screen_num()), (7, 1));

    let host = try_parse_x11_display("unix:12").unwrap();
    assert_eq!(
        host,
        X11ConnectionDescriptor {
            connection_type: X11ConnectionType::TCP,
            host_name: Some(String::from("unix")),
            server_num: 12,
            screen_num: 0,
        }
    );
    let unicode = try_parse_x11_display("h\u{f6}st:+4.+5").unwrap();
    assert_eq!(unicode.host_name.as_deref(), Some("h\u{f6}st"));
    assert_eq!((unicode.server_num(), unicode.screen_num()), (4, 5));
    let largest = "18446744073709551615";
    assert_eq!(
        try_parse_x11_display(&format!(":{}", largest)).map(|c| c.server_num()),
        largest.parse::<usize>().ok()
    );
}

#[test]
fn tcp_is_told_as_lower_casing_tells_it() {
    for n in 0..=0x10ffffu32 {
        let c = match char::from_u32(n) {
            Some(c) if c != '/' && c != ':' => c,
            _ => continue,
        };
        let transports = [
            format!("{}cp", c),
            format!("t{}p", c),
            format!("tc{}", c),
            format!("{}", c),
            format!("{}p", c),
            format!("t{}", c),
            format!("tcp{}", c),
        ];
        for transport in transports {
            let display = format!("{}/:0", transport);
            let connection = parse_x11_display(&display);
            let want = if transport.to_lowercase() == "tcp" {
                X11ConnectionType::TCP
            } else {
                X11ConnectionType::Local
            };
            assert_eq!(connection.connection_type, want, "transport {:?}", transport);
        }
    }
}
