use cetacea::models::{Container, Port};
use cetacea::render::{container_title, format_ports};

#[test]
fn test_format_ports() {
    // Test empty ports
    let empty_ports: Vec<Port> = vec![];
    assert_eq!(format_ports(&empty_ports), "None");

    // Test single port without external mapping
    let internal_only = vec![Port {
        ip: None,
        internal: 80,
        external: None,
        protocol: "tcp".to_string(),
    }];
    assert_eq!(format_ports(&internal_only), "80/tcp");

    // Test port with external mapping
    let mapped_port = vec![Port {
        ip: Some("0.0.0.0".to_string()),
        internal: 80,
        external: Some(8080),
        protocol: "tcp".to_string(),
    }];
    assert_eq!(format_ports(&mapped_port), "0.0.0.0:8080:80/tcp");

    // Test multiple ports
    let multiple_ports = vec![
        Port {
            ip: None,
            internal: 80,
            external: Some(8080),
            protocol: "tcp".to_string(),
        },
        Port {
            ip: None,
            internal: 443,
            external: Some(8443),
            protocol: "tcp".to_string(),
        },
    ];
    assert_eq!(format_ports(&multiple_ports), "8080:80/tcp, 8443:443/tcp");
}

#[test]
fn test_format_ports_lowercases_protocol() {
    let ports = vec![Port {
        ip: None,
        internal: 80,
        external: None,
        protocol: "TCP".to_string(),
    }];
    assert_eq!(format_ports(&ports), "80/tcp");
}

#[test]
fn test_format_ports_empty_bind_address_skipped() {
    let ports = vec![Port {
        ip: Some(String::new()),
        internal: 53,
        external: Some(5353),
        protocol: "udp".to_string(),
    }];
    assert_eq!(format_ports(&ports), "5353:53/udp");
}

#[test]
fn test_container_title() {
    let container = Container {
        id: "0123456789abcdef0123456789abcdef".to_string(),
        names: vec!["web".to_string(), "web-alias".to_string()],
        image: "nginx".to_string(),
        command: "nginx -g daemon off;".to_string(),
        created: 0,
        state: "running".to_string(),
        status: "Up 2 hours".to_string(),
        ports: vec![],
        health: None,
    };
    assert_eq!(container_title(&container), "web, web-alias (0123456789ab)");
}

#[test]
fn test_container_title_short_id_and_no_names() {
    let container = Container {
        id: "abc".to_string(),
        names: vec![],
        image: "img".to_string(),
        command: "cmd".to_string(),
        created: 0,
        state: "exited".to_string(),
        status: "Exited".to_string(),
        ports: vec![],
        health: None,
    };
    assert_eq!(container_title(&container), " (abc)");
}
