use cargotecture::parse_dockerfile::{
    extract_dockerblock, parse_dockerfile_content, parse_exposed_port, parse_misc_instruction,
    parse_volume, ExposedPort, InstructionKind, ParsedInstruction, Port, Protocol,
};

fn inst(raw: &str, kind: InstructionKind) -> ParsedInstruction {
    ParsedInstruction { raw: raw.to_string(), kind }
}

#[test]
fn test_parse_exposed_port() {
    // Test with a valid TCP port
    let tcp_input = "8080/tcp";
    let parsed_tcp_port = parse_exposed_port(tcp_input);
    if let Port::Network(exposed_port) = parsed_tcp_port {
        assert_eq!(exposed_port.port_number, 8080);
        assert_eq!(exposed_port.protocol, Protocol::Tcp);
    } else {
        panic!("Expected Port::Network, got {:?}", parsed_tcp_port);
    }

    // Test with a valid UDP port
    let udp_input = "8080/udp";
    let parsed_udp_port = parse_exposed_port(udp_input);
    if let Port::Network(exposed_port) = parsed_udp_port {
        assert_eq!(exposed_port.port_number, 8080);
        assert_eq!(exposed_port.protocol, Protocol::Udp);
    } else {
        panic!("Expected Port::Network, got {:?}", parsed_udp_port);
    }

    // Test with an invalid port number
    let invalid_input = "invalid/tcp";
    let parsed_invalid_port = parse_exposed_port(invalid_input);
    assert_eq!(parsed_invalid_port, Port::Absent);

    // Test with an unsupported protocol
    let unsupported_input = "8080/unsupported";
    let parsed_unsupported_protocol = parse_exposed_port(unsupported_input);
    if let Port::Network(exposed_port) = parsed_unsupported_protocol {
        assert_eq!(exposed_port.port_number, 8080);
        assert_eq!(exposed_port.protocol, Protocol::default());
    } else {
        panic!("Expected Port::Network, got {:?}", parsed_unsupported_protocol);
    }
}

#[test]
fn test_parse_volume() {
    // Test with JSON input
    let json_input = r#"[ "/data" , "/app" ]"#;
    let parsed_json_volume = parse_volume(json_input);
    if let Port::Volume(volume_mounts) = parsed_json_volume {
        assert_eq!(volume_mounts.len(), 2);
        assert_eq!(volume_mounts[0].mount_point, "/data");
        assert_eq!(volume_mounts[1].mount_point, "/app");
    } else {
        panic!("Expected Port::Volume, got {:?}", parsed_json_volume);
    }

    // Test with string input
    let string_input = "/data";
    let parsed_string_volume = parse_volume(string_input);
    if let Port::Volume(volume_mounts) = parsed_string_volume {
        assert_eq!(volume_mounts.len(), 1);
        assert_eq!(volume_mounts[0].mount_point, "/data");
    } else {
        panic!("Expected Port::Volume, got {:?}", parsed_string_volume);
    }

    // Test with invalid input
    let invalid_input = "invalid";
    let parsed_invalid_volume = parse_volume(invalid_input);
    assert_eq!(parsed_invalid_volume, Port::Absent);
}

#[test]
fn test_parse_misc_instruction() {
    // An EXPOSE directive yields a network endpoint
    let parsed_expose = parse_misc_instruction("EXPOSE", "8080/tcp");
    if let Port::Network(exposed_port) = parsed_expose {
        assert_eq!(exposed_port.port_number, 8080);
        assert_eq!(exposed_port.protocol, Protocol::Tcp);
    } else {
        panic!("Expected Port::Network, got {:?}", parsed_expose);
    }

    // A VOLUME directive with string input yields one mount
    let parsed_volume_string = parse_misc_instruction("VOLUME", "/data");
    if let Port::Volume(volume_mounts) = parsed_volume_string {
        assert_eq!(volume_mounts.len(), 1);
        assert_eq!(volume_mounts[0].mount_point, "/data");
    } else {
        panic!("Expected Port::Volume, got {:?}", parsed_volume_string);
    }

    // A VOLUME directive with JSON input yields one mount per element
    let parsed_volume_json = parse_misc_instruction("VOLUME", r#"[ "/data" , "/app" ]"#);
    if let Port::Volume(volume_mounts) = parsed_volume_json {
        assert_eq!(volume_mounts.len(), 2);
        assert_eq!(volume_mounts[0].mount_point, "/data");
        assert_eq!(volume_mounts[1].mount_point, "/app");
    } else {
        panic!("Expected Port::Volume, got {:?}", parsed_volume_json);
    }

    // An unsupported directive contributes nothing
    let parsed_unsupported = parse_misc_instruction("MAINTAINER", "John Doe <john@example.com>");
    assert_eq!(parsed_unsupported, Port::Absent);
}

#[test]
fn test_parse_dockerfile() {
    let content = "FROM rust:latest\nLABEL version=\"1.0\"\nEXPOSE 8080\nVOLUME /data\n";
    let dockerfile_block = parse_dockerfile_content(content, "testfile").unwrap();

    // the stage is unnamed, so the name falls back to the file's base name
    assert_eq!(dockerfile_block.name, "testfile");
    assert_eq!(dockerfile_block.base_image, "rust:latest");
    assert_eq!(
        dockerfile_block.get_label("version"),
        Some(&String::from("1.0"))
    );
    assert_eq!(dockerfile_block.exposed_ports.len(), 1);
    assert_eq!(dockerfile_block.exposed_ports[0].port_number, 8080);
    assert_eq!(dockerfile_block.volumes.len(), 1);
    assert_eq!(dockerfile_block.volumes[0].mount_point, "/data");
    assert_eq!(dockerfile_block.containerfile.len(), 4);
    // the trace holds each instruction's own source text
    assert_eq!(dockerfile_block.containerfile[0], "FROM rust:latest");
    assert_eq!(dockerfile_block.containerfile[2], "EXPOSE 8080");
}

#[test]
fn test_endpoint_case_insensitive() {
    for (input, port, protocol) in [
        ("8080/TCP", 8080u16, Protocol::Tcp),
        ("8080/Tcp", 8080, Protocol::Tcp),
        ("9000/UDP", 9000, Protocol::Udp),
        ("9000/uDp", 9000, Protocol::Udp),
        ("1/tcp", 1, Protocol::Tcp),
        ("65535/udp", 65535, Protocol::Udp),
    ] {
        match parse_exposed_port(input) {
            Port::Network(e) => {
                assert_eq!(e, ExposedPort { port_number: port, protocol });
            }
            other => panic!("{:?} for {}", other, input),
        }
    }
}

#[test]
fn test_endpoint_absent_cases() {
    for input in ["0/tcp", "invalid/tcp", "", "/tcp", "65536/tcp", "99999999999999/udp", "-1/tcp"]
    {
        assert_eq!(parse_exposed_port(input), Port::Absent, "input {:?}", input);
    }
    // the port segment is trimmed before parsing
    match parse_exposed_port(" 8080 /tcp") {
        Port::Network(e) => assert_eq!(e.port_number, 8080),
        other => panic!("{:?}", other),
    }
}

#[test]
fn test_endpoint_default_protocol() {
    match parse_exposed_port("8080/bogus") {
        Port::Network(e) => {
            assert_eq!(e.port_number, 8080);
            assert_eq!(e.protocol, Protocol::Tcp);
        }
        other => panic!("{:?}", other),
    }
    match parse_exposed_port("8080") {
        Port::Network(e) => assert_eq!(e.protocol, Protocol::Tcp),
        other => panic!("{:?}", other),
    }
}

#[test]
fn test_volume_json_malformed() {
    assert_eq!(parse_volume("[ \"/data\""), Port::Absent);
    assert_eq!(parse_volume("[ 1, 2 ]"), Port::Absent);
    assert_eq!(parse_volume("[ \"/a\", 3 ]"), Port::Absent);
}

#[test]
fn test_volume_shell_words() {
    match parse_volume("/data /app") {
        Port::Volume(mounts) => {
            assert_eq!(mounts.len(), 2);
            assert_eq!(mounts[0].mount_point, "/data");
            assert_eq!(mounts[1].mount_point, "/app");
        }
        other => panic!("{:?}", other),
    }
    // escaped blanks stay inside one word
    match parse_volume("/da\\ ta") {
        Port::Volume(mounts) => {
            assert_eq!(mounts.len(), 1);
            assert_eq!(mounts[0].mount_point, "/da ta");
        }
        other => panic!("{:?}", other),
    }
}

#[test]
fn test_extract_model() {
    let instructions = vec![
        inst(
            "ARG BASE=rust",
            InstructionKind::Misc { name: "ARG".to_string(), args: "BASE=rust".to_string() },
        ),
        inst(
            "FROM rust:latest AS Build",
            InstructionKind::FromImage {
                image: "rust:latest".to_string(),
                alias: Some("Build".to_string()),
            },
        ),
        inst(
            "LABEL version=\"1.0\"",
            InstructionKind::LabelSet {
                pairs: vec![("version".to_string(), "1.0".to_string())],
            },
        ),
        inst(
            "EXPOSE 8080/tcp",
            InstructionKind::Misc { name: "EXPOSE".to_string(), args: "8080/tcp".to_string() },
        ),
        inst(
            "VOLUME /data",
            InstructionKind::Misc { name: "VOLUME".to_string(), args: "/data".to_string() },
        ),
    ];
    let model = extract_dockerblock(&instructions);
    // the stage alias is folded to lower case, as stage names are
    assert_eq!(model.name, "build");
    assert_eq!(model.base_image, "rust:latest");
    assert_eq!(model.get_label("version"), Some(&String::from("1.0")));
    assert_eq!(model.exposed_ports.len(), 1);
    assert_eq!(
        model.exposed_ports[0],
        ExposedPort { port_number: 8080, protocol: Protocol::Tcp }
    );
    assert_eq!(model.volumes.len(), 1);
    assert_eq!(model.volumes[0].mount_point, "/data");
    // the ARG before the first FROM belongs to no stage and is not traced
    assert_eq!(model.containerfile.len(), 4);
    assert_eq!(model.containerfile[0], "FROM rust:latest AS Build");
}

#[test]
fn test_label_overwrite() {
    let instructions = vec![
        inst(
            "FROM alpine",
            InstructionKind::FromImage { image: "alpine".to_string(), alias: None },
        ),
        inst(
            "LABEL a=1 b=2",
            InstructionKind::LabelSet {
                pairs: vec![
                    ("a".to_string(), "1".to_string()),
                    ("b".to_string(), "2".to_string()),
                ],
            },
        ),
        inst(
            "LABEL a=3",
            InstructionKind::LabelSet {
                pairs: vec![("a".to_string(), "3".to_string())],
            },
        ),
    ];
    let model = extract_dockerblock(&instructions);
    // the later write wins; the entry keeps its first position
    assert_eq!(model.labels.len(), 2);
    assert_eq!(model.labels[0], ("a".to_string(), "3".to_string()));
    assert_eq!(model.labels[1], ("b".to_string(), "2".to_string()));
    assert_eq!(model.get_label("a"), Some(&String::from("3")));
    assert_eq!(model.get_label("missing"), None);
}

#[test]
fn test_name_fallback() {
    let model = parse_dockerfile_content("FROM alpine:3.18\n", "sample.dockerfile").unwrap();
    assert_eq!(model.name, "sample.dockerfile");

    let model = parse_dockerfile_content("FROM alpine:3.18\n", "dir/sub/sample.dockerfile")
        .unwrap();
    assert_eq!(model.name, "sample.dockerfile");

    // a named stage keeps its (lower-cased) alias
    let model =
        parse_dockerfile_content("FROM alpine:3.18 AS Web\n", "sample.dockerfile").unwrap();
    assert_eq!(model.name, "web");
}

#[test]
fn test_parse_error() {
    let result = parse_dockerfile_content("FROM\n", "broken");
    assert!(result.is_err());
}
