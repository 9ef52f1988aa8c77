use cargotecture::gen_sysml::{
    sysml_activity_actions, sysml_activity_diagram, sysml_activity_edges, sysml_block_diagram,
    sysml_cargotecture_package,
};
use cargotecture::parse_dockerfile::{
    parse_dockerfile_content, ExposedPort, ParsedContainer, Protocol, VolumeMount,
};

fn sample_model() -> ParsedContainer {
    ParsedContainer {
        name: "app".to_string(),
        base_image: "alpine:3.18".to_string(),
        labels: vec![("version".to_string(), "1.0".to_string())],
        exposed_ports: vec![
            ExposedPort { port_number: 8080, protocol: Protocol::Tcp },
            ExposedPort { port_number: 65535, protocol: Protocol::Udp },
        ],
        volumes: vec![VolumeMount { mount_point: "/data".to_string() }],
        containerfile: vec![
            "FROM alpine:3.18".to_string(),
            "EXPOSE 8080/tcp".to_string(),
            "VOLUME /data".to_string(),
        ],
    }
}

#[test]
fn test_demo() {
    let content = "FROM rust:1.55\nLABEL version=\"1.0\"\nEXPOSE 8080/tcp\nVOLUME /data\n";
    let container = parse_dockerfile_content(content, "Dockerfile").unwrap();
    let parts = sysml_cargotecture_package(&container);
    assert!(parts.starts_with("package DockerfileModel"));
    assert!(parts.ends_with("}\n"));
}

#[test]
fn test_package_contents() {
    let out = sysml_cargotecture_package(&sample_model());
    assert!(out.starts_with("package appModel {\n"));
    assert!(out.contains("    part def Container {\n"));
    assert!(out.contains("        part appBase: BaseImage {\n"));
    assert!(out.contains("                attribute imageName redefines imageName = \"alpine:3.18\";\n"));
    assert!(out.contains("        part app: Container {\n"));
    assert!(out.contains("            attribute version redefines label = \"1.0\";\n"));
    assert!(out.contains("            port port0: NetworkPort {\n"));
    assert!(out.contains("                protocol redefines protocol = Protocol::TCP;\n"));
    assert!(out.contains("                portNumber redefines portNumber = 8080;\n"));
    assert!(out.contains("            port port1: NetworkPort {\n"));
    assert!(out.contains("                protocol redefines protocol = Protocol::UDP;\n"));
    assert!(out.contains("                portNumber redefines portNumber = 65535;\n"));
    assert!(out.contains("            port volume0: VolumePort {\n"));
    assert!(out.contains("                mountPoint redefines mountPoint = \"/data\";\n"));
    assert!(out.ends_with("        }\n    }\n}\n"));
    // one entry per endpoint and per mount, named by position
    assert_eq!(out.matches(": NetworkPort {\n").count(), 2);
    assert_eq!(out.matches(": VolumePort {\n").count(), 1);
}

#[test]
fn test_activity_counts() {
    // a trace of length k yields exactly k actions and k - 1 transitions
    let model = sample_model();
    let actions = sysml_activity_actions(&model);
    let edges = sysml_activity_edges(&model);
    assert_eq!(actions.len(), 3);
    assert_eq!(edges.len(), 2);

    let out = sysml_activity_diagram(&model);
    assert_eq!(out.matches("    action action").count(), 3);
    assert_eq!(out.matches("    control from action").count(), 2);
}

#[test]
fn test_activity_text() {
    let mut model = sample_model();
    model.containerfile = vec!["FROM alpine".to_string(), "RUN true".to_string()];
    let out = sysml_activity_diagram(&model);
    let expected = "activity def appActivity {\n\
                    \x20   action action0 : \"FROM alpine\";\n\
                    \x20   action action1 : \"RUN true\";\n\
                    \x20   control from action0 to action1;\n\
                    }\n";
    assert_eq!(out, expected);
}

#[test]
fn test_block_diagram() {
    let out = sysml_block_diagram(&sample_model());
    let expected = "part def appBlock {\n\
                    \x20   port port0 : NetworkPort;\n\
                    \x20   port port1 : NetworkPort;\n\
                    \x20   port volume0 : VolumePort;\n\
                    \x20   part volumeStore0 : VolumeStorage;\n\
                    }\n\
                    allocate appBlock to appActivity;\n";
    assert_eq!(out, expected);
}

#[test]
fn test_single_action_has_no_edges() {
    let mut model = sample_model();
    model.containerfile = vec!["FROM alpine".to_string()];
    let out = sysml_activity_diagram(&model);
    assert_eq!(
        out,
        "activity def appActivity {\n    action action0 : \"FROM alpine\";\n}\n"
    );
}
