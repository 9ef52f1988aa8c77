use cargotecture::parse_compose::{
    normalize_port_value, Compose, Condition, DependsOn, Network, PortValue, Service,
};

fn compose(
    services: Vec<(String, Service)>,
    networks: Option<Vec<(String, Network)>>,
) -> Compose {
    Compose { version: None, services, networks }
}

#[test]
fn test_validate_ok() {
    let db = Service { restart: Some("always".to_string()), ..Default::default() };
    let web = Service {
        restart: Some("no".to_string()),
        networks: Some(vec!["net1".to_string()]),
        depends_on: Some(DependsOn::List(vec!["db".to_string()])),
        ..Default::default()
    };
    let model = compose(
        vec![("db".to_string(), db), ("web".to_string(), web)],
        Some(vec![("net1".to_string(), Network::default())]),
    );
    assert_eq!(model.validate(), Ok(()));
}

#[test]
fn test_validate_all_restart_policies() {
    let mut services = Vec::new();
    for (i, policy) in ["no", "always", "on-failure", "unless-stopped"].iter().enumerate() {
        let svc = Service { restart: Some(policy.to_string()), ..Default::default() };
        services.push((format!("s{}", i), svc));
    }
    assert_eq!(compose(services, None).validate(), Ok(()));
}

#[test]
fn test_validate_invalid_restart() {
    let svc = Service { restart: Some("sometimes".to_string()), ..Default::default() };
    let model = compose(vec![("web".to_string(), svc)], None);
    assert_eq!(
        model.validate(),
        Err("Invalid restart value 'sometimes' for service 'web'".to_string())
    );
}

#[test]
fn test_validate_missing_network() {
    let svc = Service { networks: Some(vec!["backbone".to_string()]), ..Default::default() };
    let model = compose(vec![("web".to_string(), svc)], None);
    assert_eq!(
        model.validate(),
        Err("Referenced network 'backbone' not found for service 'web'".to_string())
    );
}

#[test]
fn test_validate_missing_dependency() {
    let svc = Service {
        depends_on: Some(DependsOn::List(vec!["db".to_string()])),
        ..Default::default()
    };
    let model = compose(vec![("web".to_string(), svc)], None);
    // the report names both the missing dependency and the referencing service
    assert_eq!(
        model.validate(),
        Err("Referenced service 'db' in depends_on not found for service 'web'".to_string())
    );
}

#[test]
fn test_validate_conditional_dependency() {
    let backend = Service {
        depends_on: Some(DependsOn::Conditions(vec![(
            "db".to_string(),
            Condition { condition: "service_healthy".to_string() },
        )])),
        ..Default::default()
    };

    // the referenced service is absent
    let model = compose(vec![("backend".to_string(), backend.clone())], None);
    assert_eq!(
        model.validate(),
        Err("Referenced service 'db' in depends_on not found for service 'backend'".to_string())
    );

    // the referenced service is present
    let model = compose(
        vec![
            ("db".to_string(), Service::default()),
            ("backend".to_string(), backend),
        ],
        None,
    );
    assert_eq!(model.validate(), Ok(()));
}

#[test]
fn test_validate_reports_first_violation() {
    let bad_restart = Service { restart: Some("often".to_string()), ..Default::default() };
    let bad_network = Service { networks: Some(vec!["none".to_string()]), ..Default::default() };
    let model = compose(
        vec![
            ("a".to_string(), bad_restart),
            ("b".to_string(), bad_network),
        ],
        None,
    );
    // services are checked in stored order, and the first violation wins
    assert_eq!(
        model.validate(),
        Err("Invalid restart value 'often' for service 'a'".to_string())
    );
}

#[test]
fn test_validate_restart_before_networks() {
    // within one service the restart check comes first
    let svc = Service {
        restart: Some("often".to_string()),
        networks: Some(vec!["none".to_string()]),
        ..Default::default()
    };
    let model = compose(vec![("a".to_string(), svc)], None);
    assert_eq!(
        model.validate(),
        Err("Invalid restart value 'often' for service 'a'".to_string())
    );
}

#[test]
fn test_normalize_port_value() {
    // a numeric entry and its string form normalize to the same text
    assert_eq!(
        normalize_port_value(&PortValue::Number(8080)),
        Ok("8080".to_string())
    );
    assert_eq!(
        normalize_port_value(&PortValue::Text("8080".to_string())),
        Ok("8080".to_string())
    );
    assert_eq!(
        normalize_port_value(&PortValue::Text("9200:9200".to_string())),
        Ok("9200:9200".to_string())
    );
    assert_eq!(
        normalize_port_value(&PortValue::Other),
        Err("unexpected value type".to_string())
    );
}
