use mesh_controller::config::Config;
use mesh_controller::config::ControllerConfig;
use mesh_controller::config::NetworkConfig;
use mesh_controller::config::ValidationError;
use mesh_controller::config::parse_address;
use mesh_controller::config::parse_network_id;
use mesh_controller::service::AuthorityState;
use mesh_controller::service::compute_mesh_ip;

fn network(id: &str, members: &[&str]) -> NetworkConfig {
    NetworkConfig {
        id: id.to_string(),
        members: members.iter().map(|m| m.to_string()).collect(),
    }
}

fn single_network_config() -> Config {
    Config {
        networks: vec![network("1122334400000001", &["1122334400"])],
    }
}

fn initialized_state() -> AuthorityState {
    let mut state = AuthorityState::new();
    let ok = state.initialize(
        0x1122334400,
        "/var/lib/controller".to_string(),
        Some(single_network_config()),
    );
    assert!(ok);
    state
}

#[test]
fn parse_network_id_accepts_16_hex_digits() {
    assert_eq!(parse_network_id("1122334400000001").unwrap(), 0x1122334400000001);
    assert_eq!(parse_network_id("0000000000000000").unwrap(), 0);
    assert_eq!(parse_network_id("ffffffffffffffff").unwrap(), u64::MAX);
}

#[test]
fn parse_network_id_is_case_insensitive() {
    assert_eq!(parse_network_id("AbCdEf0123456789").unwrap(), 0xabcdef0123456789);
    assert_eq!(
        parse_network_id("abcdef0123456789").unwrap(),
        parse_network_id("ABCDEF0123456789").unwrap()
    );
}

#[test]
fn parse_network_id_rejects_wrong_length() {
    assert!(matches!(
        parse_network_id("112233440000001"),
        Err(ValidationError::MalformedIdentifier { .. })
    ));
    assert!(matches!(
        parse_network_id("11223344000000011"),
        Err(ValidationError::MalformedIdentifier { .. })
    ));
    assert!(matches!(
        parse_network_id(""),
        Err(ValidationError::MalformedIdentifier { .. })
    ));
}

#[test]
fn parse_network_id_rejects_non_hex() {
    assert!(matches!(
        parse_network_id("112233440000000g"),
        Err(ValidationError::MalformedIdentifier { raw }) if raw == "112233440000000g"
    ));
}

#[test]
fn parse_address_accepts_10_hex_digits() {
    assert_eq!(parse_address("1122334400").unwrap(), 0x1122334400);
    assert_eq!(parse_address("FFFFFFFFFF").unwrap(), 0xffffffffff);
}

#[test]
fn parse_address_rejects_wrong_length_and_non_hex() {
    assert!(matches!(
        parse_address("112233440"),
        Err(ValidationError::MalformedAddress { .. })
    ));
    assert!(matches!(
        parse_address("11223344001"),
        Err(ValidationError::MalformedAddress { .. })
    ));
    assert!(matches!(
        parse_address("11223344zz"),
        Err(ValidationError::MalformedAddress { raw }) if raw == "11223344zz"
    ));
}

#[test]
fn build_then_is_authorized_reflects_member_list() {
    let config = Config {
        networks: vec![
            network("1122334400000001", &["1122334400", "AABBCCDDEE"]),
            network("1122334400000002", &[]),
        ],
    };
    let registry = ControllerConfig::from_config(&config).unwrap();
    assert!(registry.is_authorized(0x1122334400000001, 0x1122334400));
    assert!(registry.is_authorized(0x1122334400000001, 0xaabbccddee));
    assert!(!registry.is_authorized(0x1122334400000001, 0x9988776655));
    // The empty network exists but authorizes nobody.
    assert!(!registry.is_authorized(0x1122334400000002, 0x1122334400));
    // An absent network authorizes nobody.
    assert!(!registry.is_authorized(0x1122334400000003, 0x1122334400));
}

#[test]
fn build_collapses_duplicate_members() {
    let config = Config {
        networks: vec![network("1122334400000001", &["1122334400", "1122334400"])],
    };
    let registry = ControllerConfig::from_config(&config).unwrap();
    assert!(registry.is_authorized(0x1122334400000001, 0x1122334400));
}

#[test]
fn build_last_duplicate_identifier_wins() {
    let config = Config {
        networks: vec![
            network("1122334400000001", &["1122334400"]),
            network("1122334400000001", &["AABBCCDDEE"]),
        ],
    };
    let registry = ControllerConfig::from_config(&config).unwrap();
    assert!(!registry.is_authorized(0x1122334400000001, 0x1122334400));
    assert!(registry.is_authorized(0x1122334400000001, 0xaabbccddee));
}

#[test]
fn build_reports_first_malformed_field() {
    let config = Config {
        networks: vec![
            network("1122334400000001", &["1122334400"]),
            network("1122334400000002", &["1122334400", "badaddress"]),
        ],
    };
    // "badaddress" has 10 characters but is not hexadecimal.
    let err = ControllerConfig::from_config(&config).unwrap_err();
    assert!(matches!(err, ValidationError::MalformedAddress { raw } if raw == "badaddress"));
}

#[test]
fn manages_network_needs_matching_authority_and_presence() {
    let registry = ControllerConfig::from_config(&single_network_config()).unwrap();
    assert!(registry.manages_network(0x1122334400000001, 0x1122334400));
    // Same network, another authority address: not managed.
    assert!(!registry.manages_network(0x1122334400000001, 0x9988776655));
    // Matching embedded authority, but the network was never configured.
    assert!(!registry.manages_network(0x1122334400000099, 0x1122334400));
}

#[test]
fn overlay_address_is_deterministic() {
    let a = compute_mesh_ip(0x1122334400000001, 0x1122334400);
    let b = compute_mesh_ip(0x1122334400000001, 0x1122334400);
    assert_eq!(a, b);
}

#[test]
fn overlay_address_layout_is_exact() {
    let a = compute_mesh_ip(0x1122334400000001, 0x1122334400);
    assert_eq!(
        a,
        [
            0xFD, 0x11, 0x22, 0x33, 0x44, 0x00, 0x00, 0x00, 0x01, 0x99, 0x93, 0x11, 0x22, 0x33,
            0x44, 0x00
        ]
    );
}

#[test]
fn query_authorized_member_gets_overlay_address() {
    let state = initialized_state();
    let result = state.query(0x1122334400000001, 0x1122334400);
    assert!(result.authorized);
    assert_eq!(
        result.ipv6_bytes,
        [
            0xFD, 0x11, 0x22, 0x33, 0x44, 0x00, 0x00, 0x00, 0x01, 0x99, 0x93, 0x11, 0x22, 0x33,
            0x44, 0x00
        ]
    );
}

#[test]
fn query_rejects_non_member() {
    let state = initialized_state();
    let result = state.query(0x1122334400000001, 0x9988776655);
    assert!(!result.authorized);
    assert_eq!(result.ipv6_bytes, [0u8; 16]);
}

#[test]
fn query_rejects_foreign_authority_network() {
    let state = initialized_state();
    let result = state.query(0x9988776600000001, 0x1122334400);
    assert!(!result.authorized);
    assert_eq!(result.ipv6_bytes, [0u8; 16]);
}

#[test]
fn query_before_initialize_fails_closed() {
    let state = AuthorityState::new();
    assert!(!state.query(0x1122334400000001, 0x1122334400).authorized);
    assert!(!state.query(0, 0).authorized);
    assert!(state.introspect().is_none());
    assert!(state.config_home().is_none());
}

#[test]
fn initialize_with_malformed_identifier_fails() {
    let config = Config {
        // 15 characters: one short of a well-formed identifier.
        networks: vec![network("112233440000001", &["1122334400"])],
    };
    let err = ControllerConfig::from_config(&config).unwrap_err();
    assert!(matches!(err, ValidationError::MalformedIdentifier { raw } if raw == "112233440000001"));

    let mut state = AuthorityState::new();
    let config = Config {
        networks: vec![network("112233440000001", &["1122334400"])],
    };
    assert!(!state.initialize(0x1122334400, "/var/lib/controller".to_string(), Some(config)));
    // No network was registered: the engine stays uninitialized.
    assert!(state.introspect().is_none());
    assert!(!state.query(0x1122334400000001, 0x1122334400).authorized);
}

#[test]
fn initialize_failure_preserves_prior_state() {
    let mut state = initialized_state();
    let bad = Config {
        networks: vec![network("nonsense", &[])],
    };
    assert!(!state.initialize(0x9988776655, "/elsewhere".to_string(), Some(bad)));
    assert!(!state.initialize(0x9988776655, "/elsewhere".to_string(), None));
    // Prior identity and decisions are untouched.
    assert_eq!(state.introspect(), Some(0x1122334400));
    assert!(state.query(0x1122334400000001, 0x1122334400).authorized);
}

#[test]
fn reload_before_initialize_fails() {
    let mut state = AuthorityState::new();
    assert!(!state.reload(Some(single_network_config())));
    assert!(state.introspect().is_none());
}

#[test]
fn failed_reload_preserves_decisions() {
    let mut state = initialized_state();
    let before_member = state.query(0x1122334400000001, 0x1122334400);
    let before_other = state.query(0x1122334400000001, 0x9988776655);

    // Unreadable file: no document at all.
    assert!(!state.reload(None));
    // Malformed document.
    let bad = Config {
        networks: vec![network("1122334400000001", &["short"])],
    };
    assert!(!state.reload(Some(bad)));

    let after_member = state.query(0x1122334400000001, 0x1122334400);
    let after_other = state.query(0x1122334400000001, 0x9988776655);
    assert_eq!(before_member.authorized, after_member.authorized);
    assert_eq!(before_member.ipv6_bytes, after_member.ipv6_bytes);
    assert_eq!(before_other.authorized, after_other.authorized);
    assert_eq!(before_other.ipv6_bytes, after_other.ipv6_bytes);
    assert_eq!(state.introspect(), Some(0x1122334400));
}

#[test]
fn successful_reload_swaps_registry_and_keeps_identity() {
    let mut state = initialized_state();
    let next = Config {
        networks: vec![network("1122334400000002", &["AABBCCDDEE"])],
    };
    assert!(state.reload(Some(next)));
    assert_eq!(state.introspect(), Some(0x1122334400));
    assert_eq!(state.config_home().unwrap().as_str(), "/var/lib/controller");
    // The old network is gone; the new one decides.
    assert!(!state.query(0x1122334400000001, 0x1122334400).authorized);
    assert!(state.query(0x1122334400000002, 0xaabbccddee).authorized);
}

#[test]
fn introspect_reports_configured_authority() {
    let state = initialized_state();
    assert_eq!(state.introspect(), Some(0x1122334400));
    assert_eq!(state.config_home().unwrap().as_str(), "/var/lib/controller");
}
