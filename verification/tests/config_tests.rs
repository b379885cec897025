use vproxy::config::{
    build_mapping, load_mappings, names_mapping, parse_mapping, port_of_name, ConfigError,
    LoadError,
};
use vproxy::mapping::ProxyMapping;

fn entry(name: &str, value: &str) -> (String, String) {
    (name.to_string(), value.to_string())
}

#[test]
fn only_names_with_the_prefix_name_a_mapping() {
    assert!(names_mapping("VPROXY_API_8080"));
    assert!(names_mapping("VPROXY_"));
    assert!(names_mapping("VPROXY_8080"));
    assert!(!names_mapping("VPROXY"));
    assert!(!names_mapping("vproxy_api_8080"));
    assert!(!names_mapping("XVPROXY_API_8080"));
    assert!(!names_mapping("PATH"));
    assert!(!names_mapping(""));
    assert!(!names_mapping("VPROXZ_1"));
}

#[test]
fn the_port_is_what_follows_the_last_underscore() {
    assert_eq!(port_of_name("VPROXY_API_8080"), Some(8080));
    assert_eq!(port_of_name("VPROXY_8080"), Some(8080));
    assert_eq!(port_of_name("VPROXY_A_B_C_1"), Some(1));
    assert_eq!(port_of_name("VPROXY_80_443"), Some(443));
    assert_eq!(port_of_name("VPROXY_API_+8080"), Some(8080));
    assert_eq!(port_of_name("8080"), Some(8080));
    assert_eq!(port_of_name("_8080"), Some(8080));
}

#[test]
fn a_name_without_a_port_gives_none() {
    assert_eq!(port_of_name("VPROXY_"), None);
    assert_eq!(port_of_name("VPROXY_API"), None);
    assert_eq!(port_of_name("VPROXY_API_"), None);
    assert_eq!(port_of_name("VPROXY_API_80a"), None);
    assert_eq!(port_of_name("VPROXY_API_65536"), None);
    assert_eq!(port_of_name("VPROXY_API_-1"), None);
    assert_eq!(port_of_name(""), None);
}

#[test]
fn the_documented_entry_gives_its_mapping() {
    let m = parse_mapping("VPROXY_API_8080", "http://localhost:9000");
    assert_eq!(m, Ok(ProxyMapping::new(8080, "http://localhost:9000")));
}

#[test]
fn each_error_has_its_entry() {
    assert_eq!(
        parse_mapping("VPROXY_API_http", "http://localhost:9000"),
        Err(ConfigError::InvalidPort)
    );
    assert_eq!(parse_mapping("VPROXY_API_8080", ""), Err(ConfigError::EmptyUpstream));
    assert_eq!(
        parse_mapping("VPROXY_API_8080", "http://local host:9000"),
        Err(ConfigError::MalformedUpstream)
    );
    assert_eq!(parse_mapping("VPROXY_API_8080", "http://"), Err(ConfigError::MalformedUpstream));
}

#[test]
fn the_port_is_judged_before_the_value() {
    assert_eq!(parse_mapping("VPROXY_API_x", ""), Err(ConfigError::InvalidPort));
    assert_eq!(parse_mapping("VPROXY_API_x", "not a uri"), Err(ConfigError::InvalidPort));
    assert_eq!(build_mapping("VPROXY_API_x", "", false), Err(ConfigError::InvalidPort));
    assert_eq!(build_mapping("VPROXY_API_1", "", true), Err(ConfigError::EmptyUpstream));
}

#[test]
fn build_mapping_goes_by_the_verdict_it_is_given() {
    assert_eq!(
        build_mapping("VPROXY_A_1", "anything at all", true),
        Ok(ProxyMapping::new(1, "anything at all"))
    );
    assert_eq!(
        build_mapping("VPROXY_A_1", "http://localhost:9000", false),
        Err(ConfigError::MalformedUpstream)
    );
}

#[test]
fn loading_keeps_the_mappings_in_order_and_passes_over_the_rest() {
    let vars = vec![
        entry("HOME", "/root"),
        entry("VPROXY_API_8080", "http://localhost:9000"),
        entry("PATH_8081", "http://localhost:9001"),
        entry("VPROXY_WEB_8082", "http://localhost:9002"),
        entry("VPROXY", "http://localhost:9003"),
    ];
    assert_eq!(
        load_mappings(&vars),
        Ok(vec![
            ProxyMapping::new(8080, "http://localhost:9000"),
            ProxyMapping::new(8082, "http://localhost:9002"),
        ])
    );
}

#[test]
fn loading_nothing_gives_nothing() {
    assert_eq!(load_mappings(&Vec::new()), Ok(Vec::new()));
    assert_eq!(load_mappings(&vec![entry("HOME", "")]), Ok(Vec::new()));
}

#[test]
fn loading_stops_at_the_first_bad_mapping() {
    let vars = vec![
        entry("HOME_x", ""),
        entry("VPROXY_API_8080", "http://localhost:9000"),
        entry("VPROXY_WEB_", "http://localhost:9002"),
        entry("VPROXY_DB_5432", ""),
    ];
    assert_eq!(load_mappings(&vars), Err(LoadError { index: 2, cause: ConfigError::InvalidPort }));
    let vars = vec![entry("VPROXY_DB_5432", ""), entry("VPROXY_WEB_", "http://localhost:9002")];
    assert_eq!(
        load_mappings(&vars),
        Err(LoadError { index: 0, cause: ConfigError::EmptyUpstream })
    );
    let vars = vec![entry("VPROXY_A_1", "http://a"), entry("VPROXY_B_2", "http://b c")];
    assert_eq!(
        load_mappings(&vars),
        Err(LoadError { index: 1, cause: ConfigError::MalformedUpstream })
    );
}

#[test]
fn two_mappings_may_name_one_port() {
    let vars = vec![entry("VPROXY_A_8080", "http://a"), entry("VPROXY_B_8080", "http://b")];
    assert_eq!(
        load_mappings(&vars),
        Ok(vec![ProxyMapping::new(8080, "http://a"), ProxyMapping::new(8080, "http://b")])
    );
}
