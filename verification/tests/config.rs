use oxybox::config::app_config::is_whitespace;
use oxybox::config::app_config::load_config;
use oxybox::config::app_config::max_org_width;
use oxybox::config::app_config::setup_resolver;
use oxybox::config::app_config::split_hosts;
use oxybox::config::app_config::trimmed;
use oxybox::config::app_config::NameServer;
use oxybox::config::app_config::NamedOrganisation;
use oxybox::config::app_config::Transport;
use oxybox::config::probe_config::default_status_codes;
use oxybox::config::probe_config::OrganisationConfig;
use oxybox::config::probe_config::TargetConfig;
use oxybox::http_probe::result::IpAddress;

fn organisation(name: &str) -> NamedOrganisation {
    NamedOrganisation {
        name: name.to_string(),
        organisation: OrganisationConfig {
            organisation_id: name.to_string(),
            polling_interval_seconds: 10,
            targets: vec![],
        },
    }
}

#[test]
fn test_default_status_codes() {
    let default_codes = default_status_codes();
    assert_eq!(default_codes, vec![200]);
}

#[test]
fn new_target_accepts_only_200() {
    let target = TargetConfig::new("https://www.example.com".to_string());
    assert_eq!(target.url, "https://www.example.com");
    assert_eq!(target.accepted_status_codes, vec![200]);
    assert!(target.accepts_status(200));
    assert!(!target.accepts_status(301));
}

#[test]
fn target_accepts_each_listed_code() {
    let target = TargetConfig {
        url: "https://www.github.com".to_string(),
        accepted_status_codes: vec![200, 301],
    };
    assert!(target.accepts_status(200));
    assert!(target.accepts_status(301));
    assert!(!target.accepts_status(404));
    let none = TargetConfig { url: String::new(), accepted_status_codes: vec![] };
    assert!(!none.accepts_status(200));
}

#[test]
fn whitespace_agrees_with_the_standard_library() {
    let mut code: u32 = 0;
    while code <= 0x10FFFF {
        if let Some(c) = char::from_u32(code) {
            assert_eq!(is_whitespace(c), c.is_whitespace(), "code point {:#x}", code);
        }
        code += 1;
    }
}

#[test]
fn trimmed_removes_surrounding_white_space_only() {
    assert_eq!(trimmed("  1.1.1.1\t\n"), "1.1.1.1");
    assert_eq!(trimmed("a b"), "a b");
    assert_eq!(trimmed("   "), "");
    assert_eq!(trimmed(""), "");
    assert_eq!(trimmed("\u{3000}x\u{2003}y\u{a0}"), "x\u{2003}y");
}

#[test]
fn split_hosts_splits_at_commas_and_trims() {
    assert_eq!(split_hosts("1.1.1.1,8.8.8.8"), vec!["1.1.1.1", "8.8.8.8"]);
    assert_eq!(split_hosts(" 1.1.1.1 ,\t8.8.8.8\n"), vec!["1.1.1.1", "8.8.8.8"]);
    assert_eq!(split_hosts("9.9.9.9"), vec!["9.9.9.9"]);
    assert_eq!(split_hosts(""), vec![""]);
    assert_eq!(split_hosts(","), vec!["", ""]);
    assert_eq!(split_hosts("a,,b,"), vec!["a", "", "b", ""]);
}

#[test]
fn split_hosts_agrees_with_split_and_trim() {
    let inputs = [
        "1.1.1.1,8.8.8.8",
        "  a , b,c  ,, d\u{2028}",
        ",",
        "",
        "no commas here",
        " , , ",
        "\u{e9}t\u{e9} ,\u{3000}z\u{fc}rich ",
    ];
    for input in inputs {
        let expected: Vec<String> = input.split(',').map(|s| s.trim().to_string()).collect();
        assert_eq!(split_hosts(input), expected, "input {:?}", input);
    }
}

#[test]
fn max_org_width_is_ten_without_organisations() {
    assert_eq!(max_org_width(&vec![]), 10);
}

#[test]
fn max_org_width_is_the_longest_name_in_bytes() {
    let config = vec![organisation("demo"), organisation("organisationX"), organisation("x")];
    assert_eq!(max_org_width(&config), 13);
    assert_eq!(max_org_width(&vec![organisation("ab")]), 2);
    assert_eq!(max_org_width(&vec![organisation("z\u{fc}rich")]), 7);
    assert_eq!(max_org_width(&vec![organisation("")]), 0);
}

#[test]
fn load_config_falls_back_to_defaults() {
    let app = load_config(vec![organisation("demo")], None, None);
    assert_eq!(app.mimir_endpoint, "http://localhost:9009");
    assert_eq!(app.dns_hosts, vec!["1.1.1.1", "8.8.8.8"]);
    assert_eq!(app.max_org_width, 4);
    assert_eq!(app.config.len(), 1);
    assert_eq!(app.config[0].name, "demo");
}

#[test]
fn load_config_takes_what_was_read() {
    let app = load_config(vec![], Some("10.0.0.1 , 10.0.0.2"), Some("https://mimir.example:8080"));
    assert_eq!(app.mimir_endpoint, "https://mimir.example:8080");
    assert_eq!(app.dns_hosts, vec!["10.0.0.1", "10.0.0.2"]);
    assert_eq!(app.max_org_width, 10);
    assert!(app.config.is_empty());
}

#[test]
fn resolver_asks_every_name_server_over_tcp_on_port_53() {
    let hosts = vec![IpAddress::V4(0x0101_0101), IpAddress::V6(1)];
    let settings = setup_resolver(&hosts);
    assert_eq!(settings.attempts, 2);
    assert_eq!(settings.timeout_millis, 100);
    assert_eq!(settings.cache_size, 1024);
    assert_eq!(
        settings.name_servers,
        vec![
            NameServer { address: IpAddress::V4(0x0101_0101), port: 53, transport: Transport::Tcp },
            NameServer { address: IpAddress::V6(1), port: 53, transport: Transport::Tcp },
        ]
    );
    assert!(setup_resolver(&vec![]).name_servers.is_empty());
}
