use asp_dot_rust::application::builder::PortClash;
use asp_dot_rust::application::{Application, ApplicationBuilder, IpAddress};
use asp_dot_rust::configuration::StartupAppConfiguration;
use asp_dot_rust::dependcy_injection::DependencyEdge;
use std::collections::HashSet;

fn cli(args: &[&str]) -> StartupAppConfiguration {
    StartupAppConfiguration::default().parse(args.iter().map(|s| s.to_string()).collect())
}

#[test]
fn new_builder_listens_nowhere() {
    let b = ApplicationBuilder::new("TestApp");
    assert_eq!(b.name, "TestApp");
    assert!(b.ip.is_empty());
    assert!(b.http_port.is_empty());
    assert!(b.https_port.is_empty());
    assert!(b.tls_config.is_none());
}

#[test]
fn any_ip_then_specific_ip() {
    let mut b = Application::new("App");
    b.with_any_ip();
    assert_eq!(b.ip.len(), 2);
    assert!(b.ip.contains(&IpAddress::V4(0, 0, 0, 0)));
    assert!(b.ip.contains(&IpAddress::V6(0, 0, 0, 0, 0, 0, 0, 0)));
    b.with_ip(IpAddress::V4(10, 0, 0, 1));
    assert_eq!(b.ip, vec![IpAddress::V4(10, 0, 0, 1)]);
    b.with_loopback_ip();
    assert_eq!(b.ip.len(), 2);
    b.with_loopback_ip();
    assert_eq!(b.ip.len(), 2);
}

#[test]
fn http_ports_are_a_set() {
    let mut b = ApplicationBuilder::new("App");
    b.with_http_port(8080).with_http_port(8080).with_http_port(9090);
    assert_eq!(b.http_port, vec![8080, 9090]);
}

#[test]
fn http_port_from_command_line() {
    let mut b = ApplicationBuilder::new("App");
    b.set_http_port(&cli(&["--http-port", "5000"]));
    assert_eq!(b.http_port, vec![5000]);
    b.set_http_port(&cli(&["--http-port=70000"]));
    assert_eq!(b.http_port, vec![5000]);
    b.set_http_port(&cli(&[]));
    assert_eq!(b.http_port, vec![5000]);
}

#[test]
fn https_setting_needs_port_cert_and_key() {
    let full = cli(&["--https-port=8443", "--tls-cert", "c.pem", "--tls-key", "k.pem"]);
    assert_eq!(
        ApplicationBuilder::https_setting(&full),
        Some((8443, "c.pem".to_string(), "k.pem".to_string()))
    );
    assert_eq!(ApplicationBuilder::https_setting(&cli(&["--https-port=8443", "--tls-cert=c.pem"])), None);
    assert_eq!(ApplicationBuilder::https_setting(&cli(&["--https-port=x", "--tls-cert=c", "--tls-key=k"])), None);
}

#[test]
fn build_and_listen_defaults() {
    let b = ApplicationBuilder::new("App");
    let mut app = b.build(&Vec::new(), &HashSet::new()).ok().unwrap();
    assert_eq!(app.name, "App");
    assert!(!app.serves_https());
    app.ensure_listen_defaults();
    assert_eq!(app.ip, vec![IpAddress::V4(127, 0, 0, 1)]);
    assert_eq!(app.http_port, vec![8080]);
}

#[test]
fn listen_defaults_keep_given_values() {
    let mut b = ApplicationBuilder::new("App");
    b.with_any_ip().with_http_port(81);
    let mut app = b.build(&Vec::new(), &HashSet::new()).ok().unwrap();
    app.ensure_listen_defaults();
    assert_eq!(app.ip.len(), 2);
    assert_eq!(app.http_port, vec![81]);
}

#[test]
fn build_refuses_a_cycle() {
    let edge = |owner: u64, name: &str, dep: u64, dep_name: &str| DependencyEdge {
        owner,
        owner_name: name.to_string(),
        dependencies: vec![(dep, dep_name.to_string())],
    };
    let edges = vec![edge(1, "A", 1, "A")];
    let registered: HashSet<u64> = [1].into_iter().collect();
    let r = ApplicationBuilder::new("App").build(&edges, &registered);
    assert_eq!(r.err().unwrap(), "Found circular dependency: A -> A");
    let none: HashSet<u64> = HashSet::new();
    let mut b = ApplicationBuilder::new("App");
    b.with_http_port(80);
    let app = b.build(&edges, &none).ok().unwrap();
    assert_eq!(app.http_port, vec![80]);
}

#[test]
fn command_line_ports() {
    let mut b = ApplicationBuilder::new("App");
    let r = b.apply_command_line_ports(&cli(&["--http-port=80", "--https-port=443", "--tls-cert=c", "--tls-key=k"]));
    assert_eq!(r, Ok(Some((443, "c".to_string(), "k".to_string()))));
    assert_eq!(b.http_port, vec![80]);
    let clash = b.apply_command_line_ports(&cli(&["--https-port=80", "--tls-cert=c", "--tls-key=k"]));
    assert_eq!(clash, Err(PortClash::HttpsPortUsedByHttp(80)));
    assert_eq!(
        clash.unwrap_err().message(),
        "Port 80 is already in use by HTTP. Please choose a different port for HTTPS."
    );
    assert_eq!(b.apply_command_line_ports(&cli(&[])), Ok(None));
    assert_eq!(
        PortClash::HttpPortUsedByHttps(443).message(),
        "Port 443 is already in use by HTTPS. Please choose a different port for HTTP."
    );
}
