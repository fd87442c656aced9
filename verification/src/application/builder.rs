use rustls::ServerConfig;
use std::collections::HashSet;
use std::sync::Arc;
use vstd::prelude::*;

use crate::application::application::Application;
use crate::application::ip_address::{
    any_v4, any_v6, contains_ip, contains_port, insert_ip, insert_port, loopback_v4, IpAddress,
};
use crate::configuration::startup_app_config::StartupAppConfiguration;
use crate::dependcy_injection::cycle_check::check_dependency_cycles;
use crate::dependcy_injection::edge::{cycle_report, has_dependency_cycle, is_dependency_cycle, DependencyEdge};
use crate::extensions::number::{decimal_text, parse_unsigned, u64_to_decimal};

verus! {

/// `rustls::ServerConfig`, held opaque: the loaded certificate and key.
#[verifier::external_type_specification]
#[verifier::external_body]
pub struct ExServerConfig(ServerConfig);

/// The addresses an application listens on, once `ip` is added: an address that stands
/// for every interface gives way to a specific one.
pub open spec fn ips_with(ips: Set<IpAddress>, ip: IpAddress) -> Set<IpAddress> {
    if ips.contains(any_v4()) || ips.contains(any_v6()) {
        set![ip]
    } else {
        ips.insert(ip)
    }
}

/// The port a command-line setting names, when it is a number that fits a port.
pub open spec fn port_setting(cli: Map<Seq<char>, Seq<char>>, key: Seq<char>) -> Option<u16> {
    if cli.contains_key(key) {
        match parse_unsigned(cli[key]) {
            Some(n) => if n <= u16::MAX {
                Some(n as u16)
            } else {
                None
            },
            None => None,
        }
    } else {
        None
    }
}

/// The HTTPS port and the certificate and key files a command line names, when it names
/// all three.
pub open spec fn https_setting(cli: Map<Seq<char>, Seq<char>>) -> Option<(u16, Seq<char>, Seq<char>)> {
    match port_setting(cli, "https-port"@) {
        Some(p) => if cli.contains_key("tls-cert"@) && cli.contains_key("tls-key"@) {
            Some((p, cli["tls-cert"@], cli["tls-key"@]))
        } else {
            None
        },
        None => None,
    }
}

/// A port that a command line gives to one protocol while the other already serves on it.
#[derive(Debug, Clone, Copy, PartialEq, Eq, Structural)]
pub enum PortClash {
    /// The HTTP port is an HTTPS port already.
    HttpPortUsedByHttps(u16),
    /// The HTTPS port is an HTTP port already.
    HttpsPortUsedByHttp(u16),
}

pub open spec fn port_clash_message(c: PortClash) -> Seq<char> {
    match c {
        PortClash::HttpPortUsedByHttps(p) => "Port "@ + decimal_text(p as nat)
            + " is already in use by HTTPS. Please choose a different port for HTTP."@,
        PortClash::HttpsPortUsedByHttp(p) => "Port "@ + decimal_text(p as nat)
            + " is already in use by HTTP. Please choose a different port for HTTPS."@,
    }
}

impl PortClash {
    /// The message the application stops with.
    pub fn message(&self) -> (r: String)
        ensures
            r@ == port_clash_message(*self),
    {
        let mut m = String::from_str("Port ");
        match self {
            PortClash::HttpPortUsedByHttps(p) => {
                let d = u64_to_decimal(*p as u64);
                m.append(d.as_str());
                m.append(" is already in use by HTTPS. Please choose a different port for HTTP.");
            },
            PortClash::HttpsPortUsedByHttp(p) => {
                let d = u64_to_decimal(*p as u64);
                m.append(d.as_str());
                m.append(" is already in use by HTTP. Please choose a different port for HTTPS.");
            },
        }
        proof {
            reveal_strlit("Port ");
        }
        m
    }
}

/// What the ports of a command line do to a builder: `--http-port` is added unless HTTPS
/// uses it; then `--https-port` with `--tls-cert` and `--tls-key` is handed back, to serve
/// once its certificate is loaded, unless HTTP uses it.
pub open spec fn command_line_ports(b: BuilderView, cli: Map<Seq<char>, Seq<char>>) -> (
    BuilderView,
    Result<Option<(u16, Seq<char>, Seq<char>)>, PortClash>,
) {
    let b1 = match port_setting(cli, "http-port"@) {
        Some(p) => BuilderView { http_port: b.http_port.insert(p), ..b },
        None => b,
    };
    match port_setting(cli, "http-port"@) {
        Some(p) if b.https_port.contains(p) => (b, Err(PortClash::HttpPortUsedByHttps(p))),
        _ => match https_setting(cli) {
            Some((q, cert, key)) => if b1.http_port.contains(q) {
                (b1, Err(PortClash::HttpsPortUsedByHttp(q)))
            } else {
                (b1, Ok(Some((q, cert, key))))
            },
            None => (b1, Ok(None)),
        },
    }
}

/// What an application builder holds, as sets.
pub struct BuilderView {
    pub name: Seq<char>,
    pub ip: Set<IpAddress>,
    pub http_port: Set<u16>,
    pub https_port: Set<u16>,
    pub has_tls: bool,
}

/// Collects where and how an application listens before it is built.
pub struct ApplicationBuilder {
    pub name: String,
    pub ip: Vec<IpAddress>,
    pub http_port: Vec<u16>,
    pub https_port: Vec<u16>,
    pub tls_config: Option<Arc<ServerConfig>>,
}

impl View for ApplicationBuilder {
    type V = BuilderView;

    open spec fn view(&self) -> BuilderView {
        BuilderView {
            name: self.name@,
            ip: self.ip@.to_set(),
            http_port: self.http_port@.to_set(),
            https_port: self.https_port@.to_set(),
            has_tls: self.tls_config is Some,
        }
    }
}

/// No port serves both HTTP and HTTPS.
pub open spec fn ports_disjoint(b: BuilderView) -> bool {
    b.http_port.disjoint(b.https_port)
}

/// After listening on every interface, naming one address listens on that address alone.
pub proof fn lemma_specific_ip_replaces_any(ip: IpAddress)
    ensures
        ips_with(set![any_v4(), any_v6()], ip) == set![ip],
{
}

/// HTTP and HTTPS ports stay apart whatever ports are added, since each addition
/// requires the port to be free of the other protocol.
pub proof fn lemma_ports_stay_disjoint(b: BuilderView, http: u16, https: u16)
    requires
        ports_disjoint(b),
        !b.https_port.contains(http),
    ensures
        ports_disjoint(BuilderView { http_port: b.http_port.insert(http), ..b }),
        !b.http_port.contains(https) ==> ports_disjoint(BuilderView { https_port: b.https_port.insert(https), ..b }),
{
}

impl ApplicationBuilder {
    /// A builder for the application `name` that listens nowhere yet.
    pub fn new(name: &str) -> (r: Self)
        ensures
            r@ == (BuilderView {
                name: name@,
                ip: Set::empty(),
                http_port: Set::empty(),
                https_port: Set::empty(),
                has_tls: false,
            }),
    {
        let r = ApplicationBuilder {
            name: String::from_str(name),
            ip: Vec::new(),
            http_port: Vec::new(),
            https_port: Vec::new(),
            tls_config: None,
        };
        assert(r.ip@.to_set() =~= Set::<IpAddress>::empty());
        assert(r.http_port@.to_set() =~= Set::<u16>::empty());
        assert(r.https_port@.to_set() =~= Set::<u16>::empty());
        r
    }

    fn clear_ips(&mut self)
        ensures
            final(self)@ == (BuilderView { ip: Set::empty(), ..old(self)@ }),
    {
        self.ip = Vec::new();
        assert(self.ip@.to_set() =~= Set::<IpAddress>::empty());
    }

    /// Listens on `ip`, in place of any address that stands for every interface.
    pub fn with_ip(&mut self, ip: IpAddress) -> (r: &mut Self)
        ensures
            (*r)@ == (BuilderView { ip: ips_with(old(self)@.ip, ip), ..old(self)@ }),
            *final(self) == *final(r),
    {
        if contains_ip(&self.ip, IpAddress::any_v4()) || contains_ip(&self.ip, IpAddress::any_v6()) {
            self.clear_ips();
        }
        insert_ip(&mut self.ip, ip);
        proof {
            if old(self)@.ip.contains(any_v4()) || old(self)@.ip.contains(any_v6()) {
                assert(Set::<IpAddress>::empty().insert(ip) =~= set![ip]);
            }
        }
        self
    }

    /// Listens on `127.0.0.1`, in place of any address that stands for every interface.
    pub fn with_loopback_ip(&mut self) -> (r: &mut Self)
        ensures
            (*r)@ == (BuilderView { ip: ips_with(old(self)@.ip, loopback_v4()), ..old(self)@ }),
            *final(self) == *final(r),
    {
        self.with_ip(IpAddress::loopback_v4())
    }

    /// Listens on every interface: `0.0.0.0` and `::`, and nothing else.
    pub fn with_any_ip(&mut self) -> (r: &mut Self)
        ensures
            (*r)@ == (BuilderView { ip: set![any_v4(), any_v6()], ..old(self)@ }),
            *final(self) == *final(r),
    {
        self.clear_ips();
        insert_ip(&mut self.ip, IpAddress::any_v4());
        insert_ip(&mut self.ip, IpAddress::any_v6());
        assert(Set::<IpAddress>::empty().insert(any_v4()).insert(any_v6()) =~= set![any_v4(), any_v6()]);
        self
    }

    /// Serves HTTP on `port`, which must not serve HTTPS.
    pub fn with_http_port(&mut self, port: u16) -> (r: &mut Self)
        requires
            !old(self)@.https_port.contains(port),
        ensures
            (*r)@ == (BuilderView { http_port: old(self)@.http_port.insert(port), ..old(self)@ }),
            (*r).tls_config == old(self).tls_config,
            ports_disjoint(old(self)@) ==> ports_disjoint((*r)@),
            *final(self) == *final(r),
    {
        insert_port(&mut self.http_port, port);
        self
    }

    /// Serves HTTPS on `port`, which must not serve HTTP, with the certificate and key in
    /// `tls_config`; every HTTPS port shares the last configuration given.
    pub fn with_https_port(&mut self, port: u16, tls_config: Arc<ServerConfig>) -> (r: &mut Self)
        requires
            !old(self)@.http_port.contains(port),
        ensures
            (*r)@ == (BuilderView {
                https_port: old(self)@.https_port.insert(port),
                has_tls: true,
                ..old(self)@
            }),
            (*r).tls_config == Some(tls_config),
            ports_disjoint(old(self)@) ==> ports_disjoint((*r)@),
            *final(self) == *final(r),
    {
        insert_port(&mut self.https_port, port);
        self.tls_config = Some(tls_config);
        self
    }

    /// Applies an `http-port` setting of the command line, when it holds a port.
    pub fn set_http_port(&mut self, cli: &StartupAppConfiguration)
        requires
            port_setting(cli@, "http-port"@) matches Some(p) ==> !old(self)@.https_port.contains(p),
        ensures
            final(self)@ == match port_setting(cli@, "http-port"@) {
                Some(p) => BuilderView { http_port: old(self)@.http_port.insert(p), ..old(self)@ },
                None => old(self)@,
            },
    {
        let key = "http-port";
        proof {
            reveal_strlit("http-port");
        }
        let parsed = cli.get_parsed::<u16>(key);
        proof {
            match parsed {
                Some(x) => {
                    assert(<u16 as crate::configuration::startup_app_config::FromDecimalStr>::int_value(x) == x as int);
                    assert(port_setting(cli@, "http-port"@) == Some(x));
                },
                None => {
                    if cli@.contains_key(key@) {
                        crate::extensions::number::lemma_parse_unsigned_nonneg(cli@[key@]);
                        if let Some(n) = parse_unsigned(cli@[key@]) {
                            assert(!<u16 as crate::configuration::startup_app_config::FromDecimalStr>::fits(n));
                        }
                    }
                    assert(port_setting(cli@, "http-port"@) is None);
                },
            }
        }
        match parsed {
            Some(port) => {
                self.with_http_port(port);
            },
            None => {},
        }
    }

    /// Applies the ports of the command line as `command_line_ports` says; the HTTPS port
    /// it hands back is the caller's to serve once the certificate and key are loaded.
    pub fn apply_command_line_ports(&mut self, cli: &StartupAppConfiguration) -> (r: Result<
        Option<(u16, String, String)>,
        PortClash,
    >)
        ensures
            final(self)@ == command_line_ports(old(self)@, cli@).0,
            final(self).tls_config == old(self).tls_config,
            match r {
                Ok(Some((q, cert, key))) => command_line_ports(old(self)@, cli@).1 == Ok::<
                    Option<(u16, Seq<char>, Seq<char>)>,
                    PortClash,
                >(Some((q, cert@, key@))),
                Ok(None) => command_line_ports(old(self)@, cli@).1 == Ok::<
                    Option<(u16, Seq<char>, Seq<char>)>,
                    PortClash,
                >(None),
                Err(e) => command_line_ports(old(self)@, cli@).1 == Err::<
                    Option<(u16, Seq<char>, Seq<char>)>,
                    PortClash,
                >(e),
            },
    {
        let key = "http-port";
        proof {
            reveal_strlit("http-port");
        }
        let parsed = cli.get_parsed::<u16>(key);
        proof {
            match parsed {
                Some(x) => {
                    assert(<u16 as crate::configuration::startup_app_config::FromDecimalStr>::int_value(x) == x as int);
                    assert(port_setting(cli@, "http-port"@) == Some(x));
                },
                None => {
                    if cli@.contains_key(key@) {
                        crate::extensions::number::lemma_parse_unsigned_nonneg(cli@[key@]);
                        if let Some(n) = parse_unsigned(cli@[key@]) {
                            assert(!<u16 as crate::configuration::startup_app_config::FromDecimalStr>::fits(n));
                        }
                    }
                    assert(port_setting(cli@, "http-port"@) is None);
                },
            }
        }
        if let Some(port) = parsed {
            if contains_port(&self.https_port, port) {
                return Err(PortClash::HttpPortUsedByHttps(port));
            }
            self.with_http_port(port);
        }
        match Self::https_setting(cli) {
            Some((q, cert, key)) => {
                if contains_port(&self.http_port, q) {
                    Err(PortClash::HttpsPortUsedByHttp(q))
                } else {
                    Ok(Some((q, cert, key)))
                }
            },
            None => Ok(None),
        }
    }

    /// The HTTPS port and the certificate and key files the command line names, when it
    /// names all three; loading the files is the caller's.
    pub fn https_setting(cli: &StartupAppConfiguration) -> (r: Option<(u16, String, String)>)
        ensures
            match r {
                Some((p, cert, key)) => https_setting(cli@) == Some((p, cert@, key@)),
                None => https_setting(cli@) is None,
            },
    {
        let port_key = "https-port";
        let cert_key = "tls-cert";
        let key_key = "tls-key";
        proof {
            reveal_strlit("https-port");
            reveal_strlit("tls-cert");
            reveal_strlit("tls-key");
        }
        let parsed = cli.get_parsed::<u16>(port_key);
        proof {
            match parsed {
                Some(x) => {
                    assert(<u16 as crate::configuration::startup_app_config::FromDecimalStr>::int_value(x) == x as int);
                    assert(port_setting(cli@, "https-port"@) == Some(x));
                },
                None => {
                    if cli@.contains_key(port_key@) {
                        crate::extensions::number::lemma_parse_unsigned_nonneg(cli@[port_key@]);
                        if let Some(n) = parse_unsigned(cli@[port_key@]) {
                            assert(!<u16 as crate::configuration::startup_app_config::FromDecimalStr>::fits(n));
                        }
                    }
                    assert(port_setting(cli@, "https-port"@) is None);
                },
            }
        }
        match parsed {
            Some(port) => match cli.get(cert_key) {
                Some(cert) => match cli.get(key_key) {
                    Some(key) => Some((port, String::from_str(cert), String::from_str(key))),
                    None => None,
                },
                None => None,
            },
            None => None,
        }
    }

    /// The application, with a fresh run identifier, once the dependencies between the
    /// registered services were checked for cycles, in every build profile: the report of
    /// a cycle when there is one.
    pub fn build(self, edges: &Vec<DependencyEdge>, registered: &HashSet<u64>) -> (r: Result<Application, String>)
        ensures
            r is Ok <==> !has_dependency_cycle(edges@, registered@),
            r matches Err(m) ==> exists|c: Seq<u64>|
                is_dependency_cycle(edges@, registered@, c) && c.drop_last().no_duplicates() && m@ == cycle_report(
                    edges@,
                    c,
                ),
            r matches Ok(a) ==> a@ == (crate::application::application::ApplicationView {
                name: self@.name,
                ip: self@.ip,
                http_port: self@.http_port,
                https_port: self@.https_port,
                has_tls: self@.has_tls,
            }) && a.tls_config == self.tls_config,
    {
        match check_dependency_cycles(edges, registered) {
            Ok(()) => Ok(
                Application::from_builder(self.name, self.ip, self.http_port, self.https_port, self.tls_config),
            ),
            Err(m) => Err(m),
        }
    }
}

/// A specific address takes the place of an address that stands for every interface:
/// after `0.0.0.0` alone, or `::` alone, or both, the addresses are exactly the new one;
/// without either, the new address joins the others.
pub proof fn lemma_ip_replaces_wildcard(ips: Set<IpAddress>, ip: IpAddress)
    ensures
        ips.contains(IpAddress::V4(0, 0, 0, 0)) ==> ips_with(ips, ip) == set![ip],
        ips.contains(IpAddress::V6(0, 0, 0, 0, 0, 0, 0, 0)) ==> ips_with(ips, ip) == set![ip],
        !ips.contains(IpAddress::V4(0, 0, 0, 0)) && !ips.contains(IpAddress::V6(0, 0, 0, 0, 0, 0, 0, 0))
            ==> ips_with(ips, ip) == ips.insert(ip),
        ips_with(ips, ip).contains(ip),
{
}

/// An HTTP port from the command line that the builder already serves over HTTPS is
/// refused with that port, and the builder is left as it was; a port that HTTPS does not
/// use is added to the HTTP ports, and an HTTPS port that HTTP then uses is refused.
pub proof fn lemma_command_line_port_clash(b: BuilderView, cli: Map<Seq<char>, Seq<char>>, p: u16)
    requires
        port_setting(cli, "http-port"@) == Some(p),
    ensures
        b.https_port.contains(p) ==> command_line_ports(b, cli).0 == b,
        b.https_port.contains(p) ==> command_line_ports(b, cli).1 == Err::<
            Option<(u16, Seq<char>, Seq<char>)>,
            PortClash,
        >(PortClash::HttpPortUsedByHttps(p)),
        !b.https_port.contains(p) ==> command_line_ports(b, cli).0.http_port == b.http_port.insert(p),
        !b.https_port.contains(p) ==> command_line_ports(b, cli).0.https_port == b.https_port,
        !b.https_port.contains(p) && https_setting(cli) is Some && b.http_port.insert(p).contains(
            https_setting(cli)->Some_0.0,
        ) ==> command_line_ports(b, cli).1 == Err::<Option<(u16, Seq<char>, Seq<char>)>, PortClash>(
            PortClash::HttpsPortUsedByHttp(https_setting(cli)->Some_0.0),
        ),
{
}

} // verus!
