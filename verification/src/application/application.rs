use rustls::ServerConfig;
use std::sync::Arc;
use uuid::Uuid;
use vstd::prelude::*;

use crate::application::builder::ApplicationBuilder;
use crate::application::ip_address::{contains_ip, insert_ip, insert_port, loopback_v4, IpAddress};

verus! {

/// `uuid::Uuid`, held opaque.
#[verifier::external_type_specification]
#[verifier::external_body]
pub struct ExUuid(Uuid);

/// `Uuid::now_v7`: a version 7 identifier made from the current time and random bits.
/// Nothing is stated of its value.
#[verifier::external_body]
fn new_runner_id() -> Uuid {
    Uuid::now_v7()
}

/// What an application holds, as sets.
pub struct ApplicationView {
    pub name: Seq<char>,
    pub ip: Set<IpAddress>,
    pub http_port: Set<u16>,
    pub https_port: Set<u16>,
    pub has_tls: bool,
}

/// An application ready to run.
pub struct Application {
    pub name: String,
    pub runner_id: Uuid,
    pub ip: Vec<IpAddress>,
    pub http_port: Vec<u16>,
    pub https_port: Vec<u16>,
    pub tls_config: Option<Arc<ServerConfig>>,
}

impl View for Application {
    type V = ApplicationView;

    open spec fn view(&self) -> ApplicationView {
        ApplicationView {
            name: self.name@,
            ip: self.ip@.to_set(),
            http_port: self.http_port@.to_set(),
            https_port: self.https_port@.to_set(),
            has_tls: self.tls_config is Some,
        }
    }
}

/// Where an application listens once it runs: `127.0.0.1` when no address was given, and
/// HTTP on `8080` when no HTTP port was.
pub open spec fn with_listen_defaults(a: ApplicationView) -> ApplicationView {
    ApplicationView {
        ip: if a.ip.is_empty() {
            set![loopback_v4()]
        } else {
            a.ip
        },
        http_port: if a.http_port.is_empty() {
            set![8080u16]
        } else {
            a.http_port
        },
        ..a
    }
}

impl Application {
    /// A builder for the application `name`.
    pub fn new(name: &str) -> (r: ApplicationBuilder)
        ensures
            r@.name == name@,
            r@.ip.is_empty(),
            r@.http_port.is_empty(),
            r@.https_port.is_empty(),
            !r@.has_tls,
    {
        ApplicationBuilder::new(name)
    }

    pub fn from_builder(
        name: String,
        ip: Vec<IpAddress>,
        http_port: Vec<u16>,
        https_port: Vec<u16>,
        tls_config: Option<Arc<ServerConfig>>,
    ) -> (r: Self)
        ensures
            r.name@ == name@,
            r.ip@ == ip@,
            r.http_port@ == http_port@,
            r.https_port@ == https_port@,
            r.tls_config == tls_config,
    {
        Application { name, runner_id: new_runner_id(), ip, http_port, https_port, tls_config }
    }

    /// Fills in where to listen when nothing was given, as running the application does
    /// first: `127.0.0.1`, and HTTP on `8080`.
    pub fn ensure_listen_defaults(&mut self)
        ensures
            final(self)@ == with_listen_defaults(old(self)@),
            !final(self)@.ip.is_empty(),
            !final(self)@.http_port.is_empty(),
    {
        if self.ip.len() == 0 {
            assert(self.ip@.to_set() =~= Set::<IpAddress>::empty());
            insert_ip(&mut self.ip, IpAddress::loopback_v4());
            assert(Set::<IpAddress>::empty().insert(loopback_v4()) =~= set![loopback_v4()]);
        } else {
            assert(self.ip@.to_set().contains(self.ip@[0]));
        }
        if self.http_port.len() == 0 {
            assert(self.http_port@.to_set() =~= Set::<u16>::empty());
            insert_port(&mut self.http_port, 8080);
            assert(Set::<u16>::empty().insert(8080u16) =~= set![8080u16]);
        } else {
            assert(self.http_port@.to_set().contains(self.http_port@[0]));
        }
    }

    /// Whether the application serves HTTPS.
    pub fn serves_https(&self) -> (r: bool)
        ensures
            r == !self@.https_port.is_empty(),
    {
        if self.https_port.len() > 0 {
            assert(self@.https_port.contains(self.https_port@[0]));
        } else {
            assert(self.https_port@.to_set() =~= Set::<u16>::empty());
        }
        self.https_port.len() > 0
    }
}

} // verus!
