//! Value objects of the attachment protocol: configuration documents read
//! on standard input, the success and error documents written back, and
//! the protocol's common error codes.
//!
//! The documents travel as JSON; this module holds their bare shapes.
//! Open-ended document parts (plugin capabilities and unrecognized keys)
//! are carried as [`Json`] values.

use vstd::prelude::*;

verus! {

/// A JSON document value.  Numbers are kept as their raw token text, which
/// keeps every digit the document carried.
#[derive(Debug)]
pub enum Json {
    Null,
    Bool(bool),
    Num(String),
    Str(String),
    Arr(Vec<Json>),
    Obj(Vec<(String, Json)>),
}

/// DNS configuration information carried through results.
#[derive(Debug, Clone)]
pub struct Dns {
    pub nameservers: Option<Vec<String>>,
    pub domain: Option<String>,
    pub search: Option<Vec<String>>,
    pub options: Option<Vec<String>>,
}

pub open spec fn is_empty_dns(d: &Dns) -> bool {
    &&& d.nameservers is None
    &&& d.domain is None
    &&& d.search is None
    &&& d.options is None
}

impl Default for Dns {
    /// An empty DNS record: no field set.
    fn default() -> (r: Dns)
        ensures
            is_empty_dns(&r),
    {
        Dns { nameservers: None, domain: None, search: None, options: None }
    }
}

/// An interface record in a result document.
#[derive(Debug, Clone)]
pub struct Interface {
    pub name: String,
    pub mac: Option<String>,
    pub sandbox: Option<String>,
}

/// An address assignment in a result document: address in CIDR notation,
/// its gateway, and optionally the interface it applies to.
#[derive(Debug, Clone)]
pub struct Ip {
    pub address: String,
    pub gateway: String,
    pub interface: Option<u64>,
}

/// A route in a result document.
#[derive(Debug, Clone)]
pub struct Route {
    pub dst: String,
    pub gw: Option<String>,
}

/// The document written on a successful operation.
#[derive(Debug, Clone)]
pub struct Success {
    pub cni_version: String,
    pub interfaces: Option<Vec<Interface>>,
    pub ips: Vec<Ip>,
    pub routes: Vec<Route>,
    pub dns: Dns,
}

pub open spec fn is_empty_success(s: &Success) -> bool {
    &&& s.cni_version@ == Seq::<char>::empty()
    &&& s.interfaces is None
    &&& s.ips@.len() == 0
    &&& s.routes@.len() == 0
    &&& is_empty_dns(&s.dns)
}

impl Default for Success {
    /// An empty result document: no interfaces, addresses or routes.
    fn default() -> (r: Success)
        ensures
            is_empty_success(&r),
    {
        Success {
            cni_version: String::new(),
            interfaces: None,
            ips: Vec::new(),
            routes: Vec::new(),
            dns: Dns::default(),
        }
    }
}

/// Delegate address-management configuration: the executable name and
/// whatever further keys the document carried.
#[derive(Debug)]
pub struct Ipam {
    pub type_: String,
    pub other: Vec<(String, Json)>,
}

/// One plugin's configuration entry.
#[derive(Debug)]
pub struct PluginConfig {
    pub type_: String,
    pub capabilities: Option<Vec<(String, Json)>>,
    pub ip_masquerade: Option<bool>,
    pub ipam: Option<Ipam>,
    pub dns: Option<Dns>,
    pub prev_result: Option<Success>,
    pub extra: Vec<(String, Json)>,
}

/// The administrator-facing configuration document: a named network with a
/// list of plugin entries.
#[derive(Debug)]
pub struct Config {
    pub cni_version: String,
    pub name: String,
    pub disable_check: Option<bool>,
    pub plugins: Vec<PluginConfig>,
}

/// The per-invocation configuration document handed to one plugin, with
/// that plugin's entry flattened into it.
#[derive(Debug)]
pub struct NetworkConfig {
    pub cni_version: String,
    pub name: String,
    pub disable_check: Option<bool>,
    pub plugin: PluginConfig,
}

/// The document written when an operation fails.
#[derive(Debug, Clone)]
pub struct Error {
    pub code: u64,
    pub msg: String,
    pub details: Option<String>,
}

/// The protocol's reserved well-known error codes.
#[derive(Debug, Copy, Clone)]
pub enum ErrorCode {
    IncompatibleCniVersion,
    UnsupportedConfigField,
    ContainerUnknown,
    InvalidEnvironmentVars,
    IoFailure,
    FailedToDecodeContent,
    InvalidNetworkConfig,
    TryAgainLater,
}

/// The numeric value each well-known error code is reported as.
pub open spec fn spec_code_value(c: ErrorCode) -> u64 {
    match c {
        ErrorCode::IncompatibleCniVersion => 1,
        ErrorCode::UnsupportedConfigField => 2,
        ErrorCode::ContainerUnknown => 3,
        ErrorCode::InvalidEnvironmentVars => 4,
        ErrorCode::IoFailure => 5,
        ErrorCode::FailedToDecodeContent => 6,
        ErrorCode::InvalidNetworkConfig => 7,
        ErrorCode::TryAgainLater => 11,
    }
}

impl ErrorCode {
    /// The numeric value this code is reported as.
    pub fn value(&self) -> (v: u64)
        ensures
            v == spec_code_value(*self),
    {
        match *self {
            ErrorCode::IncompatibleCniVersion => 1,
            ErrorCode::UnsupportedConfigField => 2,
            ErrorCode::ContainerUnknown => 3,
            ErrorCode::InvalidEnvironmentVars => 4,
            ErrorCode::IoFailure => 5,
            ErrorCode::FailedToDecodeContent => 6,
            ErrorCode::InvalidNetworkConfig => 7,
            ErrorCode::TryAgainLater => 11,
        }
    }
}

impl Error {
    /// An error document carrying one of the well-known codes.
    pub fn new(code: ErrorCode, msg: String, details: Option<String>) -> (r: Error)
        ensures
            r.code == spec_code_value(code),
            r.msg == msg,
            r.details == details,
    {
        Error { code: code.value(), msg, details }
    }

    /// An error document with an explicit, plugin-chosen code.
    pub fn new_custom(code: u64, msg: String, details: Option<String>) -> (r: Error)
        ensures
            r.code == code,
            r.msg == msg,
            r.details == details,
    {
        Error { code, msg, details }
    }
}

} // verus!
