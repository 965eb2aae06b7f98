//! The interactive-brokers adapter's configuration and its connection state.
//! The live gateway socket is not part of this build, so the broker reports
//! itself disconnected and refuses to act until connected.
use vstd::prelude::*;

use crate::error::SovereignError;
use crate::text::{parse_i32, parse_u16, spec_parse_i32, spec_parse_u16, string_of};

verus! {

/// A broker-assigned order id.
#[derive(Debug, Clone, Copy, PartialEq, Eq, Structural)]
pub struct OrderId(pub u64);

/// Gateway connection settings.
#[derive(Debug, Clone)]
pub struct IbkrConfig {
    pub host: String,
    pub port: u16,
    pub client_id: i32,
    pub account: Option<String>,
}

/// The raw values of `IBKR_HOST`, `IBKR_PORT`, `IBKR_CLIENT_ID` and
/// `IBKR_ACCOUNT`.
#[derive(Debug, Clone, Default)]
pub struct IbkrEnv {
    pub host: Option<String>,
    pub port: Option<String>,
    pub client_id: Option<String>,
    pub account: Option<String>,
}

/// A non-empty value of a variable.
pub open spec fn nonempty(v: Option<String>) -> Option<Seq<char>> {
    match v {
        Some(s) => if s@.len() > 0 {
            Some(s@)
        } else {
            None
        },
        None => None,
    }
}

impl Default for IbkrConfig {
    /// TWS paper trading on the local host (7497 = TWS paper, 7496 = TWS
    /// live, 4002/4001 = gateway paper/live).
    fn default() -> (c: Self)
        ensures
            c.host@ == "127.0.0.1"@,
            c.port == 7497,
            c.client_id == 1,
            c.account is None,
    {
        IbkrConfig { host: string_of("127.0.0.1"), port: 7497, client_id: 1, account: None }
    }
}

/// A copy of `v` when it is not empty.
fn nonempty_value(v: &Option<String>) -> (r: Option<String>)
    ensures
        match nonempty(*v) {
            Some(s) => r is Some && r->0@ == s,
            None => r is None,
        },
{
    match v {
        Some(s) => {
            if crate::text::string_chars(s).len() > 0 {
                Some(s.clone())
            } else {
                None
            }
        },
        None => None,
    }
}

impl IbkrConfig {
    /// Resolve the settings from the environment's values: a non-empty host
    /// and account are taken as they are, the port and client id when they
    /// parse as numbers; everything else keeps its default.
    pub fn from_env_values(env: &IbkrEnv) -> (c: Self)
        ensures
            c.host@ == match nonempty(env.host) {
                Some(h) => h,
                None => "127.0.0.1"@,
            },
            c.port == match env.port {
                Some(p) => match spec_parse_u16(p@) {
                    Some(v) => v,
                    None => 7497,
                },
                None => 7497,
            },
            c.client_id == match env.client_id {
                Some(p) => match spec_parse_i32(p@) {
                    Some(v) => v,
                    None => 1,
                },
                None => 1,
            },
            match nonempty(env.account) {
                Some(a) => c.account is Some && c.account->0@ == a,
                None => c.account is None,
            },
    {
        let d = IbkrConfig::default();
        let host = match nonempty_value(&env.host) {
            Some(h) => h,
            None => d.host,
        };
        let port = match &env.port {
            Some(p) => match parse_u16(p.as_str()) {
                Some(v) => v,
                None => d.port,
            },
            None => d.port,
        };
        let client_id = match &env.client_id {
            Some(p) => match parse_i32(p.as_str()) {
                Some(v) => v,
                None => d.client_id,
            },
            None => d.client_id,
        };
        let account = nonempty_value(&env.account);
        IbkrConfig { host, port, client_id, account }
    }
}

/// The interactive-brokers broker adapter.
#[derive(Debug)]
pub struct IbkrBroker {
    pub config: IbkrConfig,
    connected: bool,
}

impl IbkrBroker {
    /// Whether the live gateway connection is up.
    pub closed spec fn spec_connected(&self) -> bool {
        self.connected
    }

    /// The broker's settings.
    pub closed spec fn spec_config(&self) -> IbkrConfig {
        self.config
    }

    /// A disconnected broker with the given settings.
    pub fn new(config: IbkrConfig) -> (b: Self)
        ensures
            b.spec_config() == config,
            !b.spec_connected(),
    {
        IbkrBroker { config, connected: false }
    }

    /// The broker's name.
    pub fn name(&self) -> (s: &'static str)
        ensures
            s@ == "ibkr"@,
    {
        "ibkr"
    }

    /// Whether the live gateway connection is up.
    pub fn is_connected(&self) -> (b: bool)
        ensures
            b == self.spec_connected(),
    {
        self.connected
    }

    /// The error every order, account or position request gets while the
    /// broker is not connected.
    pub fn not_connected(&self) -> (e: SovereignError)
        ensures
            e matches SovereignError::Halted(m) && m@
                == "IBKR broker not connected — call connect() with a live gateway"@,
    {
        SovereignError::Halted(string_of("IBKR broker not connected — call connect() with a live gateway"))
    }
}

} // verus!
