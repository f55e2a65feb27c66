//! Mutable runtime configuration of the agent: where to connect, how often,
//! with what timeout, and whether to stay quiet.

use vstd::prelude::*;

verus! {

/// A span of time, kept as whole seconds plus a millisecond remainder.
pub struct Duration {
    secs: u64,
    millis: u32,
}

impl Duration {
    #[verifier::type_invariant]
    spec fn inv(&self) -> bool {
        self.millis < 1000
    }

    /// The whole span in milliseconds.
    pub closed spec fn spec_millis(&self) -> int {
        self.secs * 1000 + self.millis
    }

    pub fn from_millis(ms: u64) -> (r: Self)
        ensures
            r.spec_millis() == ms,
    {
        let r = Duration { secs: ms / 1000, millis: (ms % 1000) as u32 };
        proof {
            assert(r.secs * 1000 + r.millis == ms) by (nonlinear_arith)
                requires
                    r.secs == ms / 1000,
                    r.millis == ms % 1000,
            ;
        }
        r
    }

    pub fn from_secs(secs: u64) -> (r: Self)
        ensures
            r.spec_millis() == secs * 1000,
    {
        Duration { secs, millis: 0 }
    }

    pub fn as_secs(&self) -> (r: u64)
        ensures
            r == self.spec_millis() / 1000,
    {
        proof {
            use_type_invariant(self);
            assert((self.secs * 1000 + self.millis) / 1000 == self.secs) by (nonlinear_arith)
                requires
                    self.millis < 1000,
            ;
        }
        self.secs
    }

    /// The millisecond remainder below one second.
    pub fn subsec_millis(&self) -> (r: u32)
        ensures
            r == self.spec_millis() % 1000,
    {
        proof {
            use_type_invariant(self);
            assert((self.secs * 1000 + self.millis) % 1000 == self.millis) by (nonlinear_arith)
                requires
                    self.millis < 1000,
            ;
        }
        self.millis
    }
}

/// The unit a poll period was given in.
pub enum TimeUnit {
    Milliseconds,
    Seconds,
    Minutes,
    Hours,
    Days,
}

/// How often the agent polls: a value and its unit.
pub struct Period {
    pub value: u64,
    pub unit: TimeUnit,
}

/// How many milliseconds one unit is worth.
pub open spec fn unit_millis(unit: TimeUnit) -> int {
    match unit {
        TimeUnit::Milliseconds => 1,
        TimeUnit::Seconds => 1000,
        TimeUnit::Minutes => 60000,
        TimeUnit::Hours => 3600000,
        TimeUnit::Days => 86400000,
    }
}

impl Period {
    /// The period in milliseconds.
    pub open spec fn spec_millis(&self) -> int {
        self.value * unit_millis(self.unit)
    }

    /// Whether the period's whole-second count fits the machine word that
    /// [`Period::to_duration`] computes it in.
    pub open spec fn fits(&self) -> bool {
        match self.unit {
            TimeUnit::Milliseconds => true,
            TimeUnit::Seconds => true,
            TimeUnit::Minutes => self.value * 60 <= u64::MAX,
            TimeUnit::Hours => self.value * 3600 <= u64::MAX,
            TimeUnit::Days => self.value * 86400 <= u64::MAX,
        }
    }

    pub fn new(value: u64, unit: TimeUnit) -> (r: Self)
        ensures
            r.value == value,
            r.unit == unit,
    {
        Period { value, unit }
    }

    pub fn to_duration(&self) -> (r: Duration)
        requires
            self.fits(),
        ensures
            r.spec_millis() == self.spec_millis(),
    {
        match self.unit {
            TimeUnit::Milliseconds => Duration::from_millis(self.value),
            TimeUnit::Seconds => Duration::from_secs(self.value),
            TimeUnit::Minutes => Duration::from_secs(self.value * 60),
            TimeUnit::Hours => Duration::from_secs(self.value * 60 * 60),
            TimeUnit::Days => Duration::from_secs(self.value * 60 * 60 * 24),
        }
    }
}

/// The spec-level image of a [`ServerInfo`].
pub struct ServerModel {
    pub address: Seq<char>,
    pub port: u16,
}

/// Where the agent connects: a host address and a port.
pub struct ServerInfo {
    pub address: String,
    pub port: u16,
}

impl View for ServerInfo {
    type V = ServerModel;

    open spec fn view(&self) -> ServerModel {
        ServerModel { address: self.address@, port: self.port }
    }
}

impl ServerInfo {
    pub fn new(address: &str, port: u16) -> (r: Self)
        ensures
            r@.address == address@,
            r@.port == port,
    {
        ServerInfo { address: address.to_owned(), port }
    }
}

/// The spec-level image of a [`Config`].
pub struct ConfigModel {
    pub server: ServerModel,
    pub timeout: u64,
    pub request_period: Period,
    pub silent_mode: bool,
}

/// The agent's mutable runtime parameters. One instance lives for the whole
/// process and changes only through successful setting application.
pub struct Config {
    pub server: ServerInfo,
    pub timeout: u64,
    pub request_period: Period,
    pub silent_mode: bool,
}

impl View for Config {
    type V = ConfigModel;

    open spec fn view(&self) -> ConfigModel {
        ConfigModel {
            server: self.server@,
            timeout: self.timeout,
            request_period: self.request_period,
            silent_mode: self.silent_mode,
        }
    }
}

impl Config {
    pub fn new(server: ServerInfo, timeout: u64, request_period: Period, silent_mode: bool) -> (r:
        Self)
        ensures
            r@.server == server@,
            r@.timeout == timeout,
            r@.request_period == request_period,
            r@.silent_mode == silent_mode,
    {
        Config { server, timeout, request_period, silent_mode }
    }

    pub fn set_period(&mut self, period: Period)
        ensures
            final(self)@ == (ConfigModel { request_period: period, ..old(self)@ }),
    {
        self.request_period = period;
    }

    pub fn set_server_info(&mut self, server: ServerInfo)
        ensures
            final(self)@ == (ConfigModel { server: server@, ..old(self)@ }),
    {
        self.server = server;
    }

    pub fn set_timeout(&mut self, timeout: u64)
        ensures
            final(self)@ == (ConfigModel { timeout, ..old(self)@ }),
    {
        self.timeout = timeout;
    }

    pub fn set_silent_mode(&mut self, silent_mode: bool)
        ensures
            final(self)@ == (ConfigModel { silent_mode, ..old(self)@ }),
    {
        self.silent_mode = silent_mode;
    }
}

} // verus!
