//! The setting half of an instruction: a key/value pair that is validated
//! and, on success, mutates the configuration in place.

use vstd::prelude::*;
use vstd::string::StrSliceExecFns;
use vstd::string::StringExecFns;

use crate::config::{Config, ConfigModel, Period, ServerInfo, ServerModel, TimeUnit};
use crate::instruction_output::InstructionOutput;
use crate::text::{
    dec_value, is_u16_digits, is_u64_digits, parse_u16_digits, parse_u64_digits, split_tokens,
    split_whitespace_str, str_eq,
};

verus! {

/// Why a setting value was rejected. The configuration is never changed on
/// rejection.
#[derive(Clone, Copy, Debug, PartialEq, Eq)]
pub enum SettingError {
    InvalidPeriodValue,
    InvalidPeriodUnit,
    InvalidServerAddress,
    InvalidServerPort,
    InvalidPortValue,
    InvalidTimeoutValue,
    InvalidSilentModeValue,
}

impl SettingError {
    /// What each rejection says of itself.
    pub open spec fn spec_message(&self) -> Seq<char> {
        match self {
            SettingError::InvalidPeriodValue => "Invalid period value"@,
            SettingError::InvalidPeriodUnit => "Invalid period unit"@,
            SettingError::InvalidServerAddress => "Invalid server address"@,
            SettingError::InvalidServerPort => "Invalid server port"@,
            SettingError::InvalidPortValue => "Invalid port value"@,
            SettingError::InvalidTimeoutValue => "Invalid timeout value"@,
            SettingError::InvalidSilentModeValue => "Invalid silent mode value"@,
        }
    }

    pub fn message(&self) -> (r: String)
        ensures
            r@ == self.spec_message(),
    {
        match self {
            SettingError::InvalidPeriodValue => "Invalid period value".to_owned(),
            SettingError::InvalidPeriodUnit => "Invalid period unit".to_owned(),
            SettingError::InvalidServerAddress => "Invalid server address".to_owned(),
            SettingError::InvalidServerPort => "Invalid server port".to_owned(),
            SettingError::InvalidPortValue => "Invalid port value".to_owned(),
            SettingError::InvalidTimeoutValue => "Invalid timeout value".to_owned(),
            SettingError::InvalidSilentModeValue => "Invalid silent mode value".to_owned(),
        }
    }
}

/// The unit token of a period value; an unrecognized unit defaults to
/// seconds.
pub open spec fn unit_of(u: Seq<char>) -> TimeUnit {
    if u == "ms"@ {
        TimeUnit::Milliseconds
    } else if u == "s"@ {
        TimeUnit::Seconds
    } else if u == "m"@ {
        TimeUnit::Minutes
    } else if u == "h"@ {
        TimeUnit::Hours
    } else if u == "d"@ {
        TimeUnit::Days
    } else {
        TimeUnit::Seconds
    }
}

/// What a period value parses to: `<uint> <unit>` from the first two
/// whitespace tokens, or the error naming the missing or malformed part.
pub open spec fn period_result(value: Seq<char>) -> Result<Period, SettingError> {
    let ts = split_tokens(value);
    if ts.len() == 0 || !is_u64_digits(ts[0]) {
        Err(SettingError::InvalidPeriodValue)
    } else if ts.len() < 2 {
        Err(SettingError::InvalidPeriodUnit)
    } else {
        Ok(Period { value: dec_value(ts[0]) as u64, unit: unit_of(ts[1]) })
    }
}

/// What a server value parses to: `<address> <uint16-port>` from the first
/// two whitespace tokens, or the error naming the missing or malformed part.
pub open spec fn server_result(value: Seq<char>) -> Result<ServerModel, SettingError> {
    let ts = split_tokens(value);
    if ts.len() == 0 {
        Err(SettingError::InvalidServerAddress)
    } else if ts.len() < 2 {
        Err(SettingError::InvalidServerPort)
    } else if !is_u16_digits(ts[1]) {
        Err(SettingError::InvalidPortValue)
    } else {
        Ok(ServerModel { address: ts[0], port: dec_value(ts[1]) as u16 })
    }
}

/// What a timeout value parses to: the whole value text as a base-ten
/// millisecond count.
pub open spec fn timeout_result(value: Seq<char>) -> Result<u64, SettingError> {
    if is_u64_digits(value) {
        Ok(dec_value(value) as u64)
    } else {
        Err(SettingError::InvalidTimeoutValue)
    }
}

/// What a silent-mode value parses to: exactly `true` or `false`.
pub open spec fn silent_result(value: Seq<char>) -> Result<bool, SettingError> {
    if value == "true"@ {
        Ok(true)
    } else if value == "false"@ {
        Ok(false)
    } else {
        Err(SettingError::InvalidSilentModeValue)
    }
}

/// Whether a setting is accepted, and if not, why. An unrecognized key is
/// accepted as a no-op.
pub open spec fn setting_result(key: Seq<char>, value: Seq<char>) -> Result<(), SettingError> {
    if key == "period"@ {
        match period_result(value) {
            Ok(_) => Ok(()),
            Err(e) => Err(e),
        }
    } else if key == "server"@ {
        match server_result(value) {
            Ok(_) => Ok(()),
            Err(e) => Err(e),
        }
    } else if key == "timeout"@ {
        match timeout_result(value) {
            Ok(_) => Ok(()),
            Err(e) => Err(e),
        }
    } else if key == "silent"@ {
        match silent_result(value) {
            Ok(_) => Ok(()),
            Err(e) => Err(e),
        }
    } else {
        Ok(())
    }
}

/// The configuration after a setting is applied: the matching field
/// replaced on success, everything as it was otherwise.
pub open spec fn applied_config(key: Seq<char>, value: Seq<char>, cfg: ConfigModel) -> ConfigModel {
    if key == "period"@ && period_result(value) is Ok {
        ConfigModel { request_period: period_result(value)->Ok_0, ..cfg }
    } else if key == "server"@ && server_result(value) is Ok {
        ConfigModel { server: server_result(value)->Ok_0, ..cfg }
    } else if key == "timeout"@ && timeout_result(value) is Ok {
        ConfigModel { timeout: timeout_result(value)->Ok_0, ..cfg }
    } else if key == "silent"@ && silent_result(value) is Ok {
        ConfigModel { silent_mode: silent_result(value)->Ok_0, ..cfg }
    } else {
        cfg
    }
}

/// The confirmation text of an accepted setting, a function of key and
/// value alone.
pub open spec fn confirmation_of(key: Seq<char>, value: Seq<char>) -> Seq<char> {
    "Setting "@ + key + " to "@ + value + "\n"@
}

/// The failure text of a rejected setting, a function of key and value
/// alone.
pub open spec fn failure_text_of(key: Seq<char>, value: Seq<char>) -> Seq<char> {
    "failed to apply setting "@ + key + " to "@ + value
}

/// Applying a setting a second time leaves the configuration exactly where
/// the first application put it: the accepted value replaces its field with
/// a function of key and value alone, so a repeat changes nothing further.
/// The confirmation text repeats as well, [`confirmation_of`] being a
/// function of key and value alone.
pub proof fn lemma_apply_setting_idempotent(key: Seq<char>, value: Seq<char>, cfg: ConfigModel)
    ensures
        applied_config(key, value, applied_config(key, value, cfg)) == applied_config(
            key,
            value,
            cfg,
        ),
{
}

proof fn lemma_keys_distinct()
    ensures
        "period"@ != "server"@,
        "period"@ != "timeout"@,
        "period"@ != "silent"@,
        "server"@ != "timeout"@,
        "server"@ != "silent"@,
        "timeout"@ != "silent"@,
{
    reveal_strlit("period");
    reveal_strlit("server");
    reveal_strlit("timeout");
    reveal_strlit("silent");
    assert("period"@.len() == 6);
    assert("timeout"@.len() == 7);
    assert("server"@.len() == 6);
    assert("silent"@.len() == 6);
    assert("period"@[0] == 'p');
    assert("server"@[0] == 's');
    assert("silent"@[0] == 's');
    assert("server"@[1] == 'e');
    assert("silent"@[1] == 'i');
    assert("period"@ != "server"@);
    assert("period"@ != "silent"@);
    assert("server"@ != "silent"@);
}

/// A key/value setting request, as received from the remote side.
pub struct ReceivedSetting {
    key: String,
    value: String,
}

/// The spec-level image of a [`ReceivedSetting`].
pub struct SettingModel {
    pub key: Seq<char>,
    pub value: Seq<char>,
}

impl View for ReceivedSetting {
    type V = SettingModel;

    closed spec fn view(&self) -> SettingModel {
        SettingModel { key: self.key@, value: self.value@ }
    }
}

fn unit_from_str(u: &str) -> (r: TimeUnit)
    ensures
        r == unit_of(u@),
{
    if str_eq(u, "ms") {
        TimeUnit::Milliseconds
    } else if str_eq(u, "s") {
        TimeUnit::Seconds
    } else if str_eq(u, "m") {
        TimeUnit::Minutes
    } else if str_eq(u, "h") {
        TimeUnit::Hours
    } else if str_eq(u, "d") {
        TimeUnit::Days
    } else {
        TimeUnit::Seconds
    }
}

impl ReceivedSetting {
    pub fn from_string(key: String, value: String) -> (r: Self)
        ensures
            r@.key == key@,
            r@.value == value@,
    {
        ReceivedSetting { key, value }
    }

    /// Reads the value as a poll period, `<uint> <unit>`.
    pub fn parse_period(&self) -> (r: Result<Period, SettingError>)
        ensures
            r == period_result(self@.value),
    {
        let ts = split_whitespace_str(self.value.as_str());
        if ts.len() == 0 {
            return Err(SettingError::InvalidPeriodValue);
        }
        let v: u64 = match parse_u64_digits(ts[0].as_str()) {
            Some(v) => v,
            None => {
                return Err(SettingError::InvalidPeriodValue);
            },
        };
        if ts.len() < 2 {
            return Err(SettingError::InvalidPeriodUnit);
        }
        let unit = unit_from_str(ts[1].as_str());
        Ok(Period::new(v, unit))
    }

    /// Reads the value as a server target, `<address> <uint16-port>`.
    pub fn parse_server_info(&self) -> (r: Result<ServerInfo, SettingError>)
        ensures
            r is Ok <==> server_result(self@.value) is Ok,
            r is Ok ==> r->Ok_0@ == server_result(self@.value)->Ok_0,
            r is Err ==> r->Err_0 == server_result(self@.value)->Err_0,
    {
        let ts = split_whitespace_str(self.value.as_str());
        if ts.len() == 0 {
            return Err(SettingError::InvalidServerAddress);
        }
        if ts.len() < 2 {
            return Err(SettingError::InvalidServerPort);
        }
        let port: u16 = match parse_u16_digits(ts[1].as_str()) {
            Some(p) => p,
            None => {
                return Err(SettingError::InvalidPortValue);
            },
        };
        Ok(ServerInfo::new(ts[0].as_str(), port))
    }

    /// Reads the value as a whole-text millisecond count.
    pub fn parse_timeout(&self) -> (r: Result<u64, SettingError>)
        ensures
            r == timeout_result(self@.value),
    {
        match parse_u64_digits(self.value.as_str()) {
            Some(v) => Ok(v),
            None => Err(SettingError::InvalidTimeoutValue),
        }
    }

    /// Reads the value as a silent-mode flag, exactly `true` or `false`.
    fn parse_silent_mode(&self) -> (r: Result<bool, SettingError>)
        ensures
            r == silent_result(self@.value),
    {
        if str_eq(self.value.as_str(), "true") {
            Ok(true)
        } else if str_eq(self.value.as_str(), "false") {
            Ok(false)
        } else {
            Err(SettingError::InvalidSilentModeValue)
        }
    }

    /// Validates the value for this key and, on success, replaces the
    /// matching configuration field; on rejection the configuration is left
    /// untouched. An unrecognized key is accepted and changes nothing.
    pub fn apply_setting(&self, config: &mut Config) -> (r: Result<(), SettingError>)
        ensures
            r == setting_result(self@.key, self@.value),
            final(config)@ == applied_config(self@.key, self@.value, old(config)@),
            r is Err ==> *final(config) == *old(config),
    {
        proof {
            lemma_keys_distinct();
        }
        if str_eq(self.key.as_str(), "period") {
            match self.parse_period() {
                Ok(p) => {
                    config.set_period(p);
                    Ok(())
                },
                Err(e) => Err(e),
            }
        } else if str_eq(self.key.as_str(), "server") {
            match self.parse_server_info() {
                Ok(s) => {
                    config.set_server_info(s);
                    Ok(())
                },
                Err(e) => Err(e),
            }
        } else if str_eq(self.key.as_str(), "timeout") {
            match self.parse_timeout() {
                Ok(t) => {
                    config.set_timeout(t);
                    Ok(())
                },
                Err(e) => Err(e),
            }
        } else if str_eq(self.key.as_str(), "silent") {
            match self.parse_silent_mode() {
                Ok(b) => {
                    config.set_silent_mode(b);
                    Ok(())
                },
                Err(e) => Err(e),
            }
        } else {
            Ok(())
        }
    }

    /// Applies the setting and reports: the confirmation text on success,
    /// the rejection otherwise, the configuration untouched on rejection.
    pub fn apply(&self, config: &mut Config) -> (r: Result<InstructionOutput, SettingError>)
        ensures
            final(config)@ == applied_config(self@.key, self@.value, old(config)@),
            setting_result(self@.key, self@.value) is Ok ==> r is Ok && r->Ok_0.output@
                == confirmation_of(self@.key, self@.value),
            setting_result(self@.key, self@.value) is Err ==> r is Err && r->Err_0
                == setting_result(self@.key, self@.value)->Err_0 && *final(config) == *old(config),
    {
        match self.apply_setting(config) {
            Ok(_) => {
                let mut output = String::new();
                output.append("Setting ");
                output.append(self.key.as_str());
                output.append(" to ");
                output.append(self.value.as_str());
                output.append("\n");
                proof {
                    assert(output@ =~= confirmation_of(self@.key, self@.value));
                }
                Ok(InstructionOutput { output })
            },
            Err(e) => Err(e),
        }
    }

    /// The failure text the agent reports when this setting is rejected.
    pub fn failure_message(&self) -> (r: String)
        ensures
            r@ == failure_text_of(self@.key, self@.value),
    {
        let mut output = String::new();
        output.append("failed to apply setting ");
        output.append(self.key.as_str());
        output.append(" to ");
        output.append(self.value.as_str());
        proof {
            assert(output@ =~= failure_text_of(self@.key, self@.value));
        }
        output
    }
}

} // verus!
