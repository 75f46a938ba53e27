//! Environment variables: their names, and how their values are read.

use vstd::prelude::*;
use vstd::string::*;

use crate::double::Double;
use crate::text::{
    read_signed, read_unsigned, same, signed_misread, signed_value, unsigned_misread,
    unsigned_value, Misread,
};

verus! {

/// The variables that are read.
#[derive(Clone, Copy, Debug, PartialEq, Eq, Structural)]
pub enum Setting {
    UseLegacyStatus,
    UseHuawei,
    UseSolaredge,
    UseLiveStatus,
    UsePricing,
    EnableHeatpumpControl,
    EnableBatteryControl,
    EnableMcp,
    HuaweiUsername,
    HuaweiSystemCode,
    SolaredgeApiKey,
    SolaredgeSiteId,
    StatusUrl,
    LiveStatusUrl,
    HuaweiApiUrl,
    HuaweiStationCode,
    HuaweiInvertGridSign,
    SolaredgeApiUrl,
    ShellyIp,
    RelayOnToBlock,
    CheckIntervalMinutes,
    StatusPollSeconds,
    BlockPricePercentile,
    MaxContinuousBlockMinutes,
    MinRestTimeMinutes,
    LookaheadHours,
    LowPricePercentile,
    HighSpikePercentile,
    MinSpikeDifferenceCents,
    SshHost,
    SshUser,
    SshPass,
    ForceChargeSoc,
    WinterForceChargeSoc,
    SummerForceChargeSoc,
    SummerMinSoc,
    WinterMinSoc,
    Latitude,
    Longitude,
    BatterySizeKwh,
    PvSizeKwp,
    BaseLoadKw,
    HeatingOffTempC,
    HeatingKwhPerHAt0c,
    WebPort,
    AppContextPath,
}

impl Setting {
    /// The variable's name.
    pub open spec fn label(self) -> Seq<char> {
        match self {
            Setting::UseLegacyStatus => "USE_LEGACY_STATUS"@,
            Setting::UseHuawei => "USE_HUAWEI"@,
            Setting::UseSolaredge => "USE_SOLAREDGE"@,
            Setting::UseLiveStatus => "USE_LIVE_STATUS"@,
            Setting::UsePricing => "USE_PRICING"@,
            Setting::EnableHeatpumpControl => "ENABLE_HEATPUMP_CONTROL"@,
            Setting::EnableBatteryControl => "ENABLE_BATTERY_CONTROL"@,
            Setting::EnableMcp => "ENABLE_MCP"@,
            Setting::HuaweiUsername => "HUAWEI_USERNAME"@,
            Setting::HuaweiSystemCode => "HUAWEI_SYSTEM_CODE"@,
            Setting::SolaredgeApiKey => "SOLAREDGE_API_KEY"@,
            Setting::SolaredgeSiteId => "SOLAREDGE_SITE_ID"@,
            Setting::StatusUrl => "STATUS_URL"@,
            Setting::LiveStatusUrl => "LIVE_STATUS_URL"@,
            Setting::HuaweiApiUrl => "HUAWEI_API_URL"@,
            Setting::HuaweiStationCode => "HUAWEI_STATION_CODE"@,
            Setting::HuaweiInvertGridSign => "HUAWEI_INVERT_GRID_SIGN"@,
            Setting::SolaredgeApiUrl => "SOLAREDGE_API_URL"@,
            Setting::ShellyIp => "SHELLY_IP"@,
            Setting::RelayOnToBlock => "RELAY_ON_TO_BLOCK"@,
            Setting::CheckIntervalMinutes => "CHECK_INTERVAL_MINUTES"@,
            Setting::StatusPollSeconds => "STATUS_POLL_SECONDS"@,
            Setting::BlockPricePercentile => "BLOCK_PRICE_PERCENTILE"@,
            Setting::MaxContinuousBlockMinutes => "MAX_CONTINUOUS_BLOCK_MINUTES"@,
            Setting::MinRestTimeMinutes => "MIN_REST_TIME_MINUTES"@,
            Setting::LookaheadHours => "LOOKAHEAD_HOURS"@,
            Setting::LowPricePercentile => "LOW_PRICE_PERCENTILE"@,
            Setting::HighSpikePercentile => "HIGH_SPIKE_PERCENTILE"@,
            Setting::MinSpikeDifferenceCents => "MIN_SPIKE_DIFFERENCE_CENTS"@,
            Setting::SshHost => "SSH_HOST"@,
            Setting::SshUser => "SSH_USER"@,
            Setting::SshPass => "SSH_PASS"@,
            Setting::ForceChargeSoc => "FORCE_CHARGE_SOC"@,
            Setting::WinterForceChargeSoc => "WINTER_FORCE_CHARGE_SOC"@,
            Setting::SummerForceChargeSoc => "SUMMER_FORCE_CHARGE_SOC"@,
            Setting::SummerMinSoc => "SUMMER_MIN_SOC"@,
            Setting::WinterMinSoc => "WINTER_MIN_SOC"@,
            Setting::Latitude => "LATITUDE"@,
            Setting::Longitude => "LONGITUDE"@,
            Setting::BatterySizeKwh => "BATTERY_SIZE_KWH"@,
            Setting::PvSizeKwp => "PV_SIZE_KWP"@,
            Setting::BaseLoadKw => "BASE_LOAD_KW"@,
            Setting::HeatingOffTempC => "HEATING_OFF_TEMP_C"@,
            Setting::HeatingKwhPerHAt0c => "HEATING_KWH_PER_H_AT_0C"@,
            Setting::WebPort => "WEB_PORT"@,
            Setting::AppContextPath => "APP_CONTEXT_PATH"@,
        }
    }

    /// The variable's name.
    pub fn name(self) -> (r: &'static str)
        ensures
            r@ == self.label(),
    {
        match self {
            Setting::UseLegacyStatus => "USE_LEGACY_STATUS",
            Setting::UseHuawei => "USE_HUAWEI",
            Setting::UseSolaredge => "USE_SOLAREDGE",
            Setting::UseLiveStatus => "USE_LIVE_STATUS",
            Setting::UsePricing => "USE_PRICING",
            Setting::EnableHeatpumpControl => "ENABLE_HEATPUMP_CONTROL",
            Setting::EnableBatteryControl => "ENABLE_BATTERY_CONTROL",
            Setting::EnableMcp => "ENABLE_MCP",
            Setting::HuaweiUsername => "HUAWEI_USERNAME",
            Setting::HuaweiSystemCode => "HUAWEI_SYSTEM_CODE",
            Setting::SolaredgeApiKey => "SOLAREDGE_API_KEY",
            Setting::SolaredgeSiteId => "SOLAREDGE_SITE_ID",
            Setting::StatusUrl => "STATUS_URL",
            Setting::LiveStatusUrl => "LIVE_STATUS_URL",
            Setting::HuaweiApiUrl => "HUAWEI_API_URL",
            Setting::HuaweiStationCode => "HUAWEI_STATION_CODE",
            Setting::HuaweiInvertGridSign => "HUAWEI_INVERT_GRID_SIGN",
            Setting::SolaredgeApiUrl => "SOLAREDGE_API_URL",
            Setting::ShellyIp => "SHELLY_IP",
            Setting::RelayOnToBlock => "RELAY_ON_TO_BLOCK",
            Setting::CheckIntervalMinutes => "CHECK_INTERVAL_MINUTES",
            Setting::StatusPollSeconds => "STATUS_POLL_SECONDS",
            Setting::BlockPricePercentile => "BLOCK_PRICE_PERCENTILE",
            Setting::MaxContinuousBlockMinutes => "MAX_CONTINUOUS_BLOCK_MINUTES",
            Setting::MinRestTimeMinutes => "MIN_REST_TIME_MINUTES",
            Setting::LookaheadHours => "LOOKAHEAD_HOURS",
            Setting::LowPricePercentile => "LOW_PRICE_PERCENTILE",
            Setting::HighSpikePercentile => "HIGH_SPIKE_PERCENTILE",
            Setting::MinSpikeDifferenceCents => "MIN_SPIKE_DIFFERENCE_CENTS",
            Setting::SshHost => "SSH_HOST",
            Setting::SshUser => "SSH_USER",
            Setting::SshPass => "SSH_PASS",
            Setting::ForceChargeSoc => "FORCE_CHARGE_SOC",
            Setting::WinterForceChargeSoc => "WINTER_FORCE_CHARGE_SOC",
            Setting::SummerForceChargeSoc => "SUMMER_FORCE_CHARGE_SOC",
            Setting::SummerMinSoc => "SUMMER_MIN_SOC",
            Setting::WinterMinSoc => "WINTER_MIN_SOC",
            Setting::Latitude => "LATITUDE",
            Setting::Longitude => "LONGITUDE",
            Setting::BatterySizeKwh => "BATTERY_SIZE_KWH",
            Setting::PvSizeKwp => "PV_SIZE_KWP",
            Setting::BaseLoadKw => "BASE_LOAD_KW",
            Setting::HeatingOffTempC => "HEATING_OFF_TEMP_C",
            Setting::HeatingKwhPerHAt0c => "HEATING_KWH_PER_H_AT_0C",
            Setting::WebPort => "WEB_PORT",
            Setting::AppContextPath => "APP_CONTEXT_PATH",
        }
    }
}

/// The environment of the process: names and values, and the values again as numbers, where they
/// are numbers.
#[derive(Debug)]
pub struct Environment {
    pub text: Vec<(String, String)>,
    pub numbers: Vec<(String, Option<Double>)>,
}

/// The first value at or after position `i` that has the given name.
pub open spec fn lookup<T>(list: Seq<(String, T)>, name: Seq<char>, i: int) -> Option<T>
    decreases list.len() - i,
{
    if i < 0 || i >= list.len() {
        None
    } else if list[i].0@ == name {
        Some(list[i].1)
    } else {
        lookup(list, name, i + 1)
    }
}

impl Environment {
    /// The value of a variable.
    pub open spec fn value(&self, setting: Setting) -> Option<String> {
        lookup(self.text@, setting.label(), 0)
    }

    /// The value of a variable, or a default where it is not set.
    pub open spec fn text_or(&self, setting: Setting, default: Seq<char>) -> Seq<char> {
        match self.value(setting) {
            Some(s) => s@,
            None => default,
        }
    }

    /// The value of a variable that is true or false, or why it is neither.
    pub open spec fn flag(&self, setting: Setting, default: bool) -> Result<bool, Misread> {
        match self.value(setting) {
            Some(s) => if s@ == "true"@ {
                Ok(true)
            } else if s@ == "false"@ {
                Ok(false)
            } else {
                Err(Misread::NotTruth)
            },
            None => Ok(default),
        }
    }

    /// The value of a variable that is an unsigned integer up to `max`, or why it is not.
    pub open spec fn count(&self, setting: Setting, default: int, max: int) -> Result<
        int,
        Misread,
    > {
        match self.value(setting) {
            Some(s) => match unsigned_value(s@) {
                Some(n) if n <= max => Ok(n as int),
                _ => Err(unsigned_misread(s@, max as nat)),
            },
            None => Ok(default),
        }
    }

    /// The value of a variable that is a signed 64-bit integer, or why it is not.
    pub open spec fn integer(&self, setting: Setting, default: int) -> Result<int, Misread> {
        match self.value(setting) {
            Some(s) => match signed_value(s@) {
                Some(n) if i64::MIN <= n <= i64::MAX => Ok(n),
                _ => Err(signed_misread(s@)),
            },
            None => Ok(default),
        }
    }

    /// The value of a variable that is a number, or why it is not.
    pub open spec fn number(&self, setting: Setting, default: Double) -> Result<Double, Misread> {
        match lookup(self.numbers@, setting.label(), 0) {
            Some(Some(x)) => Ok(x),
            Some(None) => match self.value(setting) {
                Some(s) if s@.len() == 0 => Err(Misread::NoNumber),
                _ => Err(Misread::NotNumber),
            },
            None => Ok(default),
        }
    }

    /// Finds the value of a variable.
    pub fn get(&self, setting: Setting) -> (r: Option<&String>)
        ensures
            self.value(setting) == (match r {
                Some(s) => Some(*s),
                None => None,
            }),
    {
        let mut i: usize = 0;
        while i < self.text.len()
            invariant
                i <= self.text.len(),
                lookup(self.text@, setting.label(), 0) == lookup(
                    self.text@,
                    setting.label(),
                    i as int,
                ),
            decreases self.text.len() - i,
        {
            if same(self.text[i].0.as_str(), setting.name()) {
                return Some(&self.text[i].1);
            }
            i = i + 1;
        }
        None
    }

    /// Reads a variable, with a default.
    pub fn get_or(&self, setting: Setting, default: &str) -> (r: String)
        ensures
            r@ == self.text_or(setting, default@),
    {
        match self.get(setting) {
            Some(s) => s.as_str().to_owned(),
            None => default.to_owned(),
        }
    }

    /// Reads a variable that is true or false.
    pub fn get_flag(&self, setting: Setting, default: bool) -> (r: Result<bool, Misread>)
        ensures
            r == self.flag(setting, default),
    {
        match self.get(setting) {
            Some(s) => if same(s.as_str(), "true") {
                Ok(true)
            } else if same(s.as_str(), "false") {
                Ok(false)
            } else {
                Err(Misread::NotTruth)
            },
            None => Ok(default),
        }
    }

    /// Reads a variable that is an unsigned integer up to `max`.
    pub fn get_count(&self, setting: Setting, default: u64, max: u64) -> (r: Result<u64, Misread>)
        requires
            default <= max,
        ensures
            self.count(setting, default as int, max as int) == (match r {
                Ok(n) => Ok(n as int),
                Err(e) => Err(e),
            }),
            r matches Ok(n) ==> n <= max,
    {
        match self.get(setting) {
            Some(s) => read_unsigned(s.as_str(), max),
            None => Ok(default),
        }
    }

    /// Reads a variable that is a signed integer.
    pub fn get_integer(&self, setting: Setting, default: i64) -> (r: Result<i64, Misread>)
        ensures
            self.integer(setting, default as int) == (match r {
                Ok(n) => Ok(n as int),
                Err(e) => Err(e),
            }),
    {
        match self.get(setting) {
            Some(s) => read_signed(s.as_str()),
            None => Ok(default),
        }
    }

    /// Reads a variable that is a number.
    pub fn get_number(&self, setting: Setting, default: Double) -> (r: Result<Double, Misread>)
        ensures
            r == self.number(setting, default),
    {
        let mut i: usize = 0;
        while i < self.numbers.len()
            invariant
                i <= self.numbers.len(),
                lookup(self.numbers@, setting.label(), 0) == lookup(
                    self.numbers@,
                    setting.label(),
                    i as int,
                ),
            decreases self.numbers.len() - i,
        {
            if same(self.numbers[i].0.as_str(), setting.name()) {
                return match self.numbers[i].1 {
                    Some(x) => Ok(x),
                    None => match self.get(setting) {
                        Some(s) => if s.as_str().unicode_len() == 0 {
                            Err(Misread::NoNumber)
                        } else {
                            Err(Misread::NotNumber)
                        },
                        None => Err(Misread::NotNumber),
                    },
                };
            }
            i = i + 1;
        }
        Ok(default)
    }
}

} // verus!
