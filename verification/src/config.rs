//! The settings of the controller.

use vstd::prelude::*;
use vstd::string::*;

use crate::double::{of_int, quotient, Double};
use crate::environment::{Environment, Setting};
use crate::text::{read, Misread};
use crate::weather::{hundredths, hundredths_of};

verus! {

/// Everything that can be set.
#[derive(Debug)]
pub struct Config {
    // General
    pub check_interval_minutes: u64,
    pub status_poll_seconds: u64,
    pub enable_pricing: bool,
    pub enable_mcp: bool,
    // Data source selection
    pub use_legacy_status: bool,
    pub use_huawei: bool,
    pub use_solaredge: bool,
    pub use_live_status: bool,
    // Legacy status source
    pub status_url: String,
    // Live status source
    pub live_status_url: String,
    // Huawei FusionSolar
    pub huawei_api_url: String,
    pub huawei_username: String,
    pub huawei_system_code: String,
    pub huawei_station_code: Option<String>,
    pub huawei_invert_grid_sign: bool,
    // SolarEdge
    pub solaredge_api_url: String,
    pub solaredge_api_key: String,
    pub solaredge_site_id: String,
    // Heat pump relay
    pub enable_heatpump_control: bool,
    pub shelly_ip: String,
    pub relay_on_to_block: bool,
    // When the heat pump is blocked
    pub block_price_percentile: Double,
    pub max_continuous_block_minutes: i64,
    pub min_rest_time_minutes: i64,
    // When the battery is charged
    pub lookahead_hours: i64,
    pub low_price_percentile: Double,
    pub high_spike_percentile: Double,
    pub min_spike_difference_cents: Double,
    // Battery
    pub enable_battery_control: bool,
    pub ssh_host: String,
    pub ssh_user: String,
    pub ssh_pass: String,
    pub winter_force_charge_soc: u8,
    pub summer_force_charge_soc: u8,
    pub summer_min_soc: u8,
    pub winter_min_soc: u8,
    // Site
    pub lat: Double,
    pub lon: Double,
    pub battery_size_kwh: Double,
    pub pv_size_kwp: Double,
    pub base_load_kw: Double,
    pub heating_off_temp_c: Double,
    pub heating_kwh_per_h_at_0c: Double,
}

/// Why the settings cannot be used.
#[derive(Clone, Copy, Debug, PartialEq, Eq, Structural)]
pub enum ConfigError {
    /// The variable is not set.
    Missing(Setting),
    /// The variable is not set, which the second one asks for by being true.
    RequiredBy(Setting, Setting),
    /// The variable cannot be read.
    Malformed(Setting, Misread),
}

impl ConfigError {
    /// The error in words.
    pub open spec fn words(self) -> Seq<char> {
        match self {
            ConfigError::Missing(s) => s.label() + " not set"@,
            ConfigError::RequiredBy(s, by) => s.label() + " not set (required when "@ + by.label()
                + "=true)"@,
            ConfigError::Malformed(_, why) => why.words(),
        }
    }

    /// The error in words.
    pub fn text(self) -> (r: String)
        ensures
            r@ == self.words(),
    {
        match self {
            ConfigError::Missing(s) => s.name().to_owned().concat(" not set"),
            ConfigError::RequiredBy(s, by) => s.name().to_owned().concat(
                " not set (required when ",
            ).concat(by.name()).concat("=true)"),
            ConfigError::Malformed(_, why) => why.text(),
        }
    }
}

/// The first of two errors.
pub open spec fn or_else(first: Option<ConfigError>, second: Option<ConfigError>) -> Option<
    ConfigError,
> {
    if first is Some {
        first
    } else {
        second
    }
}

/// The error where a value could not be read.
pub open spec fn unread<T>(setting: Setting, value: Result<T, Misread>) -> Option<ConfigError> {
    match value {
        Ok(_) => None,
        Err(why) => Some(ConfigError::Malformed(setting, why)),
    }
}

/// The error where a variable is needed and not set.
pub open spec fn unset(env: &Environment, setting: Setting, by: Setting, needed: bool) -> Option<
    ConfigError,
> {
    if needed && env.value(setting) is None {
        Some(ConfigError::RequiredBy(setting, by))
    } else {
        None
    }
}

/// The error where a variable is not set.
pub open spec fn missing(env: &Environment, setting: Setting) -> Option<ConfigError> {
    if env.value(setting) is None {
        Some(ConfigError::Missing(setting))
    } else {
        None
    }
}

/// A quotient of two integers.
pub open spec fn ratio(m: int, n: int) -> Double {
    quotient(of_int(m), of_int(n))
}

/// The charge that low prices are used for: that of the season, or else that of all seasons.
pub open spec fn force_charge(env: &Environment, seasonal: Setting, default: int) -> Result<
    int,
    Misread,
> {
    if env.value(seasonal) is Some {
        env.count(seasonal, default, 255)
    } else {
        env.count(Setting::ForceChargeSoc, default, 255)
    }
}

/// The variable that the charge for low prices is read from.
pub open spec fn force_charge_setting(env: &Environment, seasonal: Setting) -> Setting {
    if env.value(seasonal) is Some {
        seasonal
    } else {
        Setting::ForceChargeSoc
    }
}

/// Prices are used.
pub open spec fn uses_pricing(env: &Environment) -> bool {
    env.flag(Setting::UsePricing, true) == read(true)
}

/// The heat pump is controlled, which takes prices.
pub open spec fn controls_heatpump(env: &Environment) -> bool {
    uses_pricing(env) && env.flag(Setting::EnableHeatpumpControl, true) == read(true)
}

/// The battery is controlled, which takes prices.
pub open spec fn controls_battery(env: &Environment) -> bool {
    uses_pricing(env) && env.flag(Setting::EnableBatteryControl, true) == read(true)
}

/// The first error in what is switched on and off.
pub open spec fn switch_error(env: &Environment) -> Option<ConfigError> {
    or_else(
        unread(Setting::UseLegacyStatus, env.flag(Setting::UseLegacyStatus, true)),
        or_else(
            unread(Setting::UseHuawei, env.flag(Setting::UseHuawei, false)),
            or_else(
                unread(Setting::UseSolaredge, env.flag(Setting::UseSolaredge, false)),
                or_else(
                    unread(Setting::UseLiveStatus, env.flag(Setting::UseLiveStatus, false)),
                    or_else(
                        unread(Setting::UsePricing, env.flag(Setting::UsePricing, true)),
                        or_else(
                            unread(
                                Setting::EnableHeatpumpControl,
                                env.flag(Setting::EnableHeatpumpControl, true),
                            ),
                            or_else(
                                unread(
                                    Setting::EnableBatteryControl,
                                    env.flag(Setting::EnableBatteryControl, true),
                                ),
                                unread(Setting::EnableMcp, env.flag(Setting::EnableMcp, true)),
                            ),
                        ),
                    ),
                ),
            ),
        ),
    )
}

/// The first error in the access data of the data sources.
pub open spec fn access_error(env: &Environment) -> Option<ConfigError> {
    let huawei = env.flag(Setting::UseHuawei, false) == read(true);
    let solaredge = env.flag(Setting::UseSolaredge, false) == read(true);
    or_else(
        unset(env, Setting::HuaweiUsername, Setting::UseHuawei, huawei),
        or_else(
            unset(env, Setting::HuaweiSystemCode, Setting::UseHuawei, huawei),
            or_else(
                unset(env, Setting::SolaredgeApiKey, Setting::UseSolaredge, solaredge),
                or_else(
                    unset(env, Setting::SolaredgeSiteId, Setting::UseSolaredge, solaredge),
                    unread(
                        Setting::HuaweiInvertGridSign,
                        env.flag(Setting::HuaweiInvertGridSign, false),
                    ),
                ),
            ),
        ),
    )
}

/// The first error in the settings of the relay and of the intervals.
pub open spec fn relay_error(env: &Environment) -> Option<ConfigError> {
    or_else(
        unset(
            env,
            Setting::ShellyIp,
            Setting::EnableHeatpumpControl,
            controls_heatpump(env),
        ),
        or_else(
            unread(Setting::RelayOnToBlock, env.flag(Setting::RelayOnToBlock, false)),
            or_else(
                unread(
                    Setting::CheckIntervalMinutes,
                    env.count(Setting::CheckIntervalMinutes, 5, u64::MAX as int),
                ),
                unread(
                    Setting::StatusPollSeconds,
                    env.count(Setting::StatusPollSeconds, 10, u64::MAX as int),
                ),
            ),
        ),
    )
}

/// The first error in the settings that decisions are made by.
pub open spec fn decision_error(env: &Environment) -> Option<ConfigError> {
    or_else(
        unread(
            Setting::BlockPricePercentile,
            env.number(Setting::BlockPricePercentile, of_int(75)),
        ),
        or_else(
            unread(
                Setting::MaxContinuousBlockMinutes,
                env.integer(Setting::MaxContinuousBlockMinutes, 120),
            ),
            or_else(
                unread(Setting::MinRestTimeMinutes, env.integer(Setting::MinRestTimeMinutes, 60)),
                or_else(
                    unread(Setting::LookaheadHours, env.integer(Setting::LookaheadHours, 6)),
                    or_else(
                        unread(
                            Setting::LowPricePercentile,
                            env.number(Setting::LowPricePercentile, of_int(10)),
                        ),
                        or_else(
                            unread(
                                Setting::HighSpikePercentile,
                                env.number(Setting::HighSpikePercentile, of_int(95)),
                            ),
                            unread(
                                Setting::MinSpikeDifferenceCents,
                                env.number(Setting::MinSpikeDifferenceCents, of_int(10)),
                            ),
                        ),
                    ),
                ),
            ),
        ),
    )
}

/// The first error in the settings of the battery.
pub open spec fn battery_error(env: &Environment) -> Option<ConfigError> {
    or_else(
        missing(env, Setting::SshHost),
        or_else(
            missing(env, Setting::SshUser),
            or_else(
                missing(env, Setting::SshPass),
                or_else(
                    unread(
                        force_charge_setting(env, Setting::WinterForceChargeSoc),
                        force_charge(env, Setting::WinterForceChargeSoc, 60),
                    ),
                    or_else(
                        unread(
                            force_charge_setting(env, Setting::SummerForceChargeSoc),
                            force_charge(env, Setting::SummerForceChargeSoc, 30),
                        ),
                        or_else(
                            unread(
                                Setting::SummerMinSoc,
                                env.count(Setting::SummerMinSoc, 10, 255),
                            ),
                            unread(
                                Setting::WinterMinSoc,
                                env.count(Setting::WinterMinSoc, 20, 255),
                            ),
                        ),
                    ),
                ),
            ),
        ),
    )
}

/// The first error in the description of the site.
pub open spec fn site_error(env: &Environment) -> Option<ConfigError> {
    or_else(
        unread(Setting::Latitude, env.number(Setting::Latitude, ratio(482_082, 10_000))),
        or_else(
            unread(Setting::Longitude, env.number(Setting::Longitude, ratio(163_738, 10_000))),
            or_else(
                unread(Setting::BatterySizeKwh, env.number(Setting::BatterySizeKwh, of_int(10))),
                or_else(
                    unread(Setting::PvSizeKwp, env.number(Setting::PvSizeKwp, of_int(5))),
                    or_else(
                        unread(
                            Setting::BaseLoadKw,
                            env.number(Setting::BaseLoadKw, hundredths(50)),
                        ),
                        or_else(
                            unread(
                                Setting::HeatingOffTempC,
                                env.number(Setting::HeatingOffTempC, of_int(15)),
                            ),
                            unread(
                                Setting::HeatingKwhPerHAt0c,
                                env.number(Setting::HeatingKwhPerHAt0c, hundredths(150)),
                            ),
                        ),
                    ),
                ),
            ),
        ),
    )
}

/// The first error in the settings.
pub open spec fn config_error(env: &Environment) -> Option<ConfigError> {
    or_else(
        switch_error(env),
        or_else(
            access_error(env),
            or_else(
                relay_error(env),
                or_else(decision_error(env), or_else(battery_error(env), site_error(env))),
            ),
        ),
    )
}

/// The value of an optional text where it is not empty.
pub open spec fn not_empty(text: Option<String>) -> Option<Seq<char>> {
    match text {
        Some(s) if s@.len() > 0 => Some(s@),
        _ => None,
    }
}

impl Config {
    /// The switches and addresses are those of the environment.
    pub open spec fn has_sources(&self, env: &Environment) -> bool {
        &&& env.flag(Setting::EnableMcp, true) == read(self.enable_mcp)
        &&& env.flag(Setting::UseLegacyStatus, true) == read(self.use_legacy_status)
        &&& env.flag(Setting::UseHuawei, false) == read(self.use_huawei)
        &&& env.flag(Setting::UseSolaredge, false) == read(self.use_solaredge)
        &&& env.flag(Setting::UseLiveStatus, false) == read(self.use_live_status)
        &&& self.status_url@ == env.text_or(
            Setting::StatusUrl,
            "http://192.168.178.11/status/soc.txt"@,
        )
        &&& self.live_status_url@ == env.text_or(
            Setting::LiveStatusUrl,
            "https://hoxdna.org/getEnergy"@,
        )
        &&& self.huawei_api_url@ == env.text_or(
            Setting::HuaweiApiUrl,
            "https://eu5.fusionsolar.huawei.com"@,
        )
        &&& self.huawei_username@ == env.text_or(Setting::HuaweiUsername, ""@)
        &&& self.huawei_system_code@ == env.text_or(Setting::HuaweiSystemCode, ""@)
        &&& not_empty(self.huawei_station_code) == not_empty(
            env.value(Setting::HuaweiStationCode),
        )
        &&& self.huawei_station_code is Some ==> not_empty(self.huawei_station_code) is Some
        &&& env.flag(Setting::HuaweiInvertGridSign, false) == read(self.huawei_invert_grid_sign)
        &&& self.solaredge_api_url@ == env.text_or(
            Setting::SolaredgeApiUrl,
            "https://monitoringapi.solaredge.com"@,
        )
        &&& self.solaredge_api_key@ == env.text_or(Setting::SolaredgeApiKey, ""@)
        &&& self.solaredge_site_id@ == env.text_or(Setting::SolaredgeSiteId, ""@)
    }

    /// The settings of the control loop are those of the environment.
    pub open spec fn has_control(&self, env: &Environment) -> bool {
        &&& self.enable_pricing == uses_pricing(env)
        &&& self.enable_heatpump_control == controls_heatpump(env)
        &&& self.enable_battery_control == controls_battery(env)
        &&& self.shelly_ip@ == env.text_or(Setting::ShellyIp, ""@)
        &&& env.flag(Setting::RelayOnToBlock, false) == read(self.relay_on_to_block)
        &&& env.count(Setting::CheckIntervalMinutes, 5, u64::MAX as int) == read(
            self.check_interval_minutes as int,
        )
        &&& env.count(Setting::StatusPollSeconds, 10, u64::MAX as int) matches Ok(n)
            && self.status_poll_seconds == if n < 1 {
            1
        } else {
            n
        }
        &&& env.number(Setting::BlockPricePercentile, of_int(75)) == read(
            self.block_price_percentile,
        )
        &&& env.integer(Setting::MaxContinuousBlockMinutes, 120) == read(
            self.max_continuous_block_minutes as int,
        )
        &&& env.integer(Setting::MinRestTimeMinutes, 60) == read(self.min_rest_time_minutes as int)
        &&& env.integer(Setting::LookaheadHours, 6) == read(self.lookahead_hours as int)
        &&& env.number(Setting::LowPricePercentile, of_int(10)) == read(self.low_price_percentile)
        &&& env.number(Setting::HighSpikePercentile, of_int(95)) == read(
            self.high_spike_percentile,
        )
        &&& env.number(Setting::MinSpikeDifferenceCents, of_int(10)) == read(
            self.min_spike_difference_cents,
        )
    }

    /// The settings of battery and site are those of the environment.
    pub open spec fn has_site(&self, env: &Environment) -> bool {
        &&& self.ssh_host@ == env.text_or(Setting::SshHost, ""@)
        &&& self.ssh_user@ == env.text_or(Setting::SshUser, ""@)
        &&& self.ssh_pass@ == env.text_or(Setting::SshPass, ""@)
        &&& force_charge(env, Setting::WinterForceChargeSoc, 60) == read(
            self.winter_force_charge_soc as int,
        )
        &&& force_charge(env, Setting::SummerForceChargeSoc, 30) == read(
            self.summer_force_charge_soc as int,
        )
        &&& env.count(Setting::SummerMinSoc, 10, 255) == read(self.summer_min_soc as int)
        &&& env.count(Setting::WinterMinSoc, 20, 255) == read(self.winter_min_soc as int)
        &&& env.number(Setting::Latitude, ratio(482_082, 10_000)) == read(self.lat)
        &&& env.number(Setting::Longitude, ratio(163_738, 10_000)) == read(self.lon)
        &&& env.number(Setting::BatterySizeKwh, of_int(10)) == read(self.battery_size_kwh)
        &&& env.number(Setting::PvSizeKwp, of_int(5)) == read(self.pv_size_kwp)
        &&& env.number(Setting::BaseLoadKw, hundredths(50)) == read(self.base_load_kw)
        &&& env.number(Setting::HeatingOffTempC, of_int(15)) == read(self.heating_off_temp_c)
        &&& env.number(Setting::HeatingKwhPerHAt0c, hundredths(150)) == read(
            self.heating_kwh_per_h_at_0c,
        )
    }
}

impl Config {
    /// How long the control loop sleeps between rounds, in seconds; `None` where 64 bits do not
    /// hold it.
    pub fn check_interval_seconds(&self) -> (r: Option<u64>)
        ensures
            r == (if self.check_interval_minutes * 60 <= u64::MAX {
                Some((self.check_interval_minutes * 60) as u64)
            } else {
                None
            }),
    {
        if self.check_interval_minutes <= u64::MAX / 60 {
            Some(self.check_interval_minutes * 60)
        } else {
            None
        }
    }
}

fn need_flag(env: &Environment, setting: Setting, default: bool) -> (r: Result<bool, ConfigError>)
    ensures
        match r {
            Ok(b) => env.flag(setting, default) == read(b),
            Err(e) => unread(setting, env.flag(setting, default)) == Some(e),
        },
{
    match env.get_flag(setting, default) {
        Ok(b) => Ok(b),
        Err(why) => Err(ConfigError::Malformed(setting, why)),
    }
}

fn need_count(env: &Environment, setting: Setting, default: u64) -> (r: Result<u64, ConfigError>)
    ensures
        match r {
            Ok(n) => env.count(setting, default as int, u64::MAX as int) == read(n as int),
            Err(e) => unread(setting, env.count(setting, default as int, u64::MAX as int)) == Some(
                e,
            ),
        },
{
    match env.get_count(setting, default, u64::MAX) {
        Ok(n) => Ok(n),
        Err(why) => Err(ConfigError::Malformed(setting, why)),
    }
}

fn need_percent(env: &Environment, setting: Setting, default: u8) -> (r: Result<u8, ConfigError>)
    ensures
        match r {
            Ok(n) => env.count(setting, default as int, 255) == read(n as int),
            Err(e) => unread(setting, env.count(setting, default as int, 255)) == Some(e),
        },
{
    match env.get_count(setting, default as u64, 255) {
        Ok(n) => Ok(n as u8),
        Err(why) => Err(ConfigError::Malformed(setting, why)),
    }
}

fn need_force_charge(env: &Environment, seasonal: Setting, default: u8) -> (r: Result<
    u8,
    ConfigError,
>)
    ensures
        match r {
            Ok(n) => force_charge(env, seasonal, default as int) == read(n as int),
            Err(e) => unread(
                force_charge_setting(env, seasonal),
                force_charge(env, seasonal, default as int),
            ) == Some(e),
        },
{
    if env.get(seasonal).is_some() {
        need_percent(env, seasonal, default)
    } else {
        need_percent(env, Setting::ForceChargeSoc, default)
    }
}

fn need_integer(env: &Environment, setting: Setting, default: i64) -> (r: Result<i64, ConfigError>)
    ensures
        match r {
            Ok(n) => env.integer(setting, default as int) == read(n as int),
            Err(e) => unread(setting, env.integer(setting, default as int)) == Some(e),
        },
{
    match env.get_integer(setting, default) {
        Ok(n) => Ok(n),
        Err(why) => Err(ConfigError::Malformed(setting, why)),
    }
}

fn need_number(env: &Environment, setting: Setting, default: Double) -> (r: Result<
    Double,
    ConfigError,
>)
    ensures
        match r {
            Ok(x) => env.number(setting, default) == read(x),
            Err(e) => unread(setting, env.number(setting, default)) == Some(e),
        },
{
    match env.get_number(setting, default) {
        Ok(x) => Ok(x),
        Err(why) => Err(ConfigError::Malformed(setting, why)),
    }
}

fn need_text(env: &Environment, setting: Setting) -> (r: Result<String, ConfigError>)
    ensures
        match r {
            Ok(s) => missing(env, setting) is None && s@ == env.text_or(setting, ""@),
            Err(e) => missing(env, setting) == Some(e),
        },
{
    match env.get(setting) {
        Some(s) => Ok(s.as_str().to_owned()),
        None => Err(ConfigError::Missing(setting)),
    }
}

fn need_text_if(env: &Environment, setting: Setting, by: Setting, needed: bool) -> (r: Result<
    String,
    ConfigError,
>)
    ensures
        match r {
            Ok(s) => unset(env, setting, by, needed) is None && s@ == env.text_or(setting, ""@),
            Err(e) => unset(env, setting, by, needed) == Some(e),
        },
{
    match env.get(setting) {
        Some(s) => Ok(s.as_str().to_owned()),
        None => if needed {
            Err(ConfigError::RequiredBy(setting, by))
        } else {
            Ok("".to_owned())
        },
    }
}

/// The station code, where one is set.
fn station_code(env: &Environment) -> (r: Option<String>)
    ensures
        not_empty(r) == not_empty(env.value(Setting::HuaweiStationCode)),
        r is Some ==> not_empty(r) is Some,
{
    match env.get(Setting::HuaweiStationCode) {
        Some(s) => if s.as_str().unicode_len() > 0 {
            Some(s.as_str().to_owned())
        } else {
            None
        },
        None => None,
    }
}

/// Loads the settings from environment variables. Without prices neither the heat pump nor the
/// battery is controlled.
pub fn load_config(env: &Environment) -> (r: Result<Config, ConfigError>)
    ensures
        match r {
            Ok(c) => {
                &&& config_error(env) is None
                &&& c.has_sources(env)
                &&& c.has_control(env)
                &&& c.has_site(env)
                &&& !c.enable_pricing ==> !c.enable_heatpump_control && !c.enable_battery_control
                &&& c.status_poll_seconds >= 1
            },
            Err(e) => config_error(env) == Some(e),
        },
{
    let use_legacy_status: bool = need_flag(env, Setting::UseLegacyStatus, true)?;
    let use_huawei: bool = need_flag(env, Setting::UseHuawei, false)?;
    let use_solaredge: bool = need_flag(env, Setting::UseSolaredge, false)?;
    let use_live_status: bool = need_flag(env, Setting::UseLiveStatus, false)?;
    let enable_pricing: bool = need_flag(env, Setting::UsePricing, true)?;
    let heatpump_wanted: bool = need_flag(env, Setting::EnableHeatpumpControl, true)?;
    let battery_wanted: bool = need_flag(env, Setting::EnableBatteryControl, true)?;
    let enable_mcp: bool = need_flag(env, Setting::EnableMcp, true)?;
    assert(switch_error(env) is None);
    let enable_heatpump_control: bool = enable_pricing && heatpump_wanted;
    let enable_battery_control: bool = enable_pricing && battery_wanted;
    let huawei_username: String = need_text_if(
        env,
        Setting::HuaweiUsername,
        Setting::UseHuawei,
        use_huawei,
    )?;
    let huawei_system_code: String = need_text_if(
        env,
        Setting::HuaweiSystemCode,
        Setting::UseHuawei,
        use_huawei,
    )?;
    let solaredge_api_key: String = need_text_if(
        env,
        Setting::SolaredgeApiKey,
        Setting::UseSolaredge,
        use_solaredge,
    )?;
    let solaredge_site_id: String = need_text_if(
        env,
        Setting::SolaredgeSiteId,
        Setting::UseSolaredge,
        use_solaredge,
    )?;
    let huawei_invert_grid_sign: bool = need_flag(env, Setting::HuaweiInvertGridSign, false)?;
    assert(access_error(env) is None);
    let shelly_ip: String = need_text_if(
        env,
        Setting::ShellyIp,
        Setting::EnableHeatpumpControl,
        enable_heatpump_control,
    )?;
    let relay_on_to_block: bool = need_flag(env, Setting::RelayOnToBlock, false)?;
    let check_interval_minutes: u64 = need_count(env, Setting::CheckIntervalMinutes, 5)?;
    let poll_seconds: u64 = need_count(env, Setting::StatusPollSeconds, 10)?;
    assert(relay_error(env) is None);
    let block_price_percentile: Double = need_number(
        env,
        Setting::BlockPricePercentile,
        Double::of_u64(75),
    )?;
    let max_continuous_block_minutes: i64 = need_integer(
        env,
        Setting::MaxContinuousBlockMinutes,
        120,
    )?;
    let min_rest_time_minutes: i64 = need_integer(env, Setting::MinRestTimeMinutes, 60)?;
    let lookahead_hours: i64 = need_integer(env, Setting::LookaheadHours, 6)?;
    let low_price_percentile: Double = need_number(
        env,
        Setting::LowPricePercentile,
        Double::of_u64(10),
    )?;
    let high_spike_percentile: Double = need_number(
        env,
        Setting::HighSpikePercentile,
        Double::of_u64(95),
    )?;
    let min_spike_difference_cents: Double = need_number(
        env,
        Setting::MinSpikeDifferenceCents,
        Double::of_u64(10),
    )?;
    assert(decision_error(env) is None);
    let ssh_host: String = need_text(env, Setting::SshHost)?;
    let ssh_user: String = need_text(env, Setting::SshUser)?;
    let ssh_pass: String = need_text(env, Setting::SshPass)?;
    let winter_force_charge_soc: u8 = need_force_charge(env, Setting::WinterForceChargeSoc, 60)?;
    let summer_force_charge_soc: u8 = need_force_charge(env, Setting::SummerForceChargeSoc, 30)?;
    let summer_min_soc: u8 = need_percent(env, Setting::SummerMinSoc, 10)?;
    let winter_min_soc: u8 = need_percent(env, Setting::WinterMinSoc, 20)?;
    assert(battery_error(env) is None);
    let ten_thousand: Double = Double::of_u64(10_000);
    let lat: Double = need_number(
        env,
        Setting::Latitude,
        Double::of_u64(482_082).over(ten_thousand),
    )?;
    let lon: Double = need_number(
        env,
        Setting::Longitude,
        Double::of_u64(163_738).over(ten_thousand),
    )?;
    let battery_size_kwh: Double = need_number(env, Setting::BatterySizeKwh, Double::of_u64(10))?;
    let pv_size_kwp: Double = need_number(env, Setting::PvSizeKwp, Double::of_u64(5))?;
    let base_load_kw: Double = need_number(env, Setting::BaseLoadKw, hundredths_of(50))?;
    let heating_off_temp_c: Double = need_number(
        env,
        Setting::HeatingOffTempC,
        Double::of_u64(15),
    )?;
    let heating_kwh_per_h_at_0c: Double = need_number(
        env,
        Setting::HeatingKwhPerHAt0c,
        hundredths_of(150),
    )?;
    assert(site_error(env) is None);
    Ok(
        Config {
            check_interval_minutes,
            status_poll_seconds: if poll_seconds < 1 {
                1
            } else {
                poll_seconds
            },
            enable_pricing,
            enable_mcp,
            use_legacy_status,
            use_huawei,
            use_solaredge,
            use_live_status,
            status_url: env.get_or(Setting::StatusUrl, "http://192.168.178.11/status/soc.txt"),
            live_status_url: env.get_or(Setting::LiveStatusUrl, "https://hoxdna.org/getEnergy"),
            huawei_api_url: env.get_or(
                Setting::HuaweiApiUrl,
                "https://eu5.fusionsolar.huawei.com",
            ),
            huawei_username,
            huawei_system_code,
            huawei_station_code: station_code(env),
            huawei_invert_grid_sign,
            solaredge_api_url: env.get_or(
                Setting::SolaredgeApiUrl,
                "https://monitoringapi.solaredge.com",
            ),
            solaredge_api_key,
            solaredge_site_id,
            enable_heatpump_control,
            shelly_ip,
            relay_on_to_block,
            block_price_percentile,
            max_continuous_block_minutes,
            min_rest_time_minutes,
            lookahead_hours,
            low_price_percentile,
            high_spike_percentile,
            min_spike_difference_cents,
            enable_battery_control,
            ssh_host,
            ssh_user,
            ssh_pass,
            winter_force_charge_soc,
            summer_force_charge_soc,
            summer_min_soc,
            winter_min_soc,
            lat,
            lon,
            battery_size_kwh,
            pv_size_kwp,
            base_load_kw,
            heating_off_temp_c,
            heating_kwh_per_h_at_0c,
        },
    )
}

} // verus!
