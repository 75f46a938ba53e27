//! Laws of the settings: which variable each is read from, and what holds where it is not set.

use vstd::arithmetic::power2::{lemma_pow2_pos, pow2};
use vstd::prelude::*;

use crate::bounds::{lemma_of_int_exact, lemma_quotient_exact};
use crate::config::{config_error, Config, ConfigError};
use crate::double::{of_int, quotient, Double};
use crate::environment::{lookup, Environment};
use crate::pricing::{lemma_half_fits, lemma_one_is_large};
use crate::text::{signed_value, unsigned_value};
use crate::weather::hundredths;

verus! {

/// What a variable is set to.
pub open spec fn given(env: &Environment, name: Seq<char>) -> Option<Seq<char>> {
    match lookup(env.text@, name, 0) {
        Some(s) => Some(s@),
        None => None,
    }
}

/// What a variable is set to, as a number.
pub open spec fn given_number(env: &Environment, name: Seq<char>) -> Option<Option<Double>> {
    lookup(env.numbers@, name, 0)
}

/// `value` is what a switch is set to, or else the default.
pub open spec fn is_switch(env: &Environment, name: Seq<char>, default: bool, value: bool) -> bool {
    match given(env, name) {
        Some(s) => (s == "true"@ && value) || (s == "false"@ && !value),
        None => value == default,
    }
}

/// `value` is what a variable is set to, or else the default.
pub open spec fn is_text(
    env: &Environment,
    name: Seq<char>,
    default: Seq<char>,
    value: Seq<char>,
) -> bool {
    match given(env, name) {
        Some(s) => value == s,
        None => value == default,
    }
}

/// `value` is the unsigned integer that a variable is set to, or else the default.
pub open spec fn is_count(env: &Environment, name: Seq<char>, default: int, value: int) -> bool {
    match given(env, name) {
        Some(s) => unsigned_value(s) matches Some(n) && n == value,
        None => value == default,
    }
}

/// `value` is the integer that a variable is set to, or else the default.
pub open spec fn is_integer(env: &Environment, name: Seq<char>, default: int, value: int) -> bool {
    match given(env, name) {
        Some(s) => signed_value(s) == Some(value),
        None => value == default,
    }
}

/// `value` is the number that a variable is set to, or else `m` halves.
pub open spec fn is_number(env: &Environment, name: Seq<char>, m: int, value: Double) -> bool {
    match given_number(env, name) {
        Some(x) => x == Some(value),
        None => value.is_finite() && 2 * value.scaled() == m * pow2(1074),
    }
}

/// The first value of a name counts.
pub proof fn lemma_first_value_counts<T>(list: Seq<(String, T)>, name: Seq<char>, from: int, i: int)
    requires
        0 <= from <= i <= list.len(),
        forall|j: int| from <= j < i ==> (#[trigger] list[j]).0@ != name,
        i < list.len() ==> list[i].0@ == name,
    ensures
        i < list.len() ==> lookup(list, name, from) == Some(list[i].1),
        i == list.len() ==> lookup(list, name, from) is None,
    decreases i - from,
{
    if from < i {
        assert(list[from].0@ != name);
        lemma_first_value_counts(list, name, from + 1, i);
    }
}

/// The sources of data are set by the variables of their names.
pub proof fn lemma_sources_by_name(env: &Environment, c: &Config)
    requires
        c.has_sources(env),
    ensures
        is_switch(env, "ENABLE_MCP"@, true, c.enable_mcp),
        is_switch(env, "USE_LEGACY_STATUS"@, true, c.use_legacy_status),
        is_switch(env, "USE_HUAWEI"@, false, c.use_huawei),
        is_switch(env, "USE_SOLAREDGE"@, false, c.use_solaredge),
        is_switch(env, "USE_LIVE_STATUS"@, false, c.use_live_status),
        is_switch(env, "HUAWEI_INVERT_GRID_SIGN"@, false, c.huawei_invert_grid_sign),
        is_text(env, "STATUS_URL"@, "http://192.168.178.11/status/soc.txt"@, c.status_url@),
        is_text(env, "LIVE_STATUS_URL"@, "https://hoxdna.org/getEnergy"@, c.live_status_url@),
        is_text(env, "HUAWEI_API_URL"@, "https://eu5.fusionsolar.huawei.com"@, c.huawei_api_url@),
        is_text(env, "HUAWEI_USERNAME"@, ""@, c.huawei_username@),
        is_text(env, "HUAWEI_SYSTEM_CODE"@, ""@, c.huawei_system_code@),
        is_text(env, "SOLAREDGE_API_URL"@, "https://monitoringapi.solaredge.com"@, c.solaredge_api_url@),
        is_text(env, "SOLAREDGE_API_KEY"@, ""@, c.solaredge_api_key@),
        is_text(env, "SOLAREDGE_SITE_ID"@, ""@, c.solaredge_site_id@),
        match c.huawei_station_code {
            Some(code) => given(env, "HUAWEI_STATION_CODE"@) == Some(code@) && code@.len() > 0,
            None => match given(env, "HUAWEI_STATION_CODE"@) {
                Some(code) => code.len() == 0,
                None => true,
            },
        },
{
}

/// The control loop is set by the variables of its names. Without prices nothing is controlled.
pub proof fn lemma_control_by_name(env: &Environment, c: &Config)
    requires
        config_error(env) is None,
        c.has_control(env),
    ensures
        is_switch(env, "USE_PRICING"@, true, c.enable_pricing),
        c.enable_pricing ==> is_switch(
            env,
            "ENABLE_HEATPUMP_CONTROL"@,
            true,
            c.enable_heatpump_control,
        ),
        c.enable_pricing ==> is_switch(
            env,
            "ENABLE_BATTERY_CONTROL"@,
            true,
            c.enable_battery_control,
        ),
        !c.enable_pricing ==> !c.enable_heatpump_control && !c.enable_battery_control,
        is_text(env, "SHELLY_IP"@, ""@, c.shelly_ip@),
        is_switch(env, "RELAY_ON_TO_BLOCK"@, false, c.relay_on_to_block),
        is_count(env, "CHECK_INTERVAL_MINUTES"@, 5, c.check_interval_minutes as int),
        c.status_poll_seconds > 1 ==> is_count(
            env,
            "STATUS_POLL_SECONDS"@,
            10,
            c.status_poll_seconds as int,
        ),
        c.status_poll_seconds == 1 ==> is_count(env, "STATUS_POLL_SECONDS"@, 10, 1) || is_count(
            env,
            "STATUS_POLL_SECONDS"@,
            10,
            0,
        ),
        c.status_poll_seconds >= 1,
        is_integer(env, "MAX_CONTINUOUS_BLOCK_MINUTES"@, 120, c.max_continuous_block_minutes as int),
        is_integer(env, "MIN_REST_TIME_MINUTES"@, 60, c.min_rest_time_minutes as int),
        is_integer(env, "LOOKAHEAD_HOURS"@, 6, c.lookahead_hours as int),
        is_number(env, "BLOCK_PRICE_PERCENTILE"@, 2int * 75, c.block_price_percentile),
        is_number(env, "LOW_PRICE_PERCENTILE"@, 2int * 10, c.low_price_percentile),
        is_number(env, "HIGH_SPIKE_PERCENTILE"@, 2int * 95, c.high_spike_percentile),
        is_number(env, "MIN_SPIKE_DIFFERENCE_CENTS"@, 2int * 10, c.min_spike_difference_cents),
{
    reveal_strlit("true");
    reveal_strlit("false");
    assert("true"@.len() == 4);
    assert("false"@.len() == 5);
    lemma_of_int_exact(75);
    lemma_of_int_exact(10);
    lemma_of_int_exact(95);
}

/// Battery and site are set by the variables of their names. The charge that low prices are used
/// for is set for a season, or else for all.
pub proof fn lemma_site_by_name(env: &Environment, c: &Config)
    requires
        c.has_site(env),
    ensures
        is_text(env, "SSH_HOST"@, ""@, c.ssh_host@),
        is_text(env, "SSH_USER"@, ""@, c.ssh_user@),
        is_text(env, "SSH_PASS"@, ""@, c.ssh_pass@),
        is_count(env, "SUMMER_MIN_SOC"@, 10, c.summer_min_soc as int),
        is_count(env, "WINTER_MIN_SOC"@, 20, c.winter_min_soc as int),
        given(env, "WINTER_FORCE_CHARGE_SOC"@) is Some ==> is_count(
            env,
            "WINTER_FORCE_CHARGE_SOC"@,
            60,
            c.winter_force_charge_soc as int,
        ),
        given(env, "WINTER_FORCE_CHARGE_SOC"@) is None ==> is_count(
            env,
            "FORCE_CHARGE_SOC"@,
            60,
            c.winter_force_charge_soc as int,
        ),
        given(env, "SUMMER_FORCE_CHARGE_SOC"@) is Some ==> is_count(
            env,
            "SUMMER_FORCE_CHARGE_SOC"@,
            30,
            c.summer_force_charge_soc as int,
        ),
        given(env, "SUMMER_FORCE_CHARGE_SOC"@) is None ==> is_count(
            env,
            "FORCE_CHARGE_SOC"@,
            30,
            c.summer_force_charge_soc as int,
        ),
        is_number(env, "BATTERY_SIZE_KWH"@, 2int * 10, c.battery_size_kwh),
        is_number(env, "PV_SIZE_KWP"@, 2int * 5, c.pv_size_kwp),
        is_number(env, "HEATING_OFF_TEMP_C"@, 2int * 15, c.heating_off_temp_c),
        is_number(env, "BASE_LOAD_KW"@, 1, c.base_load_kw),
        is_number(env, "HEATING_KWH_PER_H_AT_0C"@, 3, c.heating_kwh_per_h_at_0c),
        given_number(env, "LATITUDE"@) == Some(Some(c.lat)) || (given_number(env, "LATITUDE"@)
            is None && c.lat == quotient(of_int(482_082), of_int(10_000))),
        given_number(env, "LONGITUDE"@) == Some(Some(c.lon)) || (given_number(env, "LONGITUDE"@)
            is None && c.lon == quotient(of_int(163_738), of_int(10_000))),
{
    lemma_of_int_exact(10);
    lemma_of_int_exact(5);
    lemma_of_int_exact(15);
    lemma_halves();
}

/// 50 hundredths are a half, and 150 hundredths are three halves.
proof fn lemma_halves()
    ensures
        hundredths(50).is_finite(),
        2 * hundredths(50).scaled() == pow2(1074),
        hundredths(150).is_finite(),
        2 * hundredths(150).scaled() == 3 * pow2(1074),
{
    let u = pow2(1074) as int;
    lemma_pow2_pos(1074);
    lemma_of_int_exact(1);
    lemma_of_int_exact(3);
    lemma_of_int_exact(50);
    lemma_of_int_exact(100);
    lemma_of_int_exact(150);
    lemma_one_is_large(of_int(1));
    lemma_half_fits(of_int(1));
    lemma_one_is_large(of_int(3));
    lemma_half_fits(of_int(3));
    let v = (of_int(1).magnitude() / 2) as int;
    let w = (of_int(3).magnitude() / 2) as int;
    assert(v * (100 * u) == (50 * u) * u) by (nonlinear_arith)
        requires
            2 * v == u,
    ;
    lemma_quotient_exact(of_int(50), of_int(100), v);
    assert(w * (100 * u) == (150 * u) * u) by (nonlinear_arith)
        requires
            2 * w == 3 * u,
    ;
    lemma_quotient_exact(of_int(150), of_int(100), w);
}

/// Settings that can be used give access to what is switched on: the battery's controller always,
/// FusionSolar and SolarEdge where they are used, and the relay where the heat pump is controlled.
pub proof fn lemma_access_is_set(env: &Environment, c: &Config)
    requires
        config_error(env) is None,
        c.has_sources(env),
        c.has_control(env),
    ensures
        given(env, "SSH_HOST"@) is Some,
        given(env, "SSH_USER"@) is Some,
        given(env, "SSH_PASS"@) is Some,
        c.use_huawei ==> given(env, "HUAWEI_USERNAME"@) is Some && given(
            env,
            "HUAWEI_SYSTEM_CODE"@,
        ) is Some,
        c.use_solaredge ==> given(env, "SOLAREDGE_API_KEY"@) is Some && given(
            env,
            "SOLAREDGE_SITE_ID"@,
        ) is Some,
        c.enable_heatpump_control ==> given(env, "SHELLY_IP"@) is Some,
{
}

/// What is said to be wrong is wrong: what is missing is not set, what is asked for by a switch is
/// not set while the switch is on, and what cannot be read is set.
pub proof fn lemma_errors_are_real(env: &Environment)
    ensures
        match config_error(env) {
            Some(ConfigError::Missing(s)) => given(env, s.label()) is None && (s.label()
                == "SSH_HOST"@ || s.label() == "SSH_USER"@ || s.label() == "SSH_PASS"@),
            Some(ConfigError::RequiredBy(s, by)) => {
                &&& given(env, s.label()) is None
                &&& given(env, by.label()) == Some("true"@) || (given(env, by.label()) is None
                    && by.label() == "ENABLE_HEATPUMP_CONTROL"@)
                &&& by.label() == "USE_HUAWEI"@ ==> s.label() == "HUAWEI_USERNAME"@ || s.label()
                    == "HUAWEI_SYSTEM_CODE"@
                &&& by.label() == "USE_SOLAREDGE"@ ==> s.label() == "SOLAREDGE_API_KEY"@
                    || s.label() == "SOLAREDGE_SITE_ID"@
                &&& by.label() == "ENABLE_HEATPUMP_CONTROL"@ ==> s.label() == "SHELLY_IP"@
            },
            Some(ConfigError::Malformed(s, _)) => given(env, s.label()) is Some || given_number(
                env,
                s.label(),
            ) == Some(None::<Double>),
            None => true,
        },
{
    lemma_switch_names();
}

proof fn lemma_switch_names()
    ensures
        "USE_HUAWEI"@ != "USE_SOLAREDGE"@,
        "USE_HUAWEI"@ != "ENABLE_HEATPUMP_CONTROL"@,
        "USE_SOLAREDGE"@ != "ENABLE_HEATPUMP_CONTROL"@,
{
    reveal_strlit("USE_HUAWEI");
    reveal_strlit("USE_SOLAREDGE");
    reveal_strlit("ENABLE_HEATPUMP_CONTROL");
    assert("USE_HUAWEI"@.len() == 10);
    assert("USE_SOLAREDGE"@.len() == 13);
    assert("ENABLE_HEATPUMP_CONTROL"@.len() == 23);
}

} // verus!
