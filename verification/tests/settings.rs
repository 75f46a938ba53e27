//! Settings from environment variables.

use energy_controller::config::{load_config, Config, ConfigError};
use energy_controller::double::Double;
use energy_controller::environment::{Environment, Setting};
use energy_controller::text::Misread;
use energy_controller::web::{context_path, listen_address, web_port};

fn d(x: f64) -> Double {
    Double { bits: x.to_bits() }
}

fn environment(list: &[(&str, &str)]) -> Environment {
    Environment {
        text: list
            .iter()
            .map(|(k, v)| (k.to_string(), v.to_string()))
            .collect(),
        numbers: list
            .iter()
            .map(|(k, v)| (k.to_string(), v.parse::<f64>().ok().map(d)))
            .collect(),
    }
}

const NEEDED: [(&str, &str); 4] = [
    ("SSH_HOST", "victron"),
    ("SSH_USER", "root"),
    ("SSH_PASS", "pw"),
    ("SHELLY_IP", "10.0.0.5"),
];

fn load(changes: &[(&str, &str)]) -> Result<Config, ConfigError> {
    let mut list: Vec<(&str, &str)> = changes.to_vec();
    list.extend(NEEDED);
    load_config(&environment(&list))
}

#[test]
fn defaults_are_used() {
    let c = load(&[]).unwrap();
    assert!(c.enable_pricing && c.enable_heatpump_control && c.enable_battery_control);
    assert!(c.enable_mcp && c.use_legacy_status);
    assert!(!c.use_huawei && !c.use_solaredge && !c.use_live_status);
    assert_eq!(c.status_url, "http://192.168.178.11/status/soc.txt");
    assert_eq!(c.live_status_url, "https://hoxdna.org/getEnergy");
    assert_eq!(c.huawei_api_url, "https://eu5.fusionsolar.huawei.com");
    assert_eq!(c.solaredge_api_url, "https://monitoringapi.solaredge.com");
    assert_eq!(c.huawei_username, "");
    assert!(c.huawei_station_code.is_none());
    assert!(!c.huawei_invert_grid_sign && !c.relay_on_to_block);
    assert_eq!(c.shelly_ip, "10.0.0.5");
    assert_eq!(c.check_interval_minutes, 5);
    assert_eq!(c.status_poll_seconds, 10);
    assert_eq!(c.block_price_percentile, d(75.0));
    assert_eq!(c.max_continuous_block_minutes, 120);
    assert_eq!(c.min_rest_time_minutes, 60);
    assert_eq!(c.lookahead_hours, 6);
    assert_eq!(c.low_price_percentile, d(10.0));
    assert_eq!(c.high_spike_percentile, d(95.0));
    assert_eq!(c.min_spike_difference_cents, d(10.0));
    assert_eq!((c.winter_force_charge_soc, c.summer_force_charge_soc), (60, 30));
    assert_eq!((c.summer_min_soc, c.winter_min_soc), (10, 20));
    assert_eq!(c.lat, d(48.2082));
    assert_eq!(c.lon, d(16.3738));
    assert_eq!(c.battery_size_kwh, d(10.0));
    assert_eq!(c.pv_size_kwp, d(5.0));
    assert_eq!(c.base_load_kw, d(0.5));
    assert_eq!(c.heating_off_temp_c, d(15.0));
    assert_eq!(c.heating_kwh_per_h_at_0c, d(1.5));
    assert_eq!((c.ssh_host, c.ssh_user, c.ssh_pass), ("victron".into(), "root".into(), "pw".into()));
}

#[test]
fn values_are_read() {
    let c = load(&[
        ("USE_HUAWEI", "true"),
        ("HUAWEI_USERNAME", "u"),
        ("HUAWEI_SYSTEM_CODE", "s"),
        ("HUAWEI_STATION_CODE", "NE=1"),
        ("HUAWEI_INVERT_GRID_SIGN", "true"),
        ("ENABLE_MCP", "false"),
        ("RELAY_ON_TO_BLOCK", "true"),
        ("CHECK_INTERVAL_MINUTES", "+7"),
        ("STATUS_POLL_SECONDS", "0"),
        ("MAX_CONTINUOUS_BLOCK_MINUTES", "-5"),
        ("LOW_PRICE_PERCENTILE", "12.5"),
        ("LATITUDE", "-33.9"),
        ("SUMMER_MIN_SOC", "255"),
    ])
    .unwrap();
    assert!(c.use_huawei && !c.enable_mcp && c.huawei_invert_grid_sign && c.relay_on_to_block);
    assert_eq!(c.huawei_station_code, Some("NE=1".to_string()));
    assert_eq!((c.huawei_username, c.huawei_system_code), ("u".into(), "s".into()));
    assert_eq!(c.check_interval_minutes, 7);
    // At least a second.
    assert_eq!(c.status_poll_seconds, 1);
    assert_eq!(c.max_continuous_block_minutes, -5);
    assert_eq!(c.low_price_percentile, d(12.5));
    assert_eq!(c.lat, d(-33.9));
    assert_eq!(c.summer_min_soc, 255);
    let c = load(&[("HUAWEI_STATION_CODE", "")]).unwrap();
    assert!(c.huawei_station_code.is_none());
}

#[test]
fn without_pricing_nothing_is_controlled() {
    let mut list: Vec<(&str, &str)> = NEEDED[..3].to_vec();
    list.push(("USE_PRICING", "false"));
    list.push(("ENABLE_HEATPUMP_CONTROL", "true"));
    let c = load_config(&environment(&list)).unwrap();
    assert!(!c.enable_pricing && !c.enable_heatpump_control && !c.enable_battery_control);
    assert_eq!(c.shelly_ip, "");
}

#[test]
fn the_charge_for_low_prices_can_be_set_for_all_seasons() {
    let c = load(&[("FORCE_CHARGE_SOC", "80")]).unwrap();
    assert_eq!((c.winter_force_charge_soc, c.summer_force_charge_soc), (80, 80));
    let c = load(&[("FORCE_CHARGE_SOC", "80"), ("SUMMER_FORCE_CHARGE_SOC", "40")]).unwrap();
    assert_eq!((c.winter_force_charge_soc, c.summer_force_charge_soc), (80, 40));
    assert_eq!(
        load(&[("FORCE_CHARGE_SOC", "much")]).unwrap_err(),
        ConfigError::Malformed(Setting::ForceChargeSoc, Misread::WrongDigit)
    );
}

#[test]
fn what_is_missing_is_named() {
    let missing = |name: &str, changes: &[(&str, &str)]| {
        let mut list: Vec<(&str, &str)> = changes.to_vec();
        list.extend(NEEDED.iter().filter(|(k, _)| *k != name));
        load_config(&environment(&list)).unwrap_err()
    };
    assert_eq!(missing("SSH_HOST", &[]), ConfigError::Missing(Setting::SshHost));
    assert_eq!(missing("SSH_USER", &[]), ConfigError::Missing(Setting::SshUser));
    assert_eq!(missing("SSH_PASS", &[]).text(), "SSH_PASS not set");
    assert_eq!(
        missing("SHELLY_IP", &[]).text(),
        "SHELLY_IP not set (required when ENABLE_HEATPUMP_CONTROL=true)"
    );
    assert_eq!(
        load(&[("USE_HUAWEI", "true")]).unwrap_err(),
        ConfigError::RequiredBy(Setting::HuaweiUsername, Setting::UseHuawei)
    );
    assert_eq!(
        load(&[("USE_HUAWEI", "true"), ("HUAWEI_USERNAME", "u")]).unwrap_err().text(),
        "HUAWEI_SYSTEM_CODE not set (required when USE_HUAWEI=true)"
    );
    assert_eq!(
        load(&[("USE_SOLAREDGE", "true")]).unwrap_err().text(),
        "SOLAREDGE_API_KEY not set (required when USE_SOLAREDGE=true)"
    );
    assert_eq!(
        load(&[("USE_SOLAREDGE", "true"), ("SOLAREDGE_API_KEY", "k")]).unwrap_err(),
        ConfigError::RequiredBy(Setting::SolaredgeSiteId, Setting::UseSolaredge)
    );
}

#[test]
fn what_cannot_be_read_is_named() {
    for (name, value, setting, why) in [
        ("USE_LEGACY_STATUS", "yes", Setting::UseLegacyStatus, Misread::NotTruth),
        ("ENABLE_MCP", "True", Setting::EnableMcp, Misread::NotTruth),
        ("RELAY_ON_TO_BLOCK", "1", Setting::RelayOnToBlock, Misread::NotTruth),
        ("CHECK_INTERVAL_MINUTES", "-1", Setting::CheckIntervalMinutes, Misread::WrongDigit),
        ("CHECK_INTERVAL_MINUTES", "18446744073709551616", Setting::CheckIntervalMinutes, Misread::TooLarge),
        ("STATUS_POLL_SECONDS", "", Setting::StatusPollSeconds, Misread::NoInteger),
        ("LOOKAHEAD_HOURS", "6.0", Setting::LookaheadHours, Misread::WrongDigit),
        ("LOOKAHEAD_HOURS", "9223372036854775808", Setting::LookaheadHours, Misread::TooLarge),
        ("BLOCK_PRICE_PERCENTILE", "high", Setting::BlockPricePercentile, Misread::NotNumber),
        ("SUMMER_MIN_SOC", "256", Setting::SummerMinSoc, Misread::TooLarge),
        ("WINTER_FORCE_CHARGE_SOC", "x", Setting::WinterForceChargeSoc, Misread::WrongDigit),
        ("HEATING_KWH_PER_H_AT_0C", "1,5", Setting::HeatingKwhPerHAt0c, Misread::NotNumber),
    ] {
        assert_eq!(load(&[(name, value)]).unwrap_err(), ConfigError::Malformed(setting, why));
    }
    assert_eq!(
        load(&[("USE_PRICING", "maybe")]).unwrap_err().text(),
        "maybe".parse::<bool>().unwrap_err().to_string()
    );
    for value in ["", "high", "1,5"] {
        assert_eq!(
            load(&[("PV_SIZE_KWP", value)]).unwrap_err().text(),
            value.parse::<f64>().unwrap_err().to_string()
        );
    }
    assert_eq!(
        load(&[("SUMMER_MIN_SOC", "256")]).unwrap_err().text(),
        "256".parse::<u8>().unwrap_err().to_string()
    );
    // The first error in order is the one that is told.
    assert_eq!(
        load(&[("SUMMER_MIN_SOC", "x"), ("USE_HUAWEI", "x")]).unwrap_err(),
        ConfigError::Malformed(Setting::UseHuawei, Misread::NotTruth)
    );
    assert_eq!(load(&[("LOOKAHEAD_HOURS", "-9223372036854775808")]).unwrap().lookahead_hours, i64::MIN);
}

#[test]
fn the_server_listens_where_it_is_told() {
    assert_eq!(web_port(&environment(&[])), 8080);
    assert_eq!(web_port(&environment(&[("WEB_PORT", "9000")])), 9000);
    assert_eq!(web_port(&environment(&[("WEB_PORT", "65536")])), 8080);
    assert_eq!(web_port(&environment(&[("WEB_PORT", "x")])), 8080);
    assert_eq!(listen_address(8080), "0.0.0.0:8080");
    let path = |p: &str| context_path(&environment(&[("APP_CONTEXT_PATH", p)]));
    assert_eq!(context_path(&environment(&[])), "");
    assert_eq!(path(""), "");
    assert_eq!(path("energy"), "/energy");
    assert_eq!(path("/energy/"), "/energy");
    assert_eq!(path("energy/"), "/energy");
    assert_eq!(path("/"), "");
    assert_eq!(path("a/b"), "/a/b");
}
