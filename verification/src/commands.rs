//! The requests and commands that go out, and what their replies mean.

use vstd::prelude::*;
use vstd::string::*;

use crate::analysis::CompressorState;
use crate::calendar::date_label;
use crate::config::Config;
use crate::datasource::is_success;
use crate::moment::{date_text, is_day};
use crate::text::{decimal, digits, write_decimal, write_digits};

verus! {

/// Which way the relay is to be switched: the setting says whether it is on to block or on to
/// allow.
pub open spec fn relay_action(state: CompressorState, on_to_block: bool) -> Seq<char> {
    if (state is Blocked) == on_to_block {
        "on"@
    } else {
        "off"@
    }
}

/// Blocking and allowing switch the relay in opposite ways, and so do the two settings.
pub proof fn lemma_relay_actions_differ(state: CompressorState, on_to_block: bool)
    ensures
        relay_action(CompressorState::Blocked, on_to_block) != relay_action(
            CompressorState::Allowed,
            on_to_block,
        ),
        relay_action(state, on_to_block) != relay_action(state, !on_to_block),
        relay_action(CompressorState::Blocked, true) == "on"@,
{
    reveal_strlit("on");
    reveal_strlit("off");
    assert("on"@.len() != "off"@.len());
}

/// Writes the request that switches the relay.
pub fn relay_url(config: &Config, state: CompressorState) -> (r: String)
    ensures
        r@ == "http://"@ + config.shelly_ip@ + "/relay/0?turn="@ + relay_action(
            state,
            config.relay_on_to_block,
        ),
        state is Blocked && config.relay_on_to_block ==> r@ == "http://"@ + config.shelly_ip@
            + "/relay/0?turn="@ + "on"@,
        state is Blocked && !config.relay_on_to_block ==> r@ == "http://"@ + config.shelly_ip@
            + "/relay/0?turn="@ + "off"@,
        state is Allowed && config.relay_on_to_block ==> r@ == "http://"@ + config.shelly_ip@
            + "/relay/0?turn="@ + "off"@,
        state is Allowed && !config.relay_on_to_block ==> r@ == "http://"@ + config.shelly_ip@
            + "/relay/0?turn="@ + "on"@,
{
    let action: &str = match (state, config.relay_on_to_block) {
        (CompressorState::Blocked, true) => "on",
        (CompressorState::Allowed, true) => "off",
        (CompressorState::Blocked, false) => "off",
        (CompressorState::Allowed, false) => "on",
    };
    "http://".to_owned().concat(config.shelly_ip.as_str()).concat("/relay/0?turn=").concat(action)
}

/// Writes the request for the prices of a day.
pub fn price_url(day: i32) -> (r: String)
    requires
        is_day(day as int),
    ensures
        r@ == "https://i.spottyenergie.at/api/prices/public/"@ + date_label(day as int),
{
    "https://i.spottyenergie.at/api/prices/public/".to_owned().concat(date_text(day).as_str())
}

/// Writes the request for the forecast at a place, given as degrees.
pub fn weather_url(latitude: &str, longitude: &str) -> (r: String)
    ensures
        r@ == "https://api.open-meteo.com/v1/forecast?latitude="@ + latitude@ + "&longitude="@
            + longitude@
            + "&hourly=temperature_2m,shortwave_radiation&forecast_days=2&timezone=auto"@,
{
    "https://api.open-meteo.com/v1/forecast?latitude=".to_owned().concat(latitude).concat(
        "&longitude=",
    ).concat(longitude).concat(
        "&hourly=temperature_2m,shortwave_radiation&forecast_days=2&timezone=auto",
    )
}

/// A service that requests are sent to.
#[derive(Clone, Copy, Debug, PartialEq, Eq, Structural)]
pub enum Service {
    Relay,
    Prices,
    Weather,
}

impl Service {
    /// What is said of a reply that is not a success.
    pub open spec fn refusal(self, status: Seq<char>) -> Seq<char> {
        match self {
            Service::Relay => "Shelly device responded with status: "@ + status,
            Service::Prices => "API request failed with status: "@ + status,
            Service::Weather => "Open-Meteo API failed: "@ + status,
        }
    }

    /// Checks the status of a reply; `shown` is the status as it is to be shown.
    pub fn check(self, status: u16, shown: &str) -> (r: Result<(), String>)
        ensures
            match r {
                Ok(_) => 200 <= status <= 299,
                Err(e) => !(200 <= status <= 299) && e@ == self.refusal(shown@),
            },
    {
        if is_success(status) {
            Ok(())
        } else {
            let prefix: &str = match self {
                Service::Relay => "Shelly device responded with status: ",
                Service::Prices => "API request failed with status: ",
                Service::Weather => "Open-Meteo API failed: ",
            };
            Err(prefix.to_owned().concat(shown))
        }
    }
}

/// Writes the address of the battery's controller.
pub fn ssh_address(config: &Config) -> (r: String)
    ensures
        r@ == config.ssh_host@ + ":22"@,
{
    config.ssh_host.as_str().to_owned().concat(":22")
}

/// Writes the command that sets the minimum charge.
pub fn soc_command(soc: u8) -> (r: String)
    ensures
        r@ == "dbus-send --system --print-reply --dest=com.victronenergy.settings /Settings/CGwacs/BatteryLife/MinimumSocLimit com.victronenergy.BusItem.SetValue variant:int32:"@
            + digits(soc as nat, 10),
{
    "dbus-send --system --print-reply --dest=com.victronenergy.settings /Settings/CGwacs/BatteryLife/MinimumSocLimit com.victronenergy.BusItem.SetValue variant:int32:".to_owned().concat(
        write_digits(soc as u64, 10).as_str(),
    )
}

/// How the command was carried out.
#[derive(Debug)]
pub enum SshOutcome {
    /// There was no connection.
    Unreachable,
    /// The login was refused.
    WrongPassword,
    /// The login was accepted, and yet there is none.
    NotAuthenticated,
    /// Something else went wrong.
    Failed(String),
    /// The command ended with the given status.
    Exited(i32),
}

impl SshOutcome {
    /// What went wrong, if anything.
    pub open spec fn problem(&self, config: &Config) -> Option<Seq<char>> {
        match self {
            SshOutcome::Unreachable => Some("Failed to connect to SSH host "@ + config.ssh_host@),
            SshOutcome::WrongPassword => Some(
                "SSH authentication failed. Check user/password."@,
            ),
            SshOutcome::NotAuthenticated => Some("SSH authentication failed silently."@),
            SshOutcome::Failed(e) => Some(e@),
            SshOutcome::Exited(status) => if *status == 0 {
                None
            } else {
                Some("SSH command failed with exit status "@ + decimal(*status as int))
            },
        }
    }

    /// Tells whether the command was carried out.
    pub fn result(self, config: &Config) -> (r: Result<(), String>)
        ensures
            self.problem(config) == (match r {
                Ok(_) => None,
                Err(e) => Some(e@),
            }),
    {
        match self {
            SshOutcome::Unreachable => Err(
                "Failed to connect to SSH host ".to_owned().concat(config.ssh_host.as_str()),
            ),
            SshOutcome::WrongPassword => Err(
                "SSH authentication failed. Check user/password.".to_owned(),
            ),
            SshOutcome::NotAuthenticated => Err("SSH authentication failed silently.".to_owned()),
            SshOutcome::Failed(e) => Err(e),
            SshOutcome::Exited(status) => if status == 0 {
                Ok(())
            } else {
                Err(
                    "SSH command failed with exit status ".to_owned().concat(
                        write_decimal(status as i64).as_str(),
                    ),
                )
            },
        }
    }
}

} // verus!
