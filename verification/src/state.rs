//! What the controller publishes: the state that the web page and the tools show.

use vstd::prelude::*;
use vstd::string::*;

use crate::analysis::CompressorState;
use crate::config::Config;
use crate::double::{with_sign, Double};
use crate::moment::{MAX_SECS, MIN_SECS};
use crate::prices::{in_calendar_times, PriceInfo};
use crate::status::{blank_status, copy_list, StatusView, SystemStatus};

verus! {

/// Everything there is to show.
#[derive(Debug)]
pub struct AppState {
    pub prices: Vec<PriceInfo>,
    pub current_price: Double,
    pub block_threshold: Double,
    pub low_price_threshold: Double,
    pub spike_threshold: Double,
    pub compressor_decision: CompressorState,
    pub soc_decision: u8,
    pub system_status: SystemStatus,
    pub status_message: String,
    pub expected_pv_kwh: Double,
    /// Seconds since 1970-01-01 and kW, hour by hour.
    pub hourly_pv_kw: Vec<(Double, Double)>,
    /// Seconds since 1970-01-01 and kW, hour by hour.
    pub hourly_heating_kw: Vec<(Double, Double)>,
    pub show_thresholds: bool,
    pub show_decisions: bool,
}

/// The contents of a state.
#[verifier::ext_equal]
pub struct StateView {
    pub prices: Seq<PriceInfo>,
    pub current_price: Double,
    pub block_threshold: Double,
    pub low_price_threshold: Double,
    pub spike_threshold: Double,
    pub compressor_decision: CompressorState,
    pub soc_decision: u8,
    pub system_status: StatusView,
    pub status_message: Seq<char>,
    pub expected_pv_kwh: Double,
    pub hourly_pv_kw: Seq<(Double, Double)>,
    pub hourly_heating_kw: Seq<(Double, Double)>,
    pub show_thresholds: bool,
    pub show_decisions: bool,
}

impl View for AppState {
    type V = StateView;

    open spec fn view(&self) -> StateView {
        StateView {
            prices: self.prices@,
            current_price: self.current_price,
            block_threshold: self.block_threshold,
            low_price_threshold: self.low_price_threshold,
            spike_threshold: self.spike_threshold,
            compressor_decision: self.compressor_decision,
            soc_decision: self.soc_decision,
            system_status: self.system_status@,
            status_message: self.status_message@,
            expected_pv_kwh: self.expected_pv_kwh,
            hourly_pv_kw: self.hourly_pv_kw@,
            hourly_heating_kw: self.hourly_heating_kw@,
            show_thresholds: self.show_thresholds,
            show_decisions: self.show_decisions,
        }
    }
}

/// A state without prices, thresholds, decisions and forecasts.
pub open spec fn bare_state(
    status: StatusView,
    message: Seq<char>,
    show_thresholds: bool,
    show_decisions: bool,
) -> StateView {
    let zero = with_sign(false, 0);
    StateView {
        prices: seq![],
        current_price: zero,
        block_threshold: zero,
        low_price_threshold: zero,
        spike_threshold: zero,
        compressor_decision: CompressorState::Allowed,
        soc_decision: 0,
        system_status: status,
        status_message: message,
        expected_pv_kwh: zero,
        hourly_pv_kw: seq![],
        hourly_heating_kw: seq![],
        show_thresholds,
        show_decisions,
    }
}

/// Whether there are decisions to show.
pub open spec fn shows_decisions(config: &Config) -> bool {
    config.enable_heatpump_control || config.enable_battery_control
}

impl AppState {
    fn bare(
        status: SystemStatus,
        message: String,
        show_thresholds: bool,
        show_decisions: bool,
    ) -> (r: AppState)
        ensures
            r@ == bare_state(status@, message@, show_thresholds, show_decisions),
    {
        AppState {
            prices: Vec::new(),
            current_price: Double::zero(),
            block_threshold: Double::zero(),
            low_price_threshold: Double::zero(),
            spike_threshold: Double::zero(),
            compressor_decision: CompressorState::Allowed,
            soc_decision: 0,
            system_status: status,
            status_message: message,
            expected_pv_kwh: Double::zero(),
            hourly_pv_kw: Vec::new(),
            hourly_heating_kw: Vec::new(),
            show_thresholds,
            show_decisions,
        }
    }

    /// A message alone. All panels are shown: whoever reads the message wants to see its cause.
    pub fn new_with_status(message: String) -> (r: AppState)
        ensures
            r@ == bare_state(blank_status(), message@, true, true),
    {
        AppState::bare(SystemStatus::default(), message, true, true)
    }

    /// What is shown before anything has been analysed; the panels are those of the mode that the
    /// controller runs in.
    pub fn live_bootstrap(config: &Config) -> (r: AppState)
        ensures
            r@ == bare_state(
                blank_status(),
                seq![],
                config.enable_pricing,
                shows_decisions(config),
            ),
    {
        AppState::bare(
            SystemStatus::default(),
            String::new(),
            config.enable_pricing,
            config.enable_heatpump_control || config.enable_battery_control,
        )
    }

    /// What is shown when prices are not used: the live status alone.
    pub fn without_pricing(status: SystemStatus) -> (r: AppState)
        ensures
            r@ == bare_state(status@, seq![], false, false),
    {
        AppState::bare(status, String::new(), false, false)
    }

    /// What is shown once a new live status is there: what was shown before with that status, or
    /// else that status alone.
    pub fn with_status(shown: Option<AppState>, config: &Config, status: SystemStatus) -> (r:
        AppState)
        ensures
            r@ == (StateView {
                system_status: status@,
                ..match shown {
                    Some(s) => s@,
                    None => bare_state(
                        blank_status(),
                        seq![],
                        config.enable_pricing,
                        shows_decisions(config),
                    ),
                }
            }),
    {
        let mut state: AppState = match shown {
            Some(s) => s,
            None => AppState::live_bootstrap(config),
        };
        state.patch_status(status);
        state
    }

    /// Whether all prices are for times within the calendar.
    pub fn has_calendar_times(&self) -> (r: bool)
        ensures
            r == in_calendar_times(self@.prices),
    {
        let mut i: usize = 0;
        while i < self.prices.len()
            invariant
                i <= self.prices.len(),
                forall|j: int|
                    0 <= j < i ==> MIN_SECS <= (#[trigger] self.prices@[j]).from.secs <= MAX_SECS,
            decreases self.prices.len() - i,
        {
            let secs: i64 = self.prices[i].from.secs;
            if secs < MIN_SECS || secs > MAX_SECS {
                assert(self.prices@[i as int].from.secs == secs);
                return false;
            }
            i = i + 1;
        }
        true
    }

    /// Replaces the live status and nothing else.
    pub fn patch_status(&mut self, status: SystemStatus)
        ensures
            final(self)@ == (StateView { system_status: status@, ..old(self)@ }),
            final(self).system_status == status,
            final(self).prices == old(self).prices,
            final(self).soc_decision == old(self).soc_decision,
            final(self).compressor_decision == old(self).compressor_decision,
            final(self).status_message == old(self).status_message,
    {
        self.system_status = status;
    }
}

impl Clone for AppState {
    fn clone(&self) -> (r: AppState)
        ensures
            r@ == self@,
    {
        AppState {
            prices: copy_list(&self.prices),
            current_price: self.current_price,
            block_threshold: self.block_threshold,
            low_price_threshold: self.low_price_threshold,
            spike_threshold: self.spike_threshold,
            compressor_decision: self.compressor_decision,
            soc_decision: self.soc_decision,
            system_status: self.system_status.clone(),
            status_message: self.status_message.as_str().to_owned(),
            expected_pv_kwh: self.expected_pv_kwh,
            hourly_pv_kw: copy_list(&self.hourly_pv_kw),
            hourly_heating_kw: copy_list(&self.hourly_heating_kw),
            show_thresholds: self.show_thresholds,
            show_decisions: self.show_decisions,
        }
    }
}

/// A state without an analysis shows its status and its message, and no price, threshold, decision
/// or forecast.
pub proof fn lemma_bare_state(
    status: StatusView,
    message: Seq<char>,
    show_thresholds: bool,
    show_decisions: bool,
)
    ensures
        ({
            let s = bare_state(status, message, show_thresholds, show_decisions);
            &&& s.system_status == status
            &&& s.status_message == message
            &&& s.show_thresholds == show_thresholds
            &&& s.show_decisions == show_decisions
            &&& s.prices.len() == 0
            &&& s.hourly_pv_kw.len() == 0
            &&& s.hourly_heating_kw.len() == 0
            &&& s.current_price.scaled() == 0
            &&& s.block_threshold.scaled() == 0
            &&& s.low_price_threshold.scaled() == 0
            &&& s.spike_threshold.scaled() == 0
            &&& s.expected_pv_kwh.scaled() == 0
            &&& s.compressor_decision is Allowed
            &&& s.soc_decision == 0
        }),
{
    crate::bounds::lemma_below_zero(with_sign(false, 0));
}

/// What a state holds is what its fields hold, each under its own name.
pub proof fn lemma_state_view(s: AppState)
    ensures
        s@.prices == s.prices@,
        s@.current_price == s.current_price,
        s@.block_threshold == s.block_threshold,
        s@.low_price_threshold == s.low_price_threshold,
        s@.spike_threshold == s.spike_threshold,
        s@.compressor_decision == s.compressor_decision,
        s@.soc_decision == s.soc_decision,
        s@.system_status.soc == s.system_status.soc,
        s@.system_status.pv_power == s.system_status.pv_power,
        s@.system_status.load_power == s.system_status.load_power,
        s@.system_status.grid_power == s.system_status.grid_power,
        s@.system_status.battery_power == s.system_status.battery_power,
        s@.system_status.soc_histogram == s.system_status.soc_histogram@,
        s@.system_status.pv_histogram == s.system_status.pv_histogram@,
        s@.system_status.load_histogram == s.system_status.load_histogram@,
        s@.system_status.grid_histogram == s.system_status.grid_histogram@,
        s@.system_status.battuse_histogram == s.system_status.battuse_histogram@,
        s@.status_message == s.status_message@,
        s@.expected_pv_kwh == s.expected_pv_kwh,
        s@.hourly_pv_kw == s.hourly_pv_kw@,
        s@.hourly_heating_kw == s.hourly_heating_kw@,
        s@.show_thresholds == s.show_thresholds,
        s@.show_decisions == s.show_decisions,
{
}

} // verus!
