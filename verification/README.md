# Energy controller

Decides when a home battery is charged from the grid and when a heat pump is held back, from
electricity prices, the weather forecast and the readings of the house. What it knows and decides
can be asked for over the web and by MCP clients.

## Layout

`src/` is the library. Everything in it is verified with Verus; the calls into `chrono`,
`chrono-tz` and `serde_json` stand behind a few trusted functions in `moment.rs` and `json.rs`.

| module | what it holds |
| --- | --- |
| `double`, `rounding`, `bounds` | binary64 arithmetic on bit patterns, and the laws of rounding |
| `text`, `json`, `order`, `series` | texts, documents, sorting, time series |
| `calendar`, `moment` | dates, and times on the Central European clock |
| `environment`, `config` | settings from environment variables |
| `prices`, `weather`, `analysis` | price cache, forecasts, decisions |
| `controller`, `laws` | the control loop, and what holds over any number of rounds |
| `status`, `state` | what the house does, what is published |
| `datasource`, `huawei` | the sources of live data |
| `documents`, `mcp`, `transport` | the tools and the protocol that they are called by |
| `web`, `commands` | pages, addresses, requests and commands |

`app/` is the program around it: threads, HTTP, SSH, the web server and the conversion of floating
point numbers to and from their bit patterns. `tests/` holds the tests.

## Settings

Settings are environment variables, which may stand in a `.env` file.

- `USE_PRICING` (true): without prices, neither heat pump nor battery is controlled.
- `ENABLE_HEATPUMP_CONTROL` (true), `SHELLY_IP`, `RELAY_ON_TO_BLOCK` (false),
  `BLOCK_PRICE_PERCENTILE` (75), `MAX_CONTINUOUS_BLOCK_MINUTES` (120),
  `MIN_REST_TIME_MINUTES` (60): the heat pump.
- `ENABLE_BATTERY_CONTROL` (true), `SSH_HOST`, `SSH_USER`, `SSH_PASS`, `LOOKAHEAD_HOURS` (6),
  `LOW_PRICE_PERCENTILE` (10), `HIGH_SPIKE_PERCENTILE` (95), `MIN_SPIKE_DIFFERENCE_CENTS` (10),
  `SUMMER_MIN_SOC` (10), `WINTER_MIN_SOC` (20), `FORCE_CHARGE_SOC`, `SUMMER_FORCE_CHARGE_SOC` (30),
  `WINTER_FORCE_CHARGE_SOC` (60): the battery. A seasonal charge goes before the general one.
- `USE_LEGACY_STATUS` (true), `STATUS_URL`; `USE_HUAWEI`, `HUAWEI_*`; `USE_SOLAREDGE`,
  `SOLAREDGE_*`; `USE_LIVE_STATUS`, `LIVE_STATUS_URL`: the data sources. Production and grid power
  are added up over the first three; the live source replaces current readings only.
- `CHECK_INTERVAL_MINUTES` (5), `STATUS_POLL_SECONDS` (10): how often decisions are made and
  readings are taken.
- `LATITUDE`, `LONGITUDE`, `BATTERY_SIZE_KWH` (10), `PV_SIZE_KWP` (5), `BASE_LOAD_KW` (0.5),
  `HEATING_OFF_TEMP_C` (15), `HEATING_KWH_PER_H_AT_0C` (1.5): the site.
- `WEB_PORT` (8080), `APP_CONTEXT_PATH`, `ENABLE_MCP` (true): the web server. Its pages are read
  from `static/index.html` and `static/keypad.html` when it starts.
