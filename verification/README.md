# notify-bot-dut

A Telegram bot that follows the notice pages of the University of Science and
Technology, University of Da Nang (https://sv.dut.udn.vn) and forwards new
notices to a chat.

The library (`src/`) holds the logic, each function with a contract proved
by Verus:

| module        | what it does |
|---------------|--------------|
| `entity`      | notice categories and their names; notices, their SHA-256 identity and publication date |
| `dates`       | dates and date-times as plain values; parsing and printing through `chrono` |
| `fetch`       | notices of a page: the `scraper` walks read back as trees, caption and body text (links kept as `<a>` markup), date order of the fetched notices, page addresses, the step after a fetch attempt (notices, or retry in 10 s) |
| `utils`       | the whitelist applied to class notices; the step after a connectivity check (go on, or wait) |
| `scheduler`   | the period of the bot's rounds (one hour) |
| `controller`  | storing a notice (filter, look-up, insert), row keys, reading stored rows back |
| `bot`         | the message text, the wait asked for by flood control, giving up after five failed sends |
| `database`    | configuration: directory, file path, validation of the file, command-line overrides, SQLite URL and path |
| `cli`         | the command line as plain values, the systemd unit text |
| `text`        | string helpers: trimming, search, splitting, joining |

The program (`app/`) does the I/O: command line (clap), configuration file
(serde_json), SQLite (sqlx), HTTP (reqwest), Telegram (teloxide) and the
hourly schedule (tokio).
