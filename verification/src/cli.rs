//! The command line, as plain values: a subcommand and run-mode overrides.
use vstd::prelude::*;

verus! {

/// Subcommands of the program.
#[derive(Clone, Copy, Debug, PartialEq, Eq, Structural)]
pub enum SubCommand {
    /// Open `config.json` in the user's editor.
    Config,
    /// Generate and activate a systemd user service for the bot.
    InstallService,
}

/// Parsed command line.
pub struct Cli {
    pub command: Option<SubCommand>,
    /// Override of the bot token.
    pub token: Option<String>,
    /// Override of the Telegram chat id.
    pub chat_id: Option<i64>,
    /// Override of the class filter (repeatable flag; empty when not given).
    pub filter: Vec<String>,
}

impl Cli {
    /// The filter override carried by the command line: none when no
    /// pattern was given.
    pub fn filter_override(self) -> (r: Option<Vec<String>>)
        ensures
            r == (if self.filter@.len() == 0 { None } else { Some(self.filter) }),
    {
        if self.filter.len() == 0 {
            None
        } else {
            Some(self.filter)
        }
    }
}

} // verus!

verus! {

/// The systemd user unit that runs the bot binary at `binary`.
pub open spec fn service_unit_text(binary: Seq<char>) -> Seq<char> {
    "[Unit]\nDescription=DUT Notify Bot\nAfter=network-online.target\nWants=network-online.target\n\n[Service]\nType=simple\nExecStart="@
        + binary
        + "\nRestart=on-failure\nRestartSec=30\n\n[Install]\nWantedBy=default.target\n"@
}

/// The systemd user unit that runs the bot binary at `binary`.
pub fn service_unit(binary: &str) -> (r: String)
    ensures
        r@ == service_unit_text(binary@),
{
    crate::text::concat3(
        "[Unit]\nDescription=DUT Notify Bot\nAfter=network-online.target\nWants=network-online.target\n\n[Service]\nType=simple\nExecStart=",
        binary,
        "\nRestart=on-failure\nRestartSec=30\n\n[Install]\nWantedBy=default.target\n",
    )
}

} // verus!
