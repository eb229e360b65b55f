//! The verbosity of the log, as read from a side file.

use crate::utils::text::{trim, trimmed};
use vstd::prelude::*;
use vstd::string::StringSliceAdditionalSpecFns;

verus! {

/// Verbosity levels, from silent to most detailed.
#[derive(Clone, Copy, PartialEq, Eq, Debug, Structural)]
pub enum LogLevel {
    Off,
    Error,
    Warn,
    Info,
    Debug,
    Trace,
}

/// The lower-case form of an ASCII letter; any other byte unchanged.
pub open spec fn lower(b: u8) -> u8 {
    if 0x41 <= b && b <= 0x5a {
        (b + 0x20) as u8
    } else {
        b
    }
}

/// `text` is `word` up to the case of ASCII letters. `word` is in lower case.
pub open spec fn spells(text: Seq<u8>, word: Seq<u8>) -> bool {
    &&& text.len() == word.len()
    &&& forall|i: int| 0 <= i < text.len() ==> lower(text[i]) == word[i]
}

/// The level that the content of the level file names: `debug`, `info`,
/// `warn` or `error`, in any case and with whitespace around it. Any other
/// content means `info`.
pub open spec fn level_named(content: Seq<u8>) -> LogLevel {
    let word = trimmed(content);
    if spells(word, "debug".spec_bytes()) {
        LogLevel::Debug
    } else if spells(word, "info".spec_bytes()) {
        LogLevel::Info
    } else if spells(word, "warn".spec_bytes()) {
        LogLevel::Warn
    } else if spells(word, "error".spec_bytes()) {
        LogLevel::Error
    } else {
        LogLevel::Info
    }
}

/// Tells whether `text` is `word` up to the case of ASCII letters.
fn spells_word(text: &[u8], word: &[u8]) -> (r: bool)
    ensures
        r == spells(text@, word@),
{
    let n = text.len();
    if n != word.len() {
        return false;
    }
    let mut i: usize = 0;
    while i < n
        invariant
            n == text@.len(),
            n == word@.len(),
            i <= n,
            forall|j: int| 0 <= j < i ==> lower(text@[j]) == word@[j],
        decreases n - i,
    {
        let b = text[i];
        let low = if 0x41 <= b && b <= 0x5a {
            b + 0x20
        } else {
            b
        };
        if low != word[i] {
            return false;
        }
        i += 1;
    }
    true
}

/// Hands `level` to the logging facade as the most detailed level that is
/// still logged.
///
/// Calls `log::set_max_level` with the filter of the same name. Nothing is
/// claimed of the call: it stores the value in the facade's global state,
/// which the verified code never reads.
#[verifier::external_body]
fn apply_max_level(level: LogLevel) {
    log::set_max_level(
        match level {
            LogLevel::Off => log::LevelFilter::Off,
            LogLevel::Error => log::LevelFilter::Error,
            LogLevel::Warn => log::LevelFilter::Warn,
            LogLevel::Info => log::LevelFilter::Info,
            LogLevel::Debug => log::LevelFilter::Debug,
            LogLevel::Trace => log::LevelFilter::Trace,
        },
    );
}

/// Keeps the verbosity in use.
#[derive(Debug)]
pub struct LogLevelManager {
    pub current_level: LogLevel,
}

impl LogLevelManager {
    /// Starts at `info`.
    pub fn new() -> (r: Self)
        ensures
            r.current_level == LogLevel::Info,
    {
        LogLevelManager { current_level: LogLevel::Info }
    }

    /// The level for what reading the level file gave: the level that the
    /// content names, and `info` when the file is missing or unreadable.
    pub fn read_log_level_config(content: Option<&[u8]>) -> (r: LogLevel)
        ensures
            r == (match content {
                Some(bytes) => level_named(bytes@),
                None => LogLevel::Info,
            }),
    {
        let bytes = match content {
            Some(bytes) => bytes,
            None => {
                return LogLevel::Info;
            },
        };
        let word = trim(bytes);
        if spells_word(word, "debug".as_bytes()) {
            LogLevel::Debug
        } else if spells_word(word, "info".as_bytes()) {
            LogLevel::Info
        } else if spells_word(word, "warn".as_bytes()) {
            LogLevel::Warn
        } else if spells_word(word, "error".as_bytes()) {
            LogLevel::Error
        } else {
            LogLevel::Info
        }
    }

    /// The level in use.
    pub fn get_current_level(&self) -> (r: LogLevel)
        ensures
            r == self.current_level,
    {
        self.current_level
    }

    /// Takes `new_level` into use. Where it differs from the level in use
    /// it is handed to the logging facade, and the result is `true`: the
    /// caller then tells whoever listens for changes.
    pub fn update_level(&mut self, new_level: LogLevel) -> (changed: bool)
        ensures
            final(self).current_level == new_level,
            changed == (old(self).current_level != new_level),
    {
        if self.current_level != new_level {
            self.current_level = new_level;
            apply_max_level(new_level);
            true
        } else {
            false
        }
    }
}

/// What a wait on the level file's change notification came back with.
#[derive(Clone, Copy, PartialEq, Eq, Debug, Structural)]
pub enum WatchEvent {
    /// The notification layer reported an error.
    WaitFailed,
    /// The file changed and is no longer there.
    Missing,
    /// The file changed and names this level.
    Level(LogLevel),
}

/// What the monitor does before it waits again.
#[derive(Clone, Copy, PartialEq, Eq, Debug, Structural)]
pub enum MonitorAction {
    /// Pause for so many milliseconds.
    Backoff(u64),
    /// Nothing.
    Wait,
    /// Tell whoever listens that the level changed to this one.
    Notify(LogLevel),
}

/// Pause after an error of the notification layer, in milliseconds.
pub const WATCH_BACKOFF_MILLIS: u64 = 1000;

impl LogLevelManager {
    /// Takes in one event of the monitor. An error of the notification layer
    /// is answered with a pause of one second and the monitor goes on; a
    /// missing file changes nothing; a level is taken into use, and
    /// announced where it differs from the level in use.
    pub fn monitor_step(&mut self, event: WatchEvent) -> (r: MonitorAction)
        ensures
            event == WatchEvent::WaitFailed ==> r == MonitorAction::Backoff(WATCH_BACKOFF_MILLIS)
                && final(self).current_level == old(self).current_level,
            event == WatchEvent::Missing ==> r == MonitorAction::Wait && final(self).current_level
                == old(self).current_level,
            event matches WatchEvent::Level(level) ==> final(self).current_level == level && r == (
            if old(self).current_level != level {
                MonitorAction::Notify(level)
            } else {
                MonitorAction::Wait
            }),
    {
        match event {
            WatchEvent::WaitFailed => MonitorAction::Backoff(WATCH_BACKOFF_MILLIS),
            WatchEvent::Missing => MonitorAction::Wait,
            WatchEvent::Level(level) => {
                if self.update_level(level) {
                    MonitorAction::Notify(level)
                } else {
                    MonitorAction::Wait
                }
            },
        }
    }
}

} // verus!
