//! Console/output panel: controller responses, command history and message
//! filtering.

use std::collections::VecDeque;
use vstd::prelude::*;
use crate::text::{contains_seq, lowercase, push_char, push_str};

verus! {

/// Console message level
#[derive(Debug, Clone, Copy, PartialEq, Eq, Structural)]
pub enum MessageLevel {
    /// Debug message
    Debug,
    /// Info message
    Info,
    /// Warning message
    Warning,
    /// Error message
    Error,
    /// Success message
    Success,
}

impl MessageLevel {
    /// The tag shown for the level.
    pub open spec fn label(self) -> Seq<char> {
        match self {
            MessageLevel::Debug => "DEBUG"@,
            MessageLevel::Info => "INFO"@,
            MessageLevel::Warning => "WARN"@,
            MessageLevel::Error => "ERR"@,
            MessageLevel::Success => "OK"@,
        }
    }

    /// The tag shown for the level: DEBUG, INFO, WARN, ERR or OK.
    pub fn to_string(&self) -> (s: String)
        ensures
            s@ == self.label(),
    {
        match self {
            MessageLevel::Debug => "DEBUG".to_owned(),
            MessageLevel::Info => "INFO".to_owned(),
            MessageLevel::Warning => "WARN".to_owned(),
            MessageLevel::Error => "ERR".to_owned(),
            MessageLevel::Success => "OK".to_owned(),
        }
    }
}

/// Console message
#[derive(Debug)]
pub struct ConsoleMessage {
    /// Message level
    pub level: MessageLevel,
    /// Message text
    pub text: String,
    /// Timestamp (seconds since epoch)
    pub timestamp: u64,
    /// Is command echo
    pub is_command: bool,
}

impl Clone for ConsoleMessage {
    fn clone(&self) -> (r: Self)
        ensures
            r == *self,
    {
        ConsoleMessage {
            level: self.level,
            text: self.text.clone(),
            timestamp: self.timestamp,
            is_command: self.is_command,
        }
    }
}

/// The two decimal digits of `n` (below 100), with a leading zero, as
/// `{:02}` prints them.
pub open spec fn two_digits(n: int) -> Seq<char> {
    seq![crate::text::digit_char(n / 10), crate::text::digit_char(n % 10)]
}

/// "[LEVEL] text".
pub open spec fn plain_format(m: ConsoleMessage) -> Seq<char> {
    "["@ + m.level.label() + "] "@ + m.text@
}

/// "[hh:mm:ss] [LEVEL] text", where the time is the timestamp's time of day
/// (UTC).
pub open spec fn timed_format(m: ConsoleMessage) -> Seq<char> {
    let t = m.timestamp as int;
    "["@ + two_digits((t / 3600) % 24) + ":"@ + two_digits((t / 60) % 60) + ":"@ + two_digits(t % 60)
        + "] "@ + plain_format(m)
}

/// Appends the two-digit rendering of `n`.
fn push_two_digits(s: &mut String, n: u64)
    requires
        n < 100,
    ensures
        final(s)@ == old(s)@ + two_digits(n as int),
{
    push_char(s, crate::text::digit(n / 10));
    push_char(s, crate::text::digit(n % 10));
}

impl ConsoleMessage {
    /// Create new message
    pub fn new(level: MessageLevel, text: &str) -> (m: Self)
        ensures
            m.level == level,
            m.text@ == text@,
            !m.is_command,
    {
        let timestamp = crate::clock::unix_time_secs();
        ConsoleMessage { level, text: text.to_owned(), timestamp, is_command: false }
    }

    /// Create command message
    pub fn command(text: &str) -> (m: Self)
        ensures
            m.level == MessageLevel::Info,
            m.text@ == text@,
            m.is_command,
    {
        let mut msg = Self::new(MessageLevel::Info, text);
        msg.is_command = true;
        msg
    }

    /// Get formatted message
    pub fn formatted(&self) -> (s: String)
        ensures
            s@ == plain_format(*self),
    {
        let mut s = String::new();
        push_str(&mut s, "[");
        let label = self.level.to_string();
        push_str(&mut s, label.as_str());
        push_str(&mut s, "] ");
        push_str(&mut s, self.text.as_str());
        s
    }

    /// Get formatted message with timestamp
    pub fn formatted_with_time(&self) -> (s: String)
        ensures
            s@ == timed_format(*self),
    {
        let hours = (self.timestamp / 3600) % 24;
        let minutes = (self.timestamp / 60) % 60;
        let seconds = self.timestamp % 60;
        let mut s = String::new();
        push_str(&mut s, "[");
        push_two_digits(&mut s, hours);
        push_str(&mut s, ":");
        push_two_digits(&mut s, minutes);
        push_str(&mut s, ":");
        push_two_digits(&mut s, seconds);
        push_str(&mut s, "] ");
        let rest = self.formatted();
        push_str(&mut s, rest.as_str());
        s
    }
}

/// Message filter for console
#[derive(Debug)]
pub struct MessageFilter {
    /// Show debug messages
    pub debug: bool,
    /// Show info messages
    pub info: bool,
    /// Show warning messages
    pub warning: bool,
    /// Show error messages
    pub error: bool,
    /// Show success messages
    pub success: bool,
    /// Show command echos
    pub commands: bool,
    /// Text search filter (case-insensitive)
    pub text_filter: Option<String>,
}

impl Clone for MessageFilter {
    fn clone(&self) -> (r: Self)
        ensures
            r == *self,
    {
        MessageFilter {
            debug: self.debug,
            info: self.info,
            warning: self.warning,
            error: self.error,
            success: self.success,
            commands: self.commands,
            text_filter: match &self.text_filter {
                Some(t) => Some(t.clone()),
                None => None,
            },
        }
    }
}

/// Whether the filter shows messages of this level.
pub open spec fn level_shown(f: MessageFilter, level: MessageLevel) -> bool {
    match level {
        MessageLevel::Debug => f.debug,
        MessageLevel::Info => f.info,
        MessageLevel::Warning => f.warning,
        MessageLevel::Error => f.error,
        MessageLevel::Success => f.success,
    }
}

/// A message passes the filter when its level is shown, it is not a command
/// echo unless those are shown, and, when there is a text filter, the
/// lower-cased text contains the lower-cased filter.
pub open spec fn passes(f: MessageFilter, m: ConsoleMessage) -> bool {
    &&& level_shown(f, m.level)
    &&& (m.is_command ==> f.commands)
    &&& match f.text_filter {
        Some(t) => contains_seq(lowercase(m.text@), lowercase(t@)),
        None => true,
    }
}

impl MessageFilter {
    /// Create filter showing all messages
    pub fn show_all() -> (f: Self)
        ensures
            f.debug && f.info && f.warning && f.error && f.success && f.commands,
            f.text_filter is None,
    {
        MessageFilter {
            debug: true,
            info: true,
            warning: true,
            error: true,
            success: true,
            commands: true,
            text_filter: None,
        }
    }

    /// Create filter showing only errors
    pub fn errors_only() -> (f: Self)
        ensures
            !f.debug && !f.info && !f.warning && f.error && !f.success && !f.commands,
            f.text_filter is None,
    {
        MessageFilter {
            debug: false,
            info: false,
            warning: false,
            error: true,
            success: false,
            commands: false,
            text_filter: None,
        }
    }

    /// Check if message passes filter
    pub fn matches(&self, msg: &ConsoleMessage) -> (b: bool)
        ensures
            b == passes(*self, *msg),
    {
        let level_match = match msg.level {
            MessageLevel::Debug => self.debug,
            MessageLevel::Info => self.info,
            MessageLevel::Warning => self.warning,
            MessageLevel::Error => self.error,
            MessageLevel::Success => self.success,
        };
        if !level_match {
            return false;
        }
        if msg.is_command && !self.commands {
            return false;
        }
        match &self.text_filter {
            Some(filter) => {
                let text_lower = crate::text::to_lowercase(msg.text.as_str());
                let filter_lower = crate::text::to_lowercase(filter.as_str());
                let t = crate::text::chars_of(text_lower.as_str());
                let f = crate::text::chars_of(filter_lower.as_str());
                crate::text::contains_chars(&t, &f)
            },
            None => true,
        }
    }
}

impl Default for MessageFilter {
    fn default() -> (f: Self)
        ensures
            f.debug && f.info && f.warning && f.error && f.success && f.commands,
            f.text_filter is None,
    {
        Self::show_all()
    }
}

/// Command history entry
#[derive(Debug)]
pub struct HistoryEntry {
    /// Command text
    pub command: String,
    /// Timestamp
    pub timestamp: u64,
}

impl Clone for HistoryEntry {
    fn clone(&self) -> (r: Self)
        ensures
            r == *self,
    {
        HistoryEntry { command: self.command.clone(), timestamp: self.timestamp }
    }
}

impl HistoryEntry {
    /// Create new history entry
    pub fn new(command: &str) -> (e: Self)
        ensures
            e.command@ == command@,
    {
        let timestamp = crate::clock::unix_time_secs();
        HistoryEntry { command: command.to_owned(), timestamp }
    }
}

/// The messages of `s` that pass the filter, in order.
pub open spec fn passing(f: MessageFilter, s: Seq<ConsoleMessage>) -> Seq<ConsoleMessage>
    decreases s.len(),
{
    if s.len() == 0 {
        Seq::empty()
    } else {
        let r = passing(f, s.drop_last());
        if passes(f, s.last()) {
            r.push(s.last())
        } else {
            r
        }
    }
}

/// `s` after one entry was appended to a buffer that keeps at most `max`
/// entries: when the buffer has grown past `max`, its oldest entry goes.
pub open spec fn bounded<T>(s: Seq<T>, max: nat) -> Seq<T> {
    if s.len() > max {
        s.drop_first()
    } else {
        s
    }
}

/// The window of `f` shown with room for `limit` lines when the view is
/// scrolled `scroll` lines up from the end: all of `f` when it fits,
/// otherwise `limit` consecutive messages ending `scroll` before the end, or
/// the first `limit` when it is scrolled past the start.
pub open spec fn window<T>(f: Seq<T>, limit: nat, scroll: nat) -> Seq<T> {
    if f.len() <= limit {
        f
    } else {
        let start = if f.len() >= limit + scroll { f.len() - (limit + scroll) } else { 0 };
        f.subrange(start, start + limit)
    }
}

/// One displayed line for a message.
pub open spec fn display_line(m: ConsoleMessage, with_time: bool) -> Seq<char> {
    if with_time {
        timed_format(m)
    } else {
        plain_format(m)
    }
}

/// Console/Output panel
#[derive(Debug)]
pub struct ConsolePanel {
    /// All messages
    pub messages: VecDeque<ConsoleMessage>,
    /// Command history
    pub history: VecDeque<HistoryEntry>,
    /// Current filter
    pub filter: MessageFilter,
    /// Maximum messages to keep
    pub max_messages: usize,
    /// Maximum history entries to keep
    pub max_history: usize,
    /// Auto-scroll enabled
    pub auto_scroll: bool,
    /// Current scroll position (from end)
    pub scroll_position: usize,
    /// Show timestamps
    pub show_timestamps: bool,
}

impl ConsolePanel {
    /// The messages that the current filter lets through.
    pub open spec fn filtered(self) -> Seq<ConsoleMessage> {
        passing(self.filter, self.messages@)
    }

    /// Create new console panel
    pub fn new() -> (p: Self)
        ensures
            p.messages@.len() == 0,
            p.history@.len() == 0,
            p.filter.debug && p.filter.info && p.filter.warning && p.filter.error
                && p.filter.success && p.filter.commands,
            p.filter.text_filter is None,
            p.max_messages == 1000,
            p.max_history == 100,
            p.auto_scroll,
            p.scroll_position == 0,
            p.show_timestamps,
    {
        ConsolePanel {
            messages: VecDeque::new(),
            history: VecDeque::new(),
            filter: MessageFilter::default(),
            max_messages: 1000,
            max_history: 100,
            auto_scroll: true,
            scroll_position: 0,
            show_timestamps: true,
        }
    }

    /// Appends a message, drops the oldest one when there are now more than
    /// `max_messages`, and scrolls to the end when auto-scroll is on.
    fn push_message(&mut self, msg: ConsoleMessage)
        ensures
            final(self).messages@ == bounded(old(self).messages@.push(msg), old(self).max_messages as nat),
            final(self).scroll_position == if old(self).auto_scroll { 0 } else { old(self).scroll_position },
            final(self).history == old(self).history,
            final(self).filter == old(self).filter,
            final(self).max_messages == old(self).max_messages,
            final(self).max_history == old(self).max_history,
            final(self).auto_scroll == old(self).auto_scroll,
            final(self).show_timestamps == old(self).show_timestamps,
    {
        self.messages.push_back(msg);
        if self.messages.len() > self.max_messages {
            self.messages.pop_front();
        }
        if self.auto_scroll {
            self.scroll_position = 0;
        }
    }

    /// Add message to console
    pub fn add_message(&mut self, level: MessageLevel, text: &str)
        ensures
            exists|m: ConsoleMessage|
                m.level == level && m.text@ == text@ && !m.is_command
                    && final(self).messages@ == bounded(old(self).messages@.push(m), old(self).max_messages as nat),
            final(self).scroll_position == if old(self).auto_scroll { 0 } else { old(self).scroll_position },
            final(self).history == old(self).history,
            final(self).filter == old(self).filter,
            final(self).max_messages == old(self).max_messages,
            final(self).max_history == old(self).max_history,
            final(self).auto_scroll == old(self).auto_scroll,
            final(self).show_timestamps == old(self).show_timestamps,
    {
        let msg = ConsoleMessage::new(level, text);
        self.push_message(msg);
    }

    /// Add command message
    pub fn add_command(&mut self, command: &str)
        ensures
            exists|m: ConsoleMessage|
                m.level == MessageLevel::Info && m.text@ == command@ && m.is_command
                    && final(self).messages@ == bounded(old(self).messages@.push(m), old(self).max_messages as nat),
            final(self).scroll_position == if old(self).auto_scroll { 0 } else { old(self).scroll_position },
            final(self).history == old(self).history,
            final(self).filter == old(self).filter,
            final(self).max_messages == old(self).max_messages,
            final(self).max_history == old(self).max_history,
            final(self).auto_scroll == old(self).auto_scroll,
            final(self).show_timestamps == old(self).show_timestamps,
    {
        let msg = ConsoleMessage::command(command);
        self.push_message(msg);
    }

    /// Add to command history
    pub fn add_to_history(&mut self, command: &str)
        ensures
            exists|e: HistoryEntry|
                e.command@ == command@
                    && final(self).history@ == bounded(old(self).history@.push(e), old(self).max_history as nat),
            final(self).messages == old(self).messages,
            final(self).filter == old(self).filter,
            final(self).max_messages == old(self).max_messages,
            final(self).max_history == old(self).max_history,
            final(self).auto_scroll == old(self).auto_scroll,
            final(self).scroll_position == old(self).scroll_position,
            final(self).show_timestamps == old(self).show_timestamps,
    {
        let entry = HistoryEntry::new(command);
        self.history.push_back(entry);
        if self.history.len() > self.max_history {
            self.history.pop_front();
        }
    }

    /// Get command history list
    pub fn get_history(&self) -> (v: Vec<String>)
        ensures
            v@.len() == self.history@.len(),
            forall|i: int| 0 <= i < v@.len() ==> #[trigger] v@[i]@ == self.history@[i].command@,
    {
        let mut v: Vec<String> = Vec::new();
        let mut i: usize = 0;
        while i < self.history.len()
            invariant
                i <= self.history@.len(),
                v@.len() == i,
                forall|k: int| 0 <= k < i ==> #[trigger] v@[k]@ == self.history@[k].command@,
            decreases self.history@.len() - i,
        {
            v.push(self.history[i].command.clone());
            i = i + 1;
        }
        v
    }

    /// Get filtered messages
    pub fn get_filtered_messages(&self) -> (v: Vec<ConsoleMessage>)
        ensures
            v@ == self.filtered(),
    {
        let mut v: Vec<ConsoleMessage> = Vec::new();
        let mut i: usize = 0;
        while i < self.messages.len()
            invariant
                i <= self.messages@.len(),
                v@ == passing(self.filter, self.messages@.take(i as int)),
            decreases self.messages@.len() - i,
        {
            proof {
                assert(self.messages@.take(i + 1).drop_last() == self.messages@.take(i as int));
            }
            let m = &self.messages[i];
            if self.filter.matches(m) {
                v.push(m.clone());
            }
            i = i + 1;
        }
        proof {
            assert(self.messages@.take(self.messages@.len() as int) == self.messages@);
        }
        v
    }

    /// Get displayed messages (respecting scroll)
    pub fn get_displayed_messages(&self, limit: usize) -> (v: Vec<ConsoleMessage>)
        requires
            self.filtered().len() > limit ==> limit + self.scroll_position <= usize::MAX,
        ensures
            v@ == window(self.filtered(), limit as nat, self.scroll_position as nat),
    {
        let filtered = self.get_filtered_messages();
        let total = filtered.len();
        if total <= limit {
            filtered
        } else {
            let start = total.saturating_sub(limit + self.scroll_position);
            let end = start + limit;
            let stop = if end < total { end } else { total };
            let mut v: Vec<ConsoleMessage> = Vec::new();
            let mut i = start;
            while i < stop
                invariant
                    start <= i <= stop <= total == filtered@.len(),
                    v@ == filtered@.subrange(start as int, i as int),
                decreases stop - i,
            {
                v.push(filtered[i].clone());
                proof {
                    assert(filtered@.subrange(start as int, i + 1)
                        == filtered@.subrange(start as int, i as int).push(filtered@[i as int]));
                }
                i = i + 1;
            }
            v
        }
    }

    /// Get displayed message strings
    pub fn get_displayed_strings(&self, limit: usize) -> (v: Vec<String>)
        requires
            self.filtered().len() > limit ==> limit + self.scroll_position <= usize::MAX,
        ensures
            ({
                let d = window(self.filtered(), limit as nat, self.scroll_position as nat);
                &&& v@.len() == d.len()
                &&& forall|i: int|
                    0 <= i < v@.len() ==> #[trigger] v@[i]@ == display_line(
                        d[d.len() - 1 - i],
                        self.show_timestamps,
                    )
            }),
    {
        let d = self.get_displayed_messages(limit);
        let mut v: Vec<String> = Vec::new();
        let mut i: usize = d.len();
        while i > 0
            invariant
                i <= d@.len(),
                v@.len() == d@.len() - i,
                forall|k: int|
                    0 <= k < v@.len() ==> #[trigger] v@[k]@ == display_line(
                        d@[d@.len() - 1 - k],
                        self.show_timestamps,
                    ),
            decreases i,
        {
            i = i - 1;
            let line = if self.show_timestamps {
                d[i].formatted_with_time()
            } else {
                d[i].formatted()
            };
            v.push(line);
        }
        v
    }

    /// Clear all messages
    pub fn clear(&mut self)
        ensures
            final(self).messages@.len() == 0,
            final(self).scroll_position == 0,
            final(self).history == old(self).history,
            final(self).filter == old(self).filter,
            final(self).max_messages == old(self).max_messages,
            final(self).max_history == old(self).max_history,
            final(self).auto_scroll == old(self).auto_scroll,
            final(self).show_timestamps == old(self).show_timestamps,
    {
        self.messages.clear();
        self.scroll_position = 0;
    }

    /// Clear history
    pub fn clear_history(&mut self)
        ensures
            final(self).history@.len() == 0,
            final(self).messages == old(self).messages,
            final(self).filter == old(self).filter,
            final(self).max_messages == old(self).max_messages,
            final(self).max_history == old(self).max_history,
            final(self).auto_scroll == old(self).auto_scroll,
            final(self).scroll_position == old(self).scroll_position,
            final(self).show_timestamps == old(self).show_timestamps,
    {
        self.history.clear();
    }

    /// Set filter
    pub fn set_filter(&mut self, filter: MessageFilter)
        ensures
            final(self).filter == filter,
            final(self).scroll_position == 0,
            final(self).messages == old(self).messages,
            final(self).history == old(self).history,
            final(self).max_messages == old(self).max_messages,
            final(self).max_history == old(self).max_history,
            final(self).auto_scroll == old(self).auto_scroll,
            final(self).show_timestamps == old(self).show_timestamps,
    {
        self.filter = filter;
        self.scroll_position = 0;
    }

    /// Toggle debug messages
    pub fn toggle_debug(&mut self)
        ensures
            *final(self) == (ConsolePanel {
                filter: MessageFilter { debug: !old(self).filter.debug, ..old(self).filter },
                ..*old(self)
            }),
    {
        self.filter.debug = !self.filter.debug;
    }

    /// Toggle info messages
    pub fn toggle_info(&mut self)
        ensures
            *final(self) == (ConsolePanel {
                filter: MessageFilter { info: !old(self).filter.info, ..old(self).filter },
                ..*old(self)
            }),
    {
        self.filter.info = !self.filter.info;
    }

    /// Toggle warning messages
    pub fn toggle_warning(&mut self)
        ensures
            *final(self) == (ConsolePanel {
                filter: MessageFilter { warning: !old(self).filter.warning, ..old(self).filter },
                ..*old(self)
            }),
    {
        self.filter.warning = !self.filter.warning;
    }

    /// Toggle error messages
    pub fn toggle_error(&mut self)
        ensures
            *final(self) == (ConsolePanel {
                filter: MessageFilter { error: !old(self).filter.error, ..old(self).filter },
                ..*old(self)
            }),
    {
        self.filter.error = !self.filter.error;
    }

    /// Toggle command echos
    pub fn toggle_commands(&mut self)
        ensures
            *final(self) == (ConsolePanel {
                filter: MessageFilter { commands: !old(self).filter.commands, ..old(self).filter },
                ..*old(self)
            }),
    {
        self.filter.commands = !self.filter.commands;
    }

    /// Set text filter
    pub fn set_text_filter(&mut self, text: Option<String>)
        ensures
            *final(self) == (ConsolePanel {
                filter: MessageFilter { text_filter: text, ..old(self).filter },
                ..*old(self)
            }),
    {
        self.filter.text_filter = text;
    }

    /// Scroll up
    pub fn scroll_up(&mut self)
        ensures
            *final(self) == (ConsolePanel {
                scroll_position: if old(self).scroll_position < usize::MAX {
                    (old(self).scroll_position + 1) as usize
                } else {
                    usize::MAX
                },
                ..*old(self)
            }),
    {
        self.scroll_position = self.scroll_position.saturating_add(1);
    }

    /// Scroll down
    pub fn scroll_down(&mut self)
        ensures
            *final(self) == (ConsolePanel {
                scroll_position: if old(self).scroll_position > 0 {
                    (old(self).scroll_position - 1) as usize
                } else {
                    0
                },
                ..*old(self)
            }),
    {
        self.scroll_position = self.scroll_position.saturating_sub(1);
    }

    /// Get message count (total)
    pub fn message_count(&self) -> (n: usize)
        ensures
            n == self.messages@.len(),
    {
        self.messages.len()
    }

    /// Get filtered message count
    pub fn filtered_count(&self) -> (n: usize)
        ensures
            n == self.filtered().len(),
    {
        self.get_filtered_messages().len()
    }

    /// Get history count
    pub fn history_count(&self) -> (n: usize)
        ensures
            n == self.history@.len(),
    {
        self.history.len()
    }
}

/// With a text filter set, a message of a shown level (and not a hidden
/// command echo) passes whenever the filter's lower-cased text occurs
/// anywhere in the message's lower-cased text, at any position `k`; it is
/// hidden when it occurs nowhere.
pub proof fn law_text_filter_matches_anywhere(f: MessageFilter, m: ConsoleMessage, k: int)
    requires
        level_shown(f, m.level),
        m.is_command ==> f.commands,
        f.text_filter is Some,
    ensures
        ({
            let lm = lowercase(m.text@);
            let lt = lowercase(f.text_filter->0@);
            &&& (0 <= k && k + lt.len() <= lm.len() && lm.subrange(k, k + lt.len()) == lt) ==> passes(f, m)
            &&& passes(f, m) ==> exists|j: int|
                0 <= j && j + lt.len() <= lm.len() && #[trigger] lm.subrange(j, j + lt.len()) == lt
        }),
{
    let lm = lowercase(m.text@);
    let lt = lowercase(f.text_filter->0@);
    if 0 <= k && k + lt.len() <= lm.len() && lm.subrange(k, k + lt.len()) == lt {
        assert(crate::text::occurs_at(lm, lt, k));
    }
    if passes(f, m) {
        let j = choose|j: int| crate::text::occurs_at(lm, lt, j);
        assert(lm.subrange(j, j + lt.len()) == lt);
    }
}

/// A filter that shows every level and command echoes and has no text
/// filter lets every message through, in order.
pub proof fn law_show_all_passes_everything(f: MessageFilter, s: Seq<ConsoleMessage>)
    requires
        f.debug && f.info && f.warning && f.error && f.success && f.commands,
        f.text_filter is None,
    ensures
        passing(f, s) == s,
    decreases s.len(),
{
    if s.len() > 0 {
        law_show_all_passes_everything(f, s.drop_last());
        assert(s.drop_last().push(s.last()) =~= s);
    }
}

/// The errors-only filter lets through exactly the errors that are not
/// command echoes.
pub proof fn law_errors_only_keeps_errors(f: MessageFilter, s: Seq<ConsoleMessage>)
    requires
        !f.debug && !f.info && !f.warning && f.error && !f.success && !f.commands,
        f.text_filter is None,
    ensures
        forall|m: ConsoleMessage| #[trigger] passes(f, m) <==> (m.level == MessageLevel::Error && !m.is_command),
        forall|m: ConsoleMessage|
            #![trigger passing(f, s).contains(m)]
            #![trigger s.contains(m)]
            passing(f, s).contains(m) <==> (s.contains(m) && !m.is_command && m.level
                == MessageLevel::Error),
    decreases s.len(),
{
    if s.len() > 0 {
        law_errors_only_keeps_errors(f, s.drop_last());
        let r = passing(f, s.drop_last());
        assert forall|m: ConsoleMessage|
            #![trigger passing(f, s).contains(m)]
            #![trigger s.contains(m)]
            passing(f, s).contains(m) <==> (s.contains(m) && !m.is_command && m.level
                == MessageLevel::Error) by {
            assert(s =~= s.drop_last().push(s.last()));
            if passes(f, s.last()) {
                assert(passing(f, s) == r.push(s.last()));
                if r.push(s.last()).contains(m) {
                    let k = choose|k: int| 0 <= k < r.push(s.last()).len() && r.push(s.last())[k] == m;
                    if k < r.len() {
                        assert(r[k] == m);
                        assert(r.contains(m));
                    } else {
                        assert(m == s.last());
                        assert(s[s.len() - 1] == m);
                    }
                }
                if r.contains(m) {
                    let k = choose|k: int| 0 <= k < r.len() && r[k] == m;
                    assert(r.push(s.last())[k] == m);
                }
                assert(r.push(s.last())[r.len() as int] == s.last());
            }
            if s.contains(m) {
                let k = choose|k: int| 0 <= k < s.len() && s[k] == m;
                if k < s.len() - 1 {
                    assert(s.drop_last()[k] == m);
                }
            }
            if s.drop_last().contains(m) {
                let k = choose|k: int| 0 <= k < s.drop_last().len() && s.drop_last()[k] == m;
                assert(s[k] == m);
            }
        }
    } else {
        assert(passing(f, s) =~= Seq::<ConsoleMessage>::empty());
        assert forall|m: ConsoleMessage|
            #![trigger passing(f, s).contains(m)]
            #![trigger s.contains(m)]
            passing(f, s).contains(m) <==> (s.contains(m) && !m.is_command && m.level
                == MessageLevel::Error) by {
            assert(!passing(f, s).contains(m));
            assert(!s.contains(m));
        }
    }
}

/// Appending to a buffer that holds at most `max` entries and then
/// trimming it with `bounded` keeps it at most `max` long, keeps its entries
/// in order as a suffix of the appended sequence, and keeps the new entry
/// last when `max` is not zero.
pub proof fn law_bounded_append<T>(s: Seq<T>, x: T, max: nat)
    requires
        s.len() <= max,
    ensures
        bounded(s.push(x), max).len() <= max,
        bounded(s.push(x), max) == s.push(x).skip(s.push(x).len() - bounded(s.push(x), max).len()),
        max > 0 ==> bounded(s.push(x), max).last() == x,
{
    let t = s.push(x);
    if t.len() > max {
        assert(t.drop_first() =~= t.skip(1));
    } else {
        assert(t.skip(0) =~= t);
    }
}

impl Default for ConsolePanel {
    fn default() -> (p: Self)
        ensures
            p.messages@.len() == 0,
            p.history@.len() == 0,
            p.filter.debug && p.filter.info && p.filter.warning && p.filter.error
                && p.filter.success && p.filter.commands,
            p.filter.text_filter is None,
            p.max_messages == 1000,
            p.max_history == 100,
            p.auto_scroll,
            p.scroll_position == 0,
            p.show_timestamps,
    {
        Self::new()
    }
}

} // verus!
