//! Lines of a log, in colour.

use crate::text;
use crate::time;
use vstd::prelude::*;

verus! {

/// Ends a colour.
pub const RESET: &'static str = "\x1b[0m";

/// Begins dim text.
pub const DIM: &'static str = "\x1b[90m";

/// Begins blue text.
pub const BLUE: &'static str = "\x1b[34m";

/// Begins yellow text.
pub const YELLOW: &'static str = "\x1b[33m";

/// Begins red text.
pub const RED: &'static str = "\x1b[31m";

/// How serious a line is.
#[derive(Debug, Clone, Copy, PartialEq, Eq, Structural)]
pub enum Level {
    Info,
    Warn,
    Error,
}

/// The short name of a level.
pub open spec fn level_name(level: Level) -> Seq<char> {
    match level {
        Level::Info => "INF"@,
        Level::Warn => "WRN"@,
        Level::Error => "ERR"@,
    }
}

/// The colour of a level.
pub open spec fn level_colour(level: Level) -> Seq<char> {
    match level {
        Level::Info => BLUE@,
        Level::Warn => YELLOW@,
        Level::Error => RED@,
    }
}

/// The time of day, as hours, minutes and seconds of two digits each.
pub open spec fn time_of_day(secs: nat) -> Seq<char> {
    text::two_digits((secs / 3600) % 24) + ":"@ + text::two_digits((secs / 60) % 60) + ":"@
        + text::two_digits(secs % 60)
}

/// The tag of a logger in a line: nothing where it is empty.
pub open spec fn tag_part(tag: Seq<char>) -> Seq<char> {
    if tag.len() == 0 {
        Seq::empty()
    } else {
        " "@ + DIM@ + "["@ + tag + "]"@ + RESET@
    }
}

/// A whole line: the time of day, the tag, the level in its colour, and the
/// message.
pub open spec fn line(tag: Seq<char>, level: Level, secs: nat, msg: Seq<char>) -> Seq<char> {
    DIM@ + time_of_day(secs) + RESET@ + tag_part(tag) + " "@ + level_colour(level) + "["@
        + level_name(level) + "]"@ + RESET@ + " "@ + msg + "\n"@
}

/// A line for a message at some reading of the wall clock.
pub open spec fn is_line_now(
    s: Seq<char>,
    tag: Seq<char>,
    level: Level,
    msg: Seq<char>,
) -> bool {
    exists|now: std::time::SystemTime|
        time::wall_clock_showed(now) && s == line(
            tag,
            level,
            #[trigger] time::unix_span(now) / 1_000_000_000,
            msg,
        )
}

/// The time of day is that of the seconds since midnight, on every day: hours up to
/// 23, minutes and seconds, two digits each.
pub proof fn law_time_of_day(days: nat, hours: nat, minutes: nat, seconds: nat)
    requires
        hours < 24,
        minutes < 60,
        seconds < 60,
    ensures
        time_of_day(86400 * days + 3600 * hours + 60 * minutes + seconds) == text::two_digits(
            hours,
        ) + ":"@ + text::two_digits(minutes) + ":"@ + text::two_digits(seconds),
{
    let secs = 86400 * days + 3600 * hours + 60 * minutes + seconds;
    assert(secs / 3600 == 24 * days + hours);
    assert((24 * days + hours) % 24 == hours);
    assert(secs / 60 == 60 * (24 * days + hours) + minutes);
    assert((60 * (24 * days + hours) + minutes) % 60 == minutes);
    assert(secs % 60 == seconds);
}

/// A line is the time of day, the tag where there is one, the level by its name and
/// colour, and the message as it is.
pub proof fn law_line(tag: Seq<char>, secs: nat, msg: Seq<char>)
    ensures
        ({
            let time = "\x1b[90m"@ + time_of_day(secs) + "\x1b[0m"@;
            let info = "\x1b[34m"@ + "["@ + "INF"@ + "]"@ + "\x1b[0m"@;
            let warn = "\x1b[33m"@ + "["@ + "WRN"@ + "]"@ + "\x1b[0m"@;
            let error = "\x1b[31m"@ + "["@ + "ERR"@ + "]"@ + "\x1b[0m"@;
            let front = if tag.len() == 0 {
                time
            } else {
                time + (" "@ + "\x1b[90m"@ + "["@ + tag + "]"@ + "\x1b[0m"@)
            };
            &&& line(tag, Level::Info, secs, msg) == front + " "@ + info + " "@ + msg + "\n"@
            &&& line(tag, Level::Warn, secs, msg) == front + " "@ + warn + " "@ + msg + "\n"@
            &&& line(tag, Level::Error, secs, msg) == front + " "@ + error + " "@ + msg + "\n"@
        }),
{
    let time = "\x1b[90m"@ + time_of_day(secs) + "\x1b[0m"@;
    let info = "\x1b[34m"@ + "["@ + "INF"@ + "]"@ + "\x1b[0m"@;
    let warn = "\x1b[33m"@ + "["@ + "WRN"@ + "]"@ + "\x1b[0m"@;
    let error = "\x1b[31m"@ + "["@ + "ERR"@ + "]"@ + "\x1b[0m"@;
    let front = if tag.len() == 0 {
        time
    } else {
        time + (" "@ + "\x1b[90m"@ + "["@ + tag + "]"@ + "\x1b[0m"@)
    };
    assert(line(tag, Level::Info, secs, msg) =~= front + " "@ + info + " "@ + msg + "\n"@);
    assert(line(tag, Level::Warn, secs, msg) =~= front + " "@ + warn + " "@ + msg + "\n"@);
    assert(line(tag, Level::Error, secs, msg) =~= front + " "@ + error + " "@ + msg + "\n"@);
}

/// A line for a message now shows the whole seconds of a reading of the wall clock.
pub proof fn law_line_now(s: Seq<char>, tag: Seq<char>, level: Level, msg: Seq<char>)
    requires
        is_line_now(s, tag, level, msg),
    ensures
        exists|now: std::time::SystemTime|
            time::wall_clock_showed(now) && s == line(
                tag,
                level,
                #[trigger] time::unix_span(now) / 1_000_000_000,
                msg,
            ),
{
}

/// The time of day, as hours, minutes and seconds of two digits each.
pub fn timestamp(secs: u64) -> (s: String)
    ensures
        s@ == time_of_day(secs as nat),
{
    let mut s = "".to_owned();
    proof {
        reveal_strlit("");
    }
    text::push_two_digits(&mut s, (secs / 3600) % 24);
    s.append(":");
    text::push_two_digits(&mut s, (secs / 60) % 60);
    s.append(":");
    text::push_two_digits(&mut s, secs % 60);
    assert(s@ =~= time_of_day(secs as nat));
    s
}

/// Makes the lines of a log.
pub struct Logger {
    tag: String,
}

impl View for Logger {
    type V = Seq<char>;

    closed spec fn view(&self) -> Seq<char> {
        self.tag@
    }
}

impl Logger {
    /// A logger with a tag, which may be empty.
    pub fn new(tag: &str) -> (l: Logger)
        ensures
            l@ == tag@,
    {
        Logger { tag: tag.to_owned() }
    }

    /// The line for a message at a time since the Unix epoch, in seconds.
    pub fn line_at(&self, level: Level, secs: u64, msg: &str) -> (s: String)
        ensures
            s@ == line(self@, level, secs as nat, msg@),
    {
        let mut s = text::concat3(DIM, timestamp(secs).as_str(), RESET);
        if self.tag.as_str().unicode_len() > 0 {
            let mut tag = text::concat3(" ", DIM, "[");
            tag.append(self.tag.as_str());
            tag.append("]");
            tag.append(RESET);
            s.append(tag.as_str());
        } else {
            assert(s@ + tag_part(self@) =~= s@);
        }
        s.append(" ");
        match level {
            Level::Info => {
                s.append(BLUE);
                s.append("[");
                s.append("INF");
            },
            Level::Warn => {
                s.append(YELLOW);
                s.append("[");
                s.append("WRN");
            },
            Level::Error => {
                s.append(RED);
                s.append("[");
                s.append("ERR");
            },
        }
        s.append("]");
        s.append(RESET);
        s.append(" ");
        s.append(msg);
        s.append("\n");
        s
    }

    /// The line for a message now.
    pub fn line_now(&self, level: Level, msg: &str) -> (s: String)
        ensures
            is_line_now(s@, self@, level, msg@),
    {
        let secs: u64 = time::unix_time().as_secs();
        self.line_at(level, secs, msg)
    }

    /// The line that informs of something now.
    pub fn info(&self, msg: &str) -> (s: String)
        ensures
            is_line_now(s@, self@, Level::Info, msg@),
    {
        self.line_now(Level::Info, msg)
    }

    /// The line that warns of something now.
    pub fn warn(&self, msg: &str) -> (s: String)
        ensures
            is_line_now(s@, self@, Level::Warn, msg@),
    {
        self.line_now(Level::Warn, msg)
    }

    /// The line that reports an error now.
    pub fn error(&self, msg: &str) -> (s: String)
        ensures
            is_line_now(s@, self@, Level::Error, msg@),
    {
        self.line_now(Level::Error, msg)
    }
}

} // verus!
