//! The logger's rules: which messages are shown, under which label, and
//! with which origin.
//!
//! A logger is set up once, from a default level and from what the
//! environment says, and is then handed to whoever shows messages.  It
//! holds no global state and prints nothing itself.

use vstd::prelude::*;
use vstd::string::StringExecFns;

verus! {

/// The colour in which the origin of a message is shown.
pub const ORIGIN_COLOUR: u8 = 239;

/// How much a message matters.  `Error` matters most.
#[derive(Clone, Copy, Debug, PartialEq, Eq, Structural)]
pub enum Level {
    Error,
    Warn,
    Info,
    Debug,
    Trace,
}

/// A character in lower case if it is an upper-case letter of ASCII, and
/// as it is otherwise.
pub open spec fn ascii_lower(c: char) -> char {
    if 'A' <= c <= 'Z' {
        ((c as u32) + 32) as char
    } else {
        c
    }
}

/// Whether `a` and `b` are the same but for the case of the letters of
/// ASCII.
pub open spec fn same_ignoring_case(a: Seq<char>, b: Seq<char>) -> bool {
    a.len() == b.len() && forall|i: int| 0 <= i < a.len() ==> ascii_lower(a[i]) == ascii_lower(b[i])
}

/// The level that `text` names, in whatever case it is written.
pub open spec fn level_named(text: Seq<char>) -> Option<Level> {
    if same_ignoring_case(text, "ERROR"@) {
        Some(Level::Error)
    } else if same_ignoring_case(text, "WARN"@) {
        Some(Level::Warn)
    } else if same_ignoring_case(text, "INFO"@) {
        Some(Level::Info)
    } else if same_ignoring_case(text, "DEBUG"@) {
        Some(Level::Debug)
    } else if same_ignoring_case(text, "TRACE"@) {
        Some(Level::Trace)
    } else {
        None
    }
}

/// `Level::from_str` of the `log` crate: the level whose name `text` is
/// but for the case of its letters, and none for any other text, the name
/// of the level that turns logging off among them.
#[verifier::external_body]
fn parse_level(text: &str) -> (level: Option<Level>)
    ensures
        level == level_named(text@),
{
    match text.parse::<log::Level>() {
        Ok(log::Level::Error) => Some(Level::Error),
        Ok(log::Level::Warn) => Some(Level::Warn),
        Ok(log::Level::Info) => Some(Level::Info),
        Ok(log::Level::Debug) => Some(Level::Debug),
        Ok(log::Level::Trace) => Some(Level::Trace),
        Err(_) => None,
    }
}

impl Level {
    /// The place of the level among the levels: 1 for `Error`, 5 for
    /// `Trace`.
    pub open spec fn rank(self) -> nat {
        match self {
            Level::Error => 1,
            Level::Warn => 2,
            Level::Info => 3,
            Level::Debug => 4,
            Level::Trace => 5,
        }
    }

    /// The label that messages of the level are shown under, padded to
    /// twelve columns.
    pub open spec fn label_text(self) -> Seq<char> {
        match self {
            Level::Error => "       Error"@,
            Level::Warn => "     Warning"@,
            Level::Info => "        Info"@,
            Level::Debug => "       Debug"@,
            Level::Trace => "       Trace"@,
        }
    }

    /// The colour that the label of the level is shown in, out of the 256
    /// colours of a terminal.
    pub open spec fn colour_code(self) -> u8 {
        match self {
            Level::Error => 160,
            Level::Warn => 214,
            Level::Info => 10,
            Level::Debug => 244,
            Level::Trace => 239,
        }
    }

    /// The place of the level among the levels.
    pub fn severity(&self) -> (rank: u8)
        ensures
            rank == self.rank(),
    {
        match self {
            Level::Error => 1,
            Level::Warn => 2,
            Level::Info => 3,
            Level::Debug => 4,
            Level::Trace => 5,
        }
    }

    /// The label that messages of the level are shown under.
    pub fn label(&self) -> (label: &'static str)
        ensures
            label@ == self.label_text(),
    {
        match self {
            Level::Error => "       Error",
            Level::Warn => "     Warning",
            Level::Info => "        Info",
            Level::Debug => "       Debug",
            Level::Trace => "       Trace",
        }
    }

    /// The colour that the label of the level is shown in.
    pub fn colour(&self) -> (colour: u8)
        ensures
            colour == self.colour_code(),
    {
        match self {
            Level::Error => 160,
            Level::Warn => 214,
            Level::Info => 10,
            Level::Debug => 244,
            Level::Trace => 239,
        }
    }
}

/// The decimal digit that stands for `value`.
pub open spec fn decimal_digit(value: nat) -> char {
    (48 + value) as char
}

/// The decimal digits of `value`, the highest first.
pub open spec fn decimal(value: nat) -> Seq<char>
    decreases value,
{
    if value < 10 {
        seq![decimal_digit(value)]
    } else {
        decimal(value / 10).push(decimal_digit(value % 10))
    }
}

/// The text of one decimal digit.
fn digit_text(digit: u32) -> (text: &'static str)
    requires
        digit < 10,
    ensures
        text@ == seq![decimal_digit(digit as nat)],
{
    proof {
        reveal_strlit("0");
        reveal_strlit("1");
        reveal_strlit("2");
        reveal_strlit("3");
        reveal_strlit("4");
        reveal_strlit("5");
        reveal_strlit("6");
        reveal_strlit("7");
        reveal_strlit("8");
        reveal_strlit("9");
    }
    let text = if digit == 0 {
        "0"
    } else if digit == 1 {
        "1"
    } else if digit == 2 {
        "2"
    } else if digit == 3 {
        "3"
    } else if digit == 4 {
        "4"
    } else if digit == 5 {
        "5"
    } else if digit == 6 {
        "6"
    } else if digit == 7 {
        "7"
    } else if digit == 8 {
        "8"
    } else {
        "9"
    };
    assert(text@ =~= seq![decimal_digit(digit as nat)]);
    text
}

/// Writes `value` in decimal digits.
pub fn decimal_string(value: u32) -> (text: String)
    ensures
        text@ == decimal(value as nat),
    decreases value,
{
    if value < 10 {
        String::from_str(digit_text(value))
    } else {
        let higher = decimal_string(value / 10);
        let text = higher.concat(digit_text(value % 10));
        assert(text@ =~= decimal((value / 10) as nat).push(decimal_digit((value % 10) as nat)));
        text
    }
}

/// One message that is to be logged.
#[derive(Clone, Debug, PartialEq, Eq)]
pub struct Record {
    /// How much the message matters.
    pub level: Level,
    /// The message.
    pub message: String,
    /// The source file that the message comes from, if known.
    pub file: Option<String>,
    /// The line in that file, if known.
    pub line: Option<u32>,
    /// The module that the message comes from, if known.
    pub module: Option<String>,
}

/// One message as it is to be shown.
#[derive(Clone, Debug, PartialEq, Eq)]
pub struct Line {
    /// The label that goes before the message.
    pub label: &'static str,
    /// The colour of the label.
    pub colour: u8,
    /// The message.
    pub message: String,
    /// What is shown of the origin of the message on a line of its own, in
    /// [`ORIGIN_COLOUR`]; `None` if no origin is shown.
    pub origin: Option<String>,
}

/// The text of `text` if there is one, and `fallback` otherwise.
pub open spec fn text_or(text: Option<String>, fallback: Seq<char>) -> Seq<char> {
    match text {
        Some(text) => text@,
        None => fallback,
    }
}

/// The origin that a logger of level `level` gives for `record`: file and
/// line at `Trace`, the module at `Debug`, nothing at any other level.
/// What is not known is shown as a dash, an unknown line as 0.
pub open spec fn origin_text(level: Level, record: Record) -> Seq<char> {
    match level {
        Level::Trace => text_or(record.file, "-"@) + ":"@ + decimal(
            match record.line {
                Some(line) => line as nat,
                None => 0,
            },
        ),
        Level::Debug => text_or(record.module, "-"@),
        _ => Seq::empty(),
    }
}

/// The rules by which messages are shown.
#[derive(Clone, Copy, Debug, PartialEq, Eq, Structural)]
pub struct Logger {
    /// The least important level that is still shown.
    pub level: Level,
    /// Whether the origin of a message is shown below it.
    pub show_paths: bool,
}

impl Logger {
    /// The level that a logger takes from `setting`, what the environment
    /// says about the level: the level that it names, and `default_level`
    /// if it says nothing or names no level.
    pub open spec fn chosen_level(default_level: Level, setting: Option<&str>) -> Level {
        match setting {
            Some(text) => match level_named(text@) {
                Some(level) => level,
                None => default_level,
            },
            None => default_level,
        }
    }

    /// Sets up a logger from what the environment says: `log` about the
    /// level and `paths` about showing origins.  Origins are shown if and
    /// only if `paths` is the word `true`.
    pub fn init(default_level: Level, log: Option<&str>, paths: Option<&str>) -> (logger: Logger)
        ensures
            logger.level == Self::chosen_level(default_level, log),
            logger.show_paths == (paths matches Some(text) && text@ == "true"@),
    {
        let level = match log {
            Some(text) => match parse_level(text) {
                Some(level) => level,
                None => default_level,
            },
            None => default_level,
        };
        let show_paths = match paths {
            Some(text) => is_true(text),
            None => false,
        };
        Logger { level, show_paths }
    }

    /// Whether messages of `level` are shown: those that matter at least
    /// as much as the logger's own level.
    pub fn enabled(&self, level: Level) -> (shown: bool)
        ensures
            shown == (level.rank() <= self.level.rank()),
    {
        level.severity() <= self.level.severity()
    }

    /// The origin that this logger gives for `record`.
    pub fn origin(&self, record: &Record) -> (origin: String)
        ensures
            origin@ == origin_text(self.level, *record),
    {
        match self.level {
            Level::Trace => {
                let file = match &record.file {
                    Some(file) => file.clone(),
                    None => String::from_str("-"),
                };
                let line = match record.line {
                    Some(line) => line,
                    None => 0,
                };
                let number = decimal_string(line);
                file.concat(":").concat(number.as_str())
            },
            Level::Debug => {
                match &record.module {
                    Some(module) => module.clone(),
                    None => String::from_str("-"),
                }
            },
            _ => String::new(),
        }
    }

    /// How `record` is to be shown, or `None` if it is not shown at all.
    pub fn log(&self, record: &Record) -> (line: Option<Line>)
        ensures
            line is Some <==> record.level.rank() <= self.level.rank(),
            line matches Some(shown) ==> {
                &&& shown.label@ == record.level.label_text()
                &&& shown.colour == record.level.colour_code()
                &&& shown.message@ == record.message@
                &&& shown.origin is Some <==> self.show_paths
                &&& shown.origin matches Some(origin) ==> origin@ == origin_text(
                    self.level,
                    *record,
                )
            },
    {
        if !self.enabled(record.level) {
            return None;
        }
        let origin = if self.show_paths {
            Some(self.origin(record))
        } else {
            None
        };
        Some(
            Line {
                label: record.level.label(),
                colour: record.level.colour(),
                message: record.message.clone(),
                origin,
            },
        )
    }
}

/// Whether `text` is the word `true`.
fn is_true(text: &str) -> (yes: bool)
    ensures
        yes == (text@ == "true"@),
{
    let given = String::from_str(text);
    let wanted = String::from_str("true");
    given == wanted
}

} // verus!
