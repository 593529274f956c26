//! Command-line arguments of the sender: named values, looked up and read.

use crate::number::{
    parse_unsigned, parse_unsigned_chars, parse_unsigned_spec, NumberError, Radix,
};
use crate::spacing::{trim, trimmed};
use crate::text::{chars_of, str_equal};
use vstd::prelude::*;
use vstd::string::StringExecFns;

verus! {

/// Interval between two reports when none is given, in milliseconds.
pub const DEFAULT_INTERVAL_MS: u64 = 1_000;

/// What is wrong with the arguments.
#[derive(Debug, PartialEq, Eq)]
pub enum ArgError {
    /// A required argument is absent, or stands last with no value behind it.
    MissingArgument { name: String },
    /// The value of an argument is no number of the kind asked for.
    InvalidValue { name: String, value: String, reason: NumberError },
    /// The interval is zero.
    ZeroInterval,
    /// The count is zero.
    ZeroCount,
}

/// An [`ArgError`] with its texts as sequences of characters.
pub enum ArgErrorView {
    MissingArgument { name: Seq<char> },
    InvalidValue { name: Seq<char>, value: Seq<char>, reason: NumberError },
    ZeroInterval,
    ZeroCount,
}

impl View for ArgError {
    type V = ArgErrorView;

    open spec fn view(&self) -> ArgErrorView {
        match self {
            ArgError::MissingArgument { name } => ArgErrorView::MissingArgument { name: name@ },
            ArgError::InvalidValue { name, value, reason } => ArgErrorView::InvalidValue {
                name: name@,
                value: value@,
                reason: *reason,
            },
            ArgError::ZeroInterval => ArgErrorView::ZeroInterval,
            ArgError::ZeroCount => ArgErrorView::ZeroCount,
        }
    }
}

impl ArgErrorView {
    /// The error in words.
    pub open spec fn text(self) -> Seq<char> {
        match self {
            ArgErrorView::MissingArgument { name } => "Missing required argument "@ + name,
            ArgErrorView::InvalidValue { name, value, reason } => "Invalid value for "@ + name
                + " ("@ + value + "): "@ + reason.text_of(),
            ArgErrorView::ZeroInterval => "Interval must be greater than zero."@,
            ArgErrorView::ZeroCount => "Count must be greater than zero."@,
        }
    }
}

/// The arguments as texts.
pub open spec fn texts(args: Seq<String>) -> Seq<Seq<char>> {
    Seq::new(args.len(), |i: int| args[i]@)
}

/// The first position at or after `from` where `items` holds `name`.
pub open spec fn position_from(items: Seq<Seq<char>>, name: Seq<char>, from: int) -> Option<int>
    decreases items.len() - from,
{
    if from < 0 || from >= items.len() {
        None
    } else if items[from] == name {
        Some(from)
    } else {
        position_from(items, name, from + 1)
    }
}

/// The value of the argument `name`: the item behind the first occurrence of
/// `name`, if `name` occurs and its first occurrence is not the last item.
pub open spec fn arg_value(items: Seq<Seq<char>>, name: Seq<char>) -> Option<Seq<char>> {
    match position_from(items, name, 0) {
        Some(i) => if i + 1 < items.len() {
            Some(items[i + 1])
        } else {
            None
        },
        None => None,
    }
}

/// Whether `name` stands anywhere among `items`.
pub open spec fn has_flag_spec(items: Seq<Seq<char>>, name: Seq<char>) -> bool {
    exists|i: int| 0 <= i < items.len() && #[trigger] items[i] == name
}

/// How the program was asked to run.
#[derive(Clone, Copy, Debug, PartialEq, Eq, Structural)]
pub enum RunMode {
    /// `--service`: under the service manager.
    Service,
    /// `--run`: the monitor loop in the foreground.
    Monitor,
    /// Neither: the interactive menu.
    Menu,
}

/// The mode that the arguments ask for. `--service` comes before `--run`.
pub open spec fn run_mode_spec(items: Seq<Seq<char>>) -> RunMode {
    if has_flag_spec(items, "--service"@) {
        RunMode::Service
    } else if has_flag_spec(items, "--run"@) {
        RunMode::Monitor
    } else {
        RunMode::Menu
    }
}

/// A 16-bit number as the sender accepts it once white space is off: decimal,
/// or hexadecimal behind a lower-case `0x`.
pub open spec fn parse_u16_text(normalized: Seq<char>) -> Result<int, NumberError> {
    if normalized.len() >= 2 && normalized[0] == '0' && normalized[1] == 'x' {
        parse_unsigned_spec(normalized.subrange(2, normalized.len() as int), 16, 65535)
    } else {
        parse_unsigned_spec(normalized, 10, 65535)
    }
}

/// What `parse_u16_arg` returns for the given arguments.
pub open spec fn parse_u16_arg_spec(items: Seq<Seq<char>>, name: Seq<char>) -> Result<
    int,
    ArgErrorView,
> {
    match arg_value(items, name) {
        None => Err(ArgErrorView::MissingArgument { name }),
        Some(value) => match parse_u16_text(trimmed(value)) {
            Ok(v) => Ok(v),
            Err(reason) => Err(ArgErrorView::InvalidValue { name, value, reason }),
        },
    }
}

/// What `parse_interval` returns for the given arguments, in milliseconds.
pub open spec fn parse_interval_spec(items: Seq<Seq<char>>) -> Result<int, ArgErrorView> {
    match arg_value(items, "--interval-ms"@) {
        None => Ok(1000),
        Some(value) => match parse_unsigned_spec(value, 10, u64::MAX as int) {
            Err(reason) => Err(
                ArgErrorView::InvalidValue { name: "--interval-ms"@, value, reason },
            ),
            Ok(millis) => if millis == 0 {
                Err(ArgErrorView::ZeroInterval)
            } else {
                Ok(millis)
            },
        },
    }
}

/// What `parse_count` returns for the given arguments.
pub open spec fn parse_count_spec(items: Seq<Seq<char>>) -> Result<Option<int>, ArgErrorView> {
    match arg_value(items, "--count"@) {
        None => Ok(None),
        Some(value) => match parse_unsigned_spec(value, 10, usize::MAX as int) {
            Err(reason) => Err(ArgErrorView::InvalidValue { name: "--count"@, value, reason }),
            Ok(count) => if count == 0 {
                Err(ArgErrorView::ZeroCount)
            } else {
                Ok(Some(count))
            },
        },
    }
}

/// `position_from` finds the first occurrence and no other: nothing before
/// the position it gives is `name`, and where it gives none, nothing is.
pub proof fn law_position_is_first(items: Seq<Seq<char>>, name: Seq<char>, from: int)
    requires
        0 <= from,
    ensures
        match position_from(items, name, from) {
            Some(i) => from <= i < items.len() && items[i] == name && forall|j: int|
                from <= j < i ==> items[j] != name,
            None => forall|j: int| from <= j < items.len() ==> items[j] != name,
        },
    decreases items.len() - from,
{
    if from < items.len() && items[from] != name {
        law_position_is_first(items, name, from + 1);
    }
}

/// The value that follows the first occurrence of `name` among `args`.
pub fn find_arg_value<'a>(args: &'a [String], name: &str) -> (found: Option<&'a str>)
    ensures
        match found {
            Some(value) => arg_value(texts(args@), name@) == Some(value@),
            None => arg_value(texts(args@), name@) is None,
        },
{
    let ghost items = texts(args@);
    let mut i: usize = 0;
    while i < args.len()
        invariant
            i <= args@.len(),
            items == texts(args@),
            position_from(items, name@, 0) == position_from(items, name@, i as int),
        decreases args@.len() - i,
    {
        if str_equal(args[i].as_str(), name) {
            if i + 1 < args.len() {
                return Some(args[i + 1].as_str());
            } else {
                return None;
            }
        }
        i = i + 1;
    }
    None
}

/// Whether `name` stands anywhere among `args`.
pub fn has_flag(args: &[String], name: &str) -> (found: bool)
    ensures
        found == has_flag_spec(texts(args@), name@),
{
    let ghost items = texts(args@);
    let mut i: usize = 0;
    while i < args.len()
        invariant
            i <= args@.len(),
            items == texts(args@),
            forall|j: int| 0 <= j < i ==> items[j] != name@,
        decreases args@.len() - i,
    {
        if str_equal(args[i].as_str(), name) {
            assert(items[i as int] == name@);
            return true;
        }
        i = i + 1;
    }
    false
}

/// The mode that the arguments ask for.
pub fn run_mode(args: &[String]) -> (mode: RunMode)
    ensures
        mode == run_mode_spec(texts(args@)),
{
    if has_flag(args, "--service") {
        RunMode::Service
    } else if has_flag(args, "--run") {
        RunMode::Monitor
    } else {
        RunMode::Menu
    }
}

/// The value of the required argument `name`.
pub fn required_arg<'a>(args: &'a [String], name: &str) -> (result: Result<&'a str, ArgError>)
    ensures
        match result {
            Ok(value) => arg_value(texts(args@), name@) == Some(value@),
            Err(e) => arg_value(texts(args@), name@) is None && e@ == (
            ArgErrorView::MissingArgument { name: name@ }),
        },
{
    match find_arg_value(args, name) {
        Some(value) => Ok(value),
        None => Err(ArgError::MissingArgument { name: String::from_str(name) }),
    }
}

/// Reads a 16-bit number from text that has no white space around it:
/// decimal, or hexadecimal behind a lower-case `0x`.
pub fn parse_u16_trimmed(normalized: &str) -> (result: Result<u16, NumberError>)
    ensures
        match result {
            Ok(v) => parse_u16_text(normalized@) == Ok::<int, NumberError>(v as int),
            Err(e) => parse_u16_text(normalized@) == Err::<int, NumberError>(e),
        },
{
    let chars = chars_of(normalized);
    let len = chars.len();
    assert(chars@.subrange(0, len as int) =~= normalized@);
    let parsed = if len >= 2 && chars[0] == '0' && chars[1] == 'x' {
        parse_unsigned_chars(&chars, 2, len, Radix::Hexadecimal, 65535)
    } else {
        parse_unsigned_chars(&chars, 0, len, Radix::Decimal, 65535)
    };
    match parsed {
        Ok(v) => Ok(v as u16),
        Err(e) => Err(e),
    }
}

/// Reads a 16-bit number: white space around it is ignored; the rest is
/// decimal, or hexadecimal behind a lower-case `0x`.
pub fn parse_u16_value(value: &str) -> (result: Result<u16, NumberError>)
    ensures
        match result {
            Ok(v) => parse_u16_text(trimmed(value@)) == Ok::<int, NumberError>(v as int),
            Err(e) => parse_u16_text(trimmed(value@)) == Err::<int, NumberError>(e),
        },
{
    parse_u16_trimmed(trim(value))
}

/// Reads the required 16-bit argument `name`.
pub fn parse_u16_arg(args: &[String], name: &str) -> (result: Result<u16, ArgError>)
    ensures
        match result {
            Ok(v) => parse_u16_arg_spec(texts(args@), name@) == Ok::<int, ArgErrorView>(v as int),
            Err(e) => parse_u16_arg_spec(texts(args@), name@) == Err::<int, ArgErrorView>(e@),
        },
{
    match find_arg_value(args, name) {
        None => Err(ArgError::MissingArgument { name: String::from_str(name) }),
        Some(value) => match parse_u16_value(value) {
            Ok(v) => Ok(v),
            Err(reason) => Err(
                ArgError::InvalidValue {
                    name: String::from_str(name),
                    value: String::from_str(value),
                    reason,
                },
            ),
        },
    }
}

/// Reads the interval between two reports, `--interval-ms`, in milliseconds:
/// one second where the argument is absent, never zero.
pub fn parse_interval(args: &[String]) -> (result: Result<u64, ArgError>)
    ensures
        match result {
            Ok(millis) => parse_interval_spec(texts(args@)) == Ok::<int, ArgErrorView>(
                millis as int,
            ),
            Err(e) => parse_interval_spec(texts(args@)) == Err::<int, ArgErrorView>(e@),
        },
{
    let value = match find_arg_value(args, "--interval-ms") {
        Some(value) => value,
        None => {
            return Ok(DEFAULT_INTERVAL_MS);
        },
    };
    match parse_unsigned(value, Radix::Decimal, u64::MAX) {
        Err(reason) => Err(
            ArgError::InvalidValue {
                name: String::from_str("--interval-ms"),
                value: String::from_str(value),
                reason,
            },
        ),
        Ok(millis) => {
            if millis == 0 {
                Err(ArgError::ZeroInterval)
            } else {
                Ok(millis)
            }
        },
    }
}

/// Reads how many reports to send, `--count`: no limit where the argument is
/// absent, never zero.
pub fn parse_count(args: &[String]) -> (result: Result<Option<usize>, ArgError>)
    ensures
        match result {
            Ok(Some(count)) => parse_count_spec(texts(args@)) == Ok::<Option<int>, ArgErrorView>(
                Some(count as int),
            ),
            Ok(None) => parse_count_spec(texts(args@)) == Ok::<Option<int>, ArgErrorView>(None),
            Err(e) => parse_count_spec(texts(args@)) == Err::<Option<int>, ArgErrorView>(e@),
        },
{
    let value = match find_arg_value(args, "--count") {
        Some(value) => value,
        None => {
            return Ok(None);
        },
    };
    match parse_unsigned(value, Radix::Decimal, usize::MAX as u64) {
        Err(reason) => Err(
            ArgError::InvalidValue {
                name: String::from_str("--count"),
                value: String::from_str(value),
                reason,
            },
        ),
        Ok(count) => {
            if count == 0 {
                Err(ArgError::ZeroCount)
            } else {
                Ok(Some(count as usize))
            }
        },
    }
}

impl ArgError {
    /// The error in words, as it is shown to the user.
    pub fn message(&self) -> (message: String)
        ensures
            message@ == self@.text(),
    {
        match self {
            ArgError::MissingArgument { name } => {
                let mut message = String::from_str("Missing required argument ");
                message.append(name.as_str());
                message
            },
            ArgError::InvalidValue { name, value, reason } => {
                let mut message = String::from_str("Invalid value for ");
                message.append(name.as_str());
                message.append(" (");
                message.append(value.as_str());
                message.append("): ");
                message.append(reason.text());
                message
            },
            ArgError::ZeroInterval => String::from_str("Interval must be greater than zero."),
            ArgError::ZeroCount => String::from_str("Count must be greater than zero."),
        }
    }
}

} // verus!
