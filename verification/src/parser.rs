//! The normalizer: one line of text in, one log record or one reason for
//! rejecting the line out.

use crate::json::{
    decode, distinct_names, json_decode, lemma_object_view, members_view, JsonValue, JsonView,
};
use crate::log_entry::{flatten, LogEntry, LogLevel, LogRecord};
use crate::text::{
    blank, lemma_trims_to_nothing_iff_blank, same_text, trim, trimmed, uppercase,
};
use crate::timestamp::{
    instant_from_millis, instant_from_rfc3339, instant_from_seconds, instant_of_millis,
    instant_of_seconds, instant_with_format, parse_rfc3339, parse_with_format, Timestamp,
    MILLISECOND_THRESHOLD,
};
use vstd::prelude::*;
use vstd::string::StringExecFns;

verus! {

/// Why a line gives no record.
#[derive(Debug, PartialEq)]
pub enum ParseError {
    /// The line is empty once its white space is trimmed.
    EmptyLine,
    /// The line is no JSON text; the decoder's message is kept.
    InvalidJson(String),
    /// The line is JSON, but its top level is no object.
    NotAnObject,
}

/// The mathematical value of a [`ParseError`].
pub enum ParseErrorView {
    EmptyLine,
    InvalidJson(Seq<char>),
    NotAnObject,
}

impl View for ParseError {
    type V = ParseErrorView;

    open spec fn view(&self) -> ParseErrorView {
        match self {
            ParseError::EmptyLine => ParseErrorView::EmptyLine,
            ParseError::InvalidJson(detail) => ParseErrorView::InvalidJson(detail@),
            ParseError::NotAnObject => ParseErrorView::NotAnObject,
        }
    }
}

impl ParseErrorView {
    /// The diagnostic that goes with an error.
    pub open spec fn message(self) -> Seq<char> {
        match self {
            ParseErrorView::EmptyLine => "Empty line"@,
            ParseErrorView::InvalidJson(detail) => "Failed to parse JSON: "@ + detail,
            ParseErrorView::NotAnObject => "Expected JSON object"@,
        }
    }
}

impl ParseError {
    /// The diagnostic that goes with the error.
    pub fn message(&self) -> (text: String)
        ensures
            text@ == self@.message(),
    {
        match self {
            ParseError::EmptyLine => "Empty line".to_owned(),
            ParseError::InvalidJson(detail) => {
                let mut text = "Failed to parse JSON: ".to_owned();
                text.append(detail.as_str());
                text
            },
            ParseError::NotAnObject => "Expected JSON object".to_owned(),
        }
    }
}

/// The names under which a timestamp is looked for, in order.
pub open spec fn timestamp_keys() -> Seq<Seq<char>> {
    seq!["timestamp"@, "time"@, "ts"@, "@timestamp"@, "datetime"@, "created_at"@]
}

/// The names under which a level is looked for, in order.
pub open spec fn level_keys() -> Seq<Seq<char>> {
    seq!["level"@, "lvl"@, "severity"@, "priority"@, "log_level"@]
}

/// The names under which a logger is looked for, in order.
pub open spec fn logger_keys() -> Seq<Seq<char>> {
    seq!["logger"@, "logger_name"@, "name"@, "category"@, "component"@]
}

/// The names under which a message is looked for, in order.
pub open spec fn message_keys() -> Seq<Seq<char>> {
    seq!["message"@, "msg"@, "text"@, "description"@, "content"@]
}

/// The names under which a module is looked for, in order.
pub open spec fn module_keys() -> Seq<Seq<char>> {
    seq!["module"@, "mod"@, "component"@, "file"@, "filename"@]
}

/// The names under which a function is looked for, in order.
pub open spec fn function_keys() -> Seq<Seq<char>> {
    seq!["function"@, "func"@, "method"@, "procedure"@]
}

/// The formats that a timestamp text is tried against, in order, before it
/// is read as RFC 3339. Each is handed to `chrono::DateTime::parse_from_str`,
/// which accepts a text only where it carries an offset from UTC.
pub open spec fn timestamp_formats() -> Seq<Seq<char>> {
    seq![
        "%Y-%m-%dT%H:%M:%S%.fZ"@,
        "%Y-%m-%dT%H:%M:%SZ"@,
        "%Y-%m-%d %H:%M:%S%.f"@,
        "%Y-%m-%d %H:%M:%S"@,
        "%d/%m/%Y %H:%M:%S"@,
        "%m/%d/%Y %H:%M:%S"@,
    ]
}

/// The characters of each of a list of texts.
pub open spec fn texts(list: Seq<&'static str>) -> Seq<Seq<char>> {
    Seq::new(list.len(), |i: int| list[i]@)
}

/// The value of the first member with a given name, looking from position
/// `from` on.
pub open spec fn member_from(
    members: Seq<(Seq<char>, JsonView)>,
    name: Seq<char>,
    from: int,
) -> Option<JsonView>
    decreases members.len() - from,
{
    if from < 0 || from >= members.len() {
        None
    } else if members[from].0 == name {
        Some(members[from].1)
    } else {
        member_from(members, name, from + 1)
    }
}

/// The value of the first member with a given name.
pub open spec fn member(members: Seq<(Seq<char>, JsonView)>, name: Seq<char>) -> Option<JsonView> {
    member_from(members, name, 0)
}

/// Where no two members have the same name, the member looked up under a
/// name is the only member of that name, wherever it stands.
pub proof fn lemma_member_of_distinct_names(members: Seq<(Seq<char>, JsonView)>, at: int)
    requires
        distinct_names(members),
        0 <= at < members.len(),
    ensures
        member(members, members[at].0) == Some(members[at].1),
{
    lemma_member_from(members, at, 0);
}

proof fn lemma_member_from(members: Seq<(Seq<char>, JsonView)>, at: int, from: int)
    requires
        distinct_names(members),
        0 <= from <= at < members.len(),
    ensures
        member_from(members, members[at].0, from) == Some(members[at].1),
    decreases at - from,
{
    if from < at {
        assert(members[from].0 != members[at].0);
        lemma_member_from(members, at, from + 1);
    }
}

/// The value under the first name of `keys`, from position `from` on, that
/// the object has a member for. Later names are not consulted.
pub open spec fn first_present_from(
    members: Seq<(Seq<char>, JsonView)>,
    keys: Seq<Seq<char>>,
    from: int,
) -> Option<JsonView>
    decreases keys.len() - from,
{
    if from < 0 || from >= keys.len() {
        None
    } else {
        match member(members, keys[from]) {
            Some(value) => Some(value),
            None => first_present_from(members, keys, from + 1),
        }
    }
}

/// The value under the first name of `keys` that the object has a member
/// for.
pub open spec fn first_present(members: Seq<(Seq<char>, JsonView)>, keys: Seq<Seq<char>>) -> Option<
    JsonView,
> {
    first_present_from(members, keys, 0)
}

/// The instant that the first format which accepts the text gives, trying
/// the formats from position `from` on.
pub open spec fn first_format_match(text: Seq<char>, formats: Seq<Seq<char>>, from: int) -> Option<
    Timestamp,
>
    decreases formats.len() - from,
{
    if from < 0 || from >= formats.len() {
        None
    } else {
        match parse_with_format(text, formats[from]) {
            Some(instant) => Some(instant),
            None => first_format_match(text, formats, from + 1),
        }
    }
}

/// The instant that a JSON value denotes. A text is tried against the
/// formats in order and then read as RFC 3339. An integer above the
/// millisecond threshold counts milliseconds since the epoch, any other
/// integer seconds. Anything else denotes no instant.
pub open spec fn timestamp_of(value: JsonView) -> Option<Timestamp> {
    match value {
        JsonView::String(text) => match first_format_match(text, timestamp_formats(), 0) {
            Some(instant) => Some(instant),
            None => parse_rfc3339(text),
        },
        JsonView::Number(number) => match number.integer {
            Some(count) => if count > MILLISECOND_THRESHOLD {
                instant_of_millis(count as int)
            } else {
                instant_of_seconds(count as int)
            },
            None => None,
        },
        _ => None,
    }
}

/// The instant of a record, where its payload gives one: the first
/// timestamp name that is present decides.
pub open spec fn resolved_timestamp(members: Seq<(Seq<char>, JsonView)>) -> Option<Timestamp> {
    match first_present(members, timestamp_keys()) {
        Some(value) => timestamp_of(value),
        None => None,
    }
}

/// The level of a record: the first level name that is present decides, and
/// anything but a text that names a level gives `Info`.
pub open spec fn resolved_level(members: Seq<(Seq<char>, JsonView)>) -> LogLevel {
    match first_present(members, level_keys()) {
        Some(JsonView::String(text)) => LogLevel::of_upper(uppercase(text)),
        _ => LogLevel::Info,
    }
}

/// The text under the first name of `keys` that is present, where that
/// value is a text.
pub open spec fn resolved_text(members: Seq<(Seq<char>, JsonView)>, keys: Seq<Seq<char>>) -> Option<
    Seq<char>,
> {
    match first_present(members, keys) {
        Some(JsonView::String(text)) => Some(text),
        _ => None,
    }
}

/// The record that a JSON object normalizes to, at a line number, when the
/// time of ingestion is `now`.
pub open spec fn normalized(
    members: Seq<(Seq<char>, JsonView)>,
    line_number: u64,
    now: Timestamp,
) -> LogRecord {
    LogRecord {
        line: line_number,
        timestamp: match resolved_timestamp(members) {
            Some(instant) => instant,
            None => now,
        },
        level: resolved_level(members),
        logger: match resolved_text(members, logger_keys()) {
            Some(text) => text,
            None => "unknown"@,
        },
        message: match resolved_text(members, message_keys()) {
            Some(text) => text,
            None => Seq::empty(),
        },
        module: resolved_text(members, module_keys()),
        function: resolved_text(members, function_keys()),
        raw_fields: members,
        dynamic_fields: flatten(members),
    }
}

/// What a line is: the members of the JSON object that it holds, or the
/// reason why it holds none.
pub open spec fn classified(line: Seq<char>) -> Result<Seq<(Seq<char>, JsonView)>, ParseErrorView> {
    let inner = trimmed(line);
    if inner.len() == 0 {
        Err(ParseErrorView::EmptyLine)
    } else {
        match json_decode(inner) {
            Err(detail) => Err(ParseErrorView::InvalidJson(detail)),
            Ok(JsonView::Object(members)) => Ok(members),
            Ok(_) => Err(ParseErrorView::NotAnObject),
        }
    }
}

/// Finds the first member with a given name.
pub fn find_member<'a>(members: &'a Vec<(String, JsonValue)>, name: &str) -> (found: Option<
    &'a JsonValue,
>)
    ensures
        found is Some <==> member(members_view(members@), name@) is Some,
        found matches Some(value) ==> member(members_view(members@), name@) == Some(value@),
{
    let mut i: usize = 0;
    while i < members.len()
        invariant
            i <= members.len(),
            member(members_view(members@), name@) == member_from(
                members_view(members@),
                name@,
                i as int,
            ),
        decreases members.len() - i,
    {
        if same_text(members[i].0.as_str(), name) {
            return Some(&members[i].1);
        }
        i += 1;
    }
    None
}

/// Finds the value under the first of several names that is present.
pub fn find_first_present<'a>(
    members: &'a Vec<(String, JsonValue)>,
    keys: &[&'static str],
) -> (found: Option<&'a JsonValue>)
    ensures
        found is Some <==> first_present(members_view(members@), texts(keys@)) is Some,
        found matches Some(value) ==> first_present(members_view(members@), texts(keys@)) == Some(
            value@,
        ),
{
    let mut i: usize = 0;
    while i < keys.len()
        invariant
            i <= keys.len(),
            first_present(members_view(members@), texts(keys@)) == first_present_from(
                members_view(members@),
                texts(keys@),
                i as int,
            ),
        decreases keys.len() - i,
    {
        match find_member(members, keys[i]) {
            Some(value) => {
                return Some(value);
            },
            None => {},
        }
        i += 1;
    }
    None
}

/// The normalizer. It counts the lines that it is given.
pub struct JsonLogParser {
    line_counter: u64,
}

impl JsonLogParser {
    /// The number of lines counted so far.
    pub closed spec fn lines_seen(&self) -> u64 {
        self.line_counter
    }

    /// A normalizer that has seen no line.
    pub fn new() -> (parser: JsonLogParser)
        ensures
            parser.lines_seen() == 0,
    {
        JsonLogParser { line_counter: 0 }
    }

    /// The number of lines counted so far.
    pub fn line_count(&self) -> (count: u64)
        ensures
            count == self.lines_seen(),
    {
        self.line_counter
    }

    /// Counts one more line and returns its number. Numbers start at one and
    /// grow by one with each line.
    pub fn next_line_number(&mut self) -> (number: u64)
        requires
            old(self).lines_seen() < u64::MAX,
        ensures
            number == old(self).lines_seen() + 1,
            final(self).lines_seen() == number,
    {
        self.line_counter = self.line_counter + 1;
        self.line_counter
    }

    /// Reads the instant that a JSON value denotes.
    pub fn parse_timestamp(&self, value: &JsonValue) -> (instant: Option<Timestamp>)
        ensures
            instant == timestamp_of(value@),
    {
        match value {
            JsonValue::String(text) => {
                let formats = [
                    "%Y-%m-%dT%H:%M:%S%.fZ",
                    "%Y-%m-%dT%H:%M:%SZ",
                    "%Y-%m-%d %H:%M:%S%.f",
                    "%Y-%m-%d %H:%M:%S",
                    "%d/%m/%Y %H:%M:%S",
                    "%m/%d/%Y %H:%M:%S",
                ];
                let mut i: usize = 0;
                while i < formats.len()
                    invariant
                        i <= formats.len(),
                        value@ == JsonView::String(text@),
                        texts(formats@) == timestamp_formats(),
                        first_format_match(text@, timestamp_formats(), 0) == first_format_match(
                            text@,
                            timestamp_formats(),
                            i as int,
                        ),
                    decreases formats.len() - i,
                {
                    match instant_with_format(text.as_str(), formats[i]) {
                        Some(instant) => {
                            return Some(instant);
                        },
                        None => {},
                    }
                    i += 1;
                }
                instant_from_rfc3339(text.as_str())
            },
            JsonValue::Number(number) => {
                match number.integer {
                    Some(count) => {
                        if count > MILLISECOND_THRESHOLD {
                            instant_from_millis(count)
                        } else {
                            instant_from_seconds(count)
                        }
                    },
                    None => None,
                }
            },
            _ => None,
        }
    }

    /// The instant of a record, where its payload gives one.
    pub fn extract_timestamp(&self, obj: &Vec<(String, JsonValue)>) -> (instant: Option<Timestamp>)
        ensures
            instant == resolved_timestamp(members_view(obj@)),
    {
        let keys = ["timestamp", "time", "ts", "@timestamp", "datetime", "created_at"];
        assert(texts(keys@) =~= timestamp_keys());
        match find_first_present(obj, keys.as_slice()) {
            Some(value) => self.parse_timestamp(value),
            None => None,
        }
    }

    /// The level of a record.
    pub fn extract_level(&self, obj: &Vec<(String, JsonValue)>) -> (level: LogLevel)
        ensures
            level == resolved_level(members_view(obj@)),
    {
        let keys = ["level", "lvl", "severity", "priority", "log_level"];
        assert(texts(keys@) =~= level_keys());
        match find_first_present(obj, keys.as_slice()) {
            Some(JsonValue::String(text)) => LogLevel::from_str(text.as_str()),
            _ => LogLevel::Info,
        }
    }

    /// The text under the first of several names that is present, where that
    /// value is a text.
    pub fn extract_string_field(
        &self,
        obj: &Vec<(String, JsonValue)>,
        keys: &[&'static str],
    ) -> (text: Option<String>)
        ensures
            crate::log_entry::optional_text(text) == resolved_text(
                members_view(obj@),
                texts(keys@),
            ),
    {
        match find_first_present(obj, keys) {
            Some(JsonValue::String(text)) => Some(text.clone()),
            _ => None,
        }
    }

    /// Normalizes a JSON object into a record. `now` is the time of
    /// ingestion; it becomes the record's instant where the payload gives
    /// none.
    pub fn extract_log_entry(
        &self,
        obj: Vec<(String, JsonValue)>,
        line_number: u64,
        now: Timestamp,
    ) -> (entry: LogEntry)
        ensures
            entry@ == normalized(members_view(obj@), line_number, now),
    {
        let timestamp = match self.extract_timestamp(&obj) {
            Some(instant) => instant,
            None => now,
        };
        let level = self.extract_level(&obj);
        let logger_names = ["logger", "logger_name", "name", "category", "component"];
        assert(texts(logger_names@) =~= logger_keys());
        let logger = match self.extract_string_field(&obj, logger_names.as_slice()) {
            Some(text) => text,
            None => "unknown".to_owned(),
        };
        let message_names = ["message", "msg", "text", "description", "content"];
        assert(texts(message_names@) =~= message_keys());
        let message = match self.extract_string_field(&obj, message_names.as_slice()) {
            Some(text) => text,
            None => String::new(),
        };
        let module_names = ["module", "mod", "component", "file", "filename"];
        assert(texts(module_names@) =~= module_keys());
        let module = self.extract_string_field(&obj, module_names.as_slice());
        let function_names = ["function", "func", "method", "procedure"];
        assert(texts(function_names@) =~= function_keys());
        let function = self.extract_string_field(&obj, function_names.as_slice());

        let mut entry = LogEntry::new(line_number, timestamp, level, logger, message);
        if let Some(module) = module {
            entry = entry.with_module(module);
        }
        if let Some(function) = function {
            entry = entry.with_function(function);
        }
        entry.with_raw_fields(obj)
    }

    /// Normalizes one line. A line that is blank, that is no JSON text, or
    /// whose top level is no object is rejected; every other line gives a
    /// record. `now` is the time of ingestion; it becomes the
    /// record's instant where the payload gives none.
    pub fn parse_line(&self, line: &str, line_number: u64, now: Timestamp) -> (parsed: Result<
        LogEntry,
        ParseError,
    >)
        ensures
            parsed is Ok <==> classified(line@) is Ok,
            (parsed matches Err(ParseError::EmptyLine)) <==> blank(line@),
            parsed matches Err(error) ==> classified(line@) == Err::<
                Seq<(Seq<char>, JsonView)>,
                ParseErrorView,
            >(error@),
            parsed matches Ok(entry) ==> entry@ == normalized(
                classified(line@)->Ok_0,
                line_number,
                now,
            ),
            parsed matches Ok(entry) ==> distinct_names(entry@.raw_fields),
    {
        proof {
            lemma_trims_to_nothing_iff_blank(line@);
        }
        let inner = trim(line);
        if inner.is_empty() {
            return Err(ParseError::EmptyLine);
        }
        match decode(inner) {
            Err(detail) => Err(ParseError::InvalidJson(detail)),
            Ok(JsonValue::Object(members)) => {
                proof {
                    lemma_object_view(members);
                }
                Ok(self.extract_log_entry(members, line_number, now))
            },
            Ok(_) => Err(ParseError::NotAnObject),
        }
    }

    /// Counts one more line and normalizes it under its number. `now` is the
    /// time of ingestion.
    pub fn parse_next(&mut self, line: &str, now: Timestamp) -> (parsed: Result<
        LogEntry,
        ParseError,
    >)
        requires
            old(self).lines_seen() < u64::MAX,
        ensures
            final(self).lines_seen() == old(self).lines_seen() + 1,
            parsed is Ok <==> classified(line@) is Ok,
            (parsed matches Err(ParseError::EmptyLine)) <==> blank(line@),
            parsed matches Err(error) ==> classified(line@) == Err::<
                Seq<(Seq<char>, JsonView)>,
                ParseErrorView,
            >(error@),
            parsed matches Ok(entry) ==> entry@ == normalized(
                classified(line@)->Ok_0,
                final(self).lines_seen(),
                now,
            ),
            parsed matches Ok(entry) ==> distinct_names(entry@.raw_fields),
    {
        let number = self.next_line_number();
        self.parse_line(line, number, now)
    }
}

impl Default for JsonLogParser {
    fn default() -> (parser: JsonLogParser)
        ensures
            parser.lines_seen() == 0,
    {
        JsonLogParser::new()
    }
}

} // verus!
