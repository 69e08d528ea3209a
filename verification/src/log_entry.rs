//! Log records: their severity, their canonical fields and the index of
//! flattened fields derived from the raw payload.

use crate::json::{
    copy_members, copy_values, lemma_array_view, lemma_object_view, members_view, values_view,
    JsonNumber, JsonValue, JsonView, NumberView,
};
use crate::text::{same_text, to_uppercase, uppercase};
use crate::timestamp::Timestamp;
use vstd::prelude::*;
use vstd::string::StringExecFns;

verus! {

broadcast use vstd::std_specs::vec::axiom_vec_index_decreases;

/// Severity of a log record.
#[derive(Clone, Copy, Debug, PartialEq, Eq, Structural)]
pub enum LogLevel {
    Trace,
    Debug,
    Info,
    Warn,
    Error,
    Fatal,
}

impl LogLevel {
    /// The level that an upper-case name denotes: one of the six level names,
    /// `WARNING` for `Warn`, `CRITICAL` for `Fatal`; any other text denotes
    /// `Info`.
    pub open spec fn of_upper(name: Seq<char>) -> LogLevel {
        if name == "TRACE"@ {
            LogLevel::Trace
        } else if name == "DEBUG"@ {
            LogLevel::Debug
        } else if name == "INFO"@ {
            LogLevel::Info
        } else if name == "WARN"@ || name == "WARNING"@ {
            LogLevel::Warn
        } else if name == "ERROR"@ {
            LogLevel::Error
        } else if name == "FATAL"@ || name == "CRITICAL"@ {
            LogLevel::Fatal
        } else {
            LogLevel::Info
        }
    }

    /// An upper-case text is one of the names that [`LogLevel::of_upper`]
    /// knows.
    pub open spec fn is_level_name(name: Seq<char>) -> bool {
        name == "TRACE"@ || name == "DEBUG"@ || name == "INFO"@ || name == "WARN"@ || name
            == "WARNING"@ || name == "ERROR"@ || name == "FATAL"@ || name == "CRITICAL"@
    }

    /// The canonical upper-case name of a level.
    pub open spec fn name(self) -> Seq<char> {
        match self {
            LogLevel::Trace => "TRACE"@,
            LogLevel::Debug => "DEBUG"@,
            LogLevel::Info => "INFO"@,
            LogLevel::Warn => "WARN"@,
            LogLevel::Error => "ERROR"@,
            LogLevel::Fatal => "FATAL"@,
        }
    }

    /// The display colour of a level, as a hexadecimal RGB code.
    pub open spec fn color_code(self) -> Seq<char> {
        match self {
            LogLevel::Trace => "#6B7280"@,
            LogLevel::Debug => "#3B82F6"@,
            LogLevel::Info => "#10B981"@,
            LogLevel::Warn => "#F59E0B"@,
            LogLevel::Error => "#EF4444"@,
            LogLevel::Fatal => "#DC2626"@,
        }
    }

    /// Reads a level from a text that is already in upper case.
    pub fn from_upper(name: &str) -> (level: LogLevel)
        ensures
            level == LogLevel::of_upper(name@),
            !LogLevel::is_level_name(name@) ==> level == LogLevel::Info,
    {
        if same_text(name, "TRACE") {
            LogLevel::Trace
        } else if same_text(name, "DEBUG") {
            LogLevel::Debug
        } else if same_text(name, "INFO") {
            LogLevel::Info
        } else if same_text(name, "WARN") || same_text(name, "WARNING") {
            LogLevel::Warn
        } else if same_text(name, "ERROR") {
            LogLevel::Error
        } else if same_text(name, "FATAL") || same_text(name, "CRITICAL") {
            LogLevel::Fatal
        } else {
            LogLevel::Info
        }
    }

    /// Reads a level from a text, whatever its case: the text is put in upper
    /// case and then read by [`LogLevel::from_upper`]. A text that names no
    /// level gives `Info`.
    pub fn from_str(s: &str) -> (level: LogLevel)
        ensures
            level == LogLevel::of_upper(uppercase(s@)),
            !LogLevel::is_level_name(uppercase(s@)) ==> level == LogLevel::Info,
    {
        let upper = to_uppercase(s);
        LogLevel::from_upper(upper.as_str())
    }

    /// The upper-case name of the level.
    pub fn as_str(&self) -> (name: &'static str)
        ensures
            name@ == self.name(),
    {
        match self {
            LogLevel::Trace => "TRACE",
            LogLevel::Debug => "DEBUG",
            LogLevel::Info => "INFO",
            LogLevel::Warn => "WARN",
            LogLevel::Error => "ERROR",
            LogLevel::Fatal => "FATAL",
        }
    }

    /// The display colour of the level.
    pub fn color(&self) -> (code: &'static str)
        ensures
            code@ == self.color_code(),
    {
        match self {
            LogLevel::Trace => "#6B7280",
            LogLevel::Debug => "#3B82F6",
            LogLevel::Info => "#10B981",
            LogLevel::Warn => "#F59E0B",
            LogLevel::Error => "#EF4444",
            LogLevel::Fatal => "#DC2626",
        }
    }
}

/// One value of the flattened field index.
#[derive(Debug, PartialEq)]
pub enum DynamicFieldValue {
    String(String),
    Number(JsonNumber),
    Boolean(bool),
    Object(JsonValue),
    Array(Vec<JsonValue>),
    Null,
}

/// The mathematical value of a [`DynamicFieldValue`].
pub enum FieldView {
    String(Seq<char>),
    Number(NumberView),
    Boolean(bool),
    Object(JsonView),
    Array(Seq<JsonView>),
    Null,
}

impl View for DynamicFieldValue {
    type V = FieldView;

    open spec fn view(&self) -> FieldView {
        match self {
            DynamicFieldValue::String(s) => FieldView::String(s@),
            DynamicFieldValue::Number(n) => FieldView::Number(n@),
            DynamicFieldValue::Boolean(b) => FieldView::Boolean(*b),
            DynamicFieldValue::Object(value) => FieldView::Object(value@),
            DynamicFieldValue::Array(items) => FieldView::Array(values_view(items@)),
            DynamicFieldValue::Null => FieldView::Null,
        }
    }
}

impl Clone for DynamicFieldValue {
    fn clone(&self) -> (copy: Self)
        ensures
            copy@ == self@,
    {
        match self {
            DynamicFieldValue::String(s) => DynamicFieldValue::String(s.clone()),
            DynamicFieldValue::Number(n) => DynamicFieldValue::Number(n.clone()),
            DynamicFieldValue::Boolean(b) => DynamicFieldValue::Boolean(*b),
            DynamicFieldValue::Object(value) => DynamicFieldValue::Object(value.clone()),
            DynamicFieldValue::Array(items) => DynamicFieldValue::Array(copy_values(items)),
            DynamicFieldValue::Null => DynamicFieldValue::Null,
        }
    }
}

/// The names and values of a list of index entries, in the order written.
pub open spec fn writes_view(entries: Seq<(String, DynamicFieldValue)>) -> Seq<
    (Seq<char>, FieldView),
> {
    Seq::new(entries.len(), |i: int| (entries[i].0@, entries[i].1@))
}

/// The mapping that a list of writes leaves behind: each path maps to the
/// value written to it last.
pub open spec fn index_of(writes: Seq<(Seq<char>, FieldView)>) -> Map<Seq<char>, FieldView>
    decreases writes.len(),
{
    if writes.len() == 0 {
        Map::empty()
    } else {
        index_of(writes.drop_last()).insert(writes.last().0, writes.last().1)
    }
}

/// A path that is written at `at` and not again later maps to the value
/// written there.
pub proof fn lemma_index_of_last_write(
    writes: Seq<(Seq<char>, FieldView)>,
    path: Seq<char>,
    at: int,
)
    requires
        0 <= at < writes.len(),
        writes[at].0 == path,
        forall|j: int| at < j < writes.len() ==> writes[j].0 != path,
    ensures
        index_of(writes).contains_key(path),
        index_of(writes)[path] == writes[at].1,
    decreases writes.len(),
{
    if at < writes.len() - 1 {
        lemma_index_of_last_write(writes.drop_last(), path, at);
    }
}

/// A path that is never written is not in the mapping.
pub proof fn lemma_index_of_unwritten(writes: Seq<(Seq<char>, FieldView)>, path: Seq<char>)
    requires
        forall|j: int| 0 <= j < writes.len() ==> writes[j].0 != path,
    ensures
        !index_of(writes).contains_key(path),
    decreases writes.len(),
{
    if writes.len() > 0 {
        lemma_index_of_unwritten(writes.drop_last(), path);
    }
}

/// The index of flattened fields of a record: a mapping from a path to the
/// value at that path. Writing to a path that is already there replaces its
/// value.
#[derive(Debug)]
pub struct FieldIndex {
    entries: Vec<(String, DynamicFieldValue)>,
}

impl View for FieldIndex {
    type V = Map<Seq<char>, FieldView>;

    open spec fn view(&self) -> Map<Seq<char>, FieldView> {
        index_of(self.writes())
    }
}

impl FieldIndex {
    /// Every write made to the index, oldest first.
    pub closed spec fn writes(&self) -> Seq<(Seq<char>, FieldView)> {
        writes_view(self.entries@)
    }

    /// An index without entries.
    pub fn new() -> (index: FieldIndex)
        ensures
            index.writes() == Seq::<(Seq<char>, FieldView)>::empty(),
            index@ == Map::<Seq<char>, FieldView>::empty(),
    {
        let index = FieldIndex { entries: Vec::new() };
        index
    }

    /// Writes a value to a path.
    pub fn insert(&mut self, path: String, value: DynamicFieldValue)
        ensures
            final(self).writes() == old(self).writes().push((path@, value@)),
            final(self)@ == old(self)@.insert(path@, value@),
    {
        self.entries.push((path, value));
        assert(self.writes().drop_last() =~= old(self).writes());
    }

    /// The value at a path, where there is one.
    pub fn get(&self, path: &str) -> (found: Option<&DynamicFieldValue>)
        ensures
            found is Some <==> self@.contains_key(path@),
            found matches Some(value) ==> value@ == self@[path@],
    {
        let mut i: usize = self.entries.len();
        while i > 0
            invariant
                i <= self.entries.len(),
                forall|j: int| i <= j < self.entries.len() ==> self.entries[j].0@ != path@,
            decreases i,
        {
            i -= 1;
            if same_text(self.entries[i].0.as_str(), path) {
                proof {
                    lemma_index_of_last_write(self.writes(), path@, i as int);
                }
                return Some(&self.entries[i].1);
            }
        }
        proof {
            lemma_index_of_unwritten(self.writes(), path@);
        }
        None
    }

    /// The number of writes that the index holds.
    pub fn write_count(&self) -> (count: usize)
        ensures
            count == self.writes().len(),
    {
        self.entries.len()
    }

    /// The path and the value of the write at a position, oldest first,
    /// where the index holds that many.
    pub fn write_at(&self, position: usize) -> (entry: Option<(&str, &DynamicFieldValue)>)
        ensures
            entry is Some <==> position < self.writes().len(),
            entry matches Some(write) ==> write.0@ == self.writes()[position as int].0 && write.1@
                == self.writes()[position as int].1,
    {
        if position < self.entries.len() {
            Some((self.entries[position].0.as_str(), &self.entries[position].1))
        } else {
            None
        }
    }
}

impl Clone for FieldIndex {
    fn clone(&self) -> (copy: Self)
        ensures
            copy.writes() == self.writes(),
            copy@ == self@,
    {
        let mut entries: Vec<(String, DynamicFieldValue)> = Vec::new();
        let mut i: usize = 0;
        while i < self.entries.len()
            invariant
                i <= self.entries.len(),
                entries.len() == i,
                forall|k: int|
                    0 <= k < i ==> entries[k].0@ == self.entries[k].0@ && entries[k].1@
                        == self.entries[k].1@,
            decreases self.entries.len() - i,
        {
            let path = self.entries[i].0.clone();
            let value = self.entries[i].1.clone();
            entries.push((path, value));
            i += 1;
        }
        let copy = FieldIndex { entries };
        copy
    }
}

/// The number of leading array items that are flattened under paths of
/// their own.
pub const FLATTENED_ITEMS: usize = 10;

/// The decimal digit for a number below ten.
pub open spec fn digit(value: int) -> char {
    if value == 0 {
        '0'
    } else if value == 1 {
        '1'
    } else if value == 2 {
        '2'
    } else if value == 3 {
        '3'
    } else if value == 4 {
        '4'
    } else if value == 5 {
        '5'
    } else if value == 6 {
        '6'
    } else if value == 7 {
        '7'
    } else if value == 8 {
        '8'
    } else {
        '9'
    }
}

/// The path of the array item with a one-digit index: `path[index]`.
pub open spec fn item_path(path: Seq<char>, index: int) -> Seq<char> {
    path.push('[').push(digit(index)).push(']')
}

/// The path of an object member: `prefix.name`, or the bare name under the
/// empty prefix.
pub open spec fn member_path(prefix: Seq<char>, name: Seq<char>) -> Seq<char> {
    if prefix.len() == 0 {
        name
    } else {
        prefix.push('.') + name
    }
}

/// The writes that flattening one value under a path makes, in order. A
/// scalar is written to the path. An array is written whole to the path, and
/// then its first ten items are flattened under `path[0]` to `path[9]`. An
/// object is written whole to the path, and then its members are flattened
/// under `path.name`.
pub open spec fn flatten_value_writes(path: Seq<char>, value: JsonView) -> Seq<
    (Seq<char>, FieldView),
>
    decreases value, 0nat,
{
    match value {
        JsonView::Null => seq![(path, FieldView::Null)],
        JsonView::Bool(b) => seq![(path, FieldView::Boolean(b))],
        JsonView::Number(n) => seq![(path, FieldView::Number(n))],
        JsonView::String(s) => seq![(path, FieldView::String(s))],
        JsonView::Array(items) => seq![(path, FieldView::Array(items))] + flatten_items_writes(
            path,
            items,
            if items.len() < FLATTENED_ITEMS {
                items.len()
            } else {
                FLATTENED_ITEMS as nat
            },
        ),
        JsonView::Object(members) => seq![(path, FieldView::Object(value))]
            + flatten_members_writes(path, members, members.len()),
    }
}

/// The writes that flattening the first `count` items of an array makes.
pub open spec fn flatten_items_writes(path: Seq<char>, items: Seq<JsonView>, count: nat) -> Seq<
    (Seq<char>, FieldView),
>
    decreases items, count,
{
    if count == 0 || count > items.len() {
        Seq::empty()
    } else {
        flatten_items_writes(path, items, (count - 1) as nat) + flatten_value_writes(
            item_path(path, count - 1),
            items[count - 1],
        )
    }
}

/// The writes that flattening the first `count` members of an object makes.
pub open spec fn flatten_members_writes(
    prefix: Seq<char>,
    members: Seq<(Seq<char>, JsonView)>,
    count: nat,
) -> Seq<(Seq<char>, FieldView)>
    decreases members, count,
{
    if count == 0 || count > members.len() {
        Seq::empty()
    } else {
        flatten_members_writes(prefix, members, (count - 1) as nat) + flatten_value_writes(
            member_path(prefix, members[count - 1].0),
            members[count - 1].1,
        )
    }
}

/// The flattened field index of a payload: the mapping that flattening every
/// top-level member under its own name leaves behind.
pub open spec fn flatten(fields: Seq<(Seq<char>, JsonView)>) -> Map<Seq<char>, FieldView> {
    index_of(flatten_members_writes(Seq::empty(), fields, fields.len()))
}

/// Flattening depends on the payload alone: payloads with the same value
/// have the same field index.
pub proof fn lemma_flatten_is_deterministic(
    first: Seq<(String, JsonValue)>,
    second: Seq<(String, JsonValue)>,
)
    requires
        members_view(first) == members_view(second),
    ensures
        flatten(members_view(first)) == flatten(members_view(second)),
{
}

fn digit_text(value: usize) -> (text: &'static str)
    requires
        value < 10,
    ensures
        text@ == seq![digit(value as int)],
{
    proof {
        reveal_strlit("0");
        reveal_strlit("1");
        reveal_strlit("2");
        reveal_strlit("3");
        reveal_strlit("4");
        reveal_strlit("5");
        reveal_strlit("6");
        reveal_strlit("7");
        reveal_strlit("8");
        reveal_strlit("9");
    }
    let text = if value == 0 {
        "0"
    } else if value == 1 {
        "1"
    } else if value == 2 {
        "2"
    } else if value == 3 {
        "3"
    } else if value == 4 {
        "4"
    } else if value == 5 {
        "5"
    } else if value == 6 {
        "6"
    } else if value == 7 {
        "7"
    } else if value == 8 {
        "8"
    } else {
        "9"
    };
    text
}

fn item_path_text(path: &str, index: usize) -> (text: String)
    requires
        index < 10,
    ensures
        text@ == item_path(path@, index as int),
{
    proof {
        reveal_strlit("[");
        reveal_strlit("]");
    }
    let mut text = path.to_owned();
    text.append("[");
    text.append(digit_text(index));
    text.append("]");
    text
}

fn member_path_text(prefix: &str, name: &str) -> (text: String)
    ensures
        text@ == member_path(prefix@, name@),
{
    if prefix.is_empty() {
        name.to_owned()
    } else {
        proof {
            reveal_strlit(".");
        }
        let mut text = prefix.to_owned();
        text.append(".");
        text.append(name);
        text
    }
}

fn flatten_object(members: &Vec<(String, JsonValue)>, prefix: &str, result: &mut FieldIndex)
    ensures
        final(result).writes() == old(result).writes() + flatten_members_writes(
            prefix@,
            members_view(members@),
            members@.len(),
        ),
    decreases members,
{
    let ghost shape = members_view(members@);
    let mut i: usize = 0;
    while i < members.len()
        invariant
            i <= members.len(),
            shape == members_view(members@),
            result.writes() == old(result).writes() + flatten_members_writes(
                prefix@,
                shape,
                i as nat,
            ),
        decreases members.len() - i,
    {
        let field_path = member_path_text(prefix, members[i].0.as_str());
        flatten_value(field_path.as_str(), &members[i].1, result);
        i += 1;
    }
}

fn flatten_items(items: &Vec<JsonValue>, path: &str, result: &mut FieldIndex)
    ensures
        final(result).writes() == old(result).writes() + flatten_items_writes(
            path@,
            values_view(items@),
            if items@.len() < FLATTENED_ITEMS {
                items@.len()
            } else {
                FLATTENED_ITEMS as nat
            },
        ),
    decreases items,
{
    let ghost shape = values_view(items@);
    let count = if items.len() < FLATTENED_ITEMS {
        items.len()
    } else {
        FLATTENED_ITEMS
    };
    let mut i: usize = 0;
    while i < count
        invariant
            i <= count,
            count <= items.len(),
            count <= FLATTENED_ITEMS,
            shape == values_view(items@),
            result.writes() == old(result).writes() + flatten_items_writes(path@, shape, i as nat),
        decreases count - i,
    {
        let array_path = item_path_text(path, i);
        flatten_value(array_path.as_str(), &items[i], result);
        i += 1;
    }
}

fn flatten_value(path: &str, value: &JsonValue, result: &mut FieldIndex)
    ensures
        final(result).writes() == old(result).writes() + flatten_value_writes(path@, value@),
    decreases value,
{
    match value {
        JsonValue::Null => {
            result.insert(path.to_owned(), DynamicFieldValue::Null);
        },
        JsonValue::Bool(b) => {
            result.insert(path.to_owned(), DynamicFieldValue::Boolean(*b));
        },
        JsonValue::Number(n) => {
            result.insert(path.to_owned(), DynamicFieldValue::Number(n.clone()));
        },
        JsonValue::String(s) => {
            result.insert(path.to_owned(), DynamicFieldValue::String(s.clone()));
        },
        JsonValue::Array(items) => {
            proof {
                lemma_array_view(*items);
            }
            result.insert(path.to_owned(), DynamicFieldValue::Array(copy_values(items)));
            flatten_items(items, path, result);
        },
        JsonValue::Object(members) => {
            proof {
                lemma_object_view(*members);
            }
            result.insert(path.to_owned(), DynamicFieldValue::Object(value.clone()));
            flatten_object(members, path, result);
        },
    }
}

/// The characters of an optional text.
pub open spec fn optional_text(text: Option<String>) -> Option<Seq<char>> {
    match text {
        Some(s) => Some(s@),
        None => None,
    }
}

/// One normalized log record.
#[derive(Debug)]
pub struct LogEntry {
    pub line: u64,
    pub timestamp: Timestamp,
    pub level: LogLevel,
    pub logger: String,
    pub message: String,
    pub module: Option<String>,
    pub function: Option<String>,
    pub raw_fields: Vec<(String, JsonValue)>,
    pub dynamic_fields: FieldIndex,
}

/// The mathematical value of a [`LogEntry`].
pub struct LogRecord {
    pub line: u64,
    pub timestamp: Timestamp,
    pub level: LogLevel,
    pub logger: Seq<char>,
    pub message: Seq<char>,
    pub module: Option<Seq<char>>,
    pub function: Option<Seq<char>>,
    pub raw_fields: Seq<(Seq<char>, JsonView)>,
    pub dynamic_fields: Map<Seq<char>, FieldView>,
}

impl View for LogEntry {
    type V = LogRecord;

    open spec fn view(&self) -> LogRecord {
        LogRecord {
            line: self.line,
            timestamp: self.timestamp,
            level: self.level,
            logger: self.logger@,
            message: self.message@,
            module: optional_text(self.module),
            function: optional_text(self.function),
            raw_fields: members_view(self.raw_fields@),
            dynamic_fields: self.dynamic_fields@,
        }
    }
}

/// Copies an optional text.
pub fn copy_optional_text(text: &Option<String>) -> (copy: Option<String>)
    ensures
        optional_text(copy) == optional_text(*text),
{
    match text {
        Some(s) => Some(s.clone()),
        None => None,
    }
}

impl Clone for LogEntry {
    fn clone(&self) -> (copy: Self)
        ensures
            copy@ == self@,
    {
        LogEntry {
            line: self.line,
            timestamp: self.timestamp,
            level: self.level,
            logger: self.logger.clone(),
            message: self.message.clone(),
            module: copy_optional_text(&self.module),
            function: copy_optional_text(&self.function),
            raw_fields: copy_members(&self.raw_fields),
            dynamic_fields: self.dynamic_fields.clone(),
        }
    }
}

impl LogEntry {
    /// A record with the five canonical fields, no module, no function and
    /// no payload.
    pub fn new(
        line: u64,
        timestamp: Timestamp,
        level: LogLevel,
        logger: String,
        message: String,
    ) -> (entry: LogEntry)
        ensures
            entry@ == (LogRecord {
                line,
                timestamp,
                level,
                logger: logger@,
                message: message@,
                module: None,
                function: None,
                raw_fields: Seq::empty(),
                dynamic_fields: Map::empty(),
            }),
    {
        let entry = LogEntry {
            line,
            timestamp,
            level,
            logger,
            message,
            module: None,
            function: None,
            raw_fields: Vec::new(),
            dynamic_fields: FieldIndex::new(),
        };
        assert(entry@.raw_fields =~= Seq::empty());
        entry
    }

    /// The same record with a module.
    pub fn with_module(self, module: String) -> (entry: LogEntry)
        ensures
            entry@ == (LogRecord { module: Some(module@), ..self@ }),
    {
        let mut entry = self;
        entry.module = Some(module);
        entry
    }

    /// The same record with a function.
    pub fn with_function(self, function: String) -> (entry: LogEntry)
        ensures
            entry@ == (LogRecord { function: Some(function@), ..self@ }),
    {
        let mut entry = self;
        entry.function = Some(function);
        entry
    }

    /// The same record with a payload, and with the field index that
    /// flattening the payload gives.
    pub fn with_raw_fields(self, fields: Vec<(String, JsonValue)>) -> (entry: LogEntry)
        ensures
            entry@ == (LogRecord {
                raw_fields: members_view(fields@),
                dynamic_fields: flatten(members_view(fields@)),
                ..self@
            }),
    {
        let mut entry = self;
        entry.dynamic_fields = LogEntry::extract_dynamic_fields(&fields);
        entry.raw_fields = fields;
        entry
    }

    /// Flattens a payload into a field index.
    pub fn extract_dynamic_fields(fields: &Vec<(String, JsonValue)>) -> (index: FieldIndex)
        ensures
            index@ == flatten(members_view(fields@)),
            index.writes() == flatten_members_writes(
                Seq::empty(),
                members_view(fields@),
                fields@.len(),
            ),
    {
        let mut index = FieldIndex::new();
        flatten_object(fields, "", &mut index);
        proof {
            reveal_strlit("");
            assert(""@ =~= Seq::<char>::empty());
        }
        index
    }

    /// The value at a path of the flattened field index.
    pub fn get_field_value(&self, field_path: &str) -> (found: Option<&DynamicFieldValue>)
        ensures
            found is Some <==> self@.dynamic_fields.contains_key(field_path@),
            found matches Some(value) ==> value@ == self@.dynamic_fields[field_path@],
    {
        self.dynamic_fields.get(field_path)
    }
}

} // verus!
