//! Filters over log records: a conjunction of optional predicates.

use crate::log_entry::{copy_optional_text, optional_text, LogEntry, LogLevel, LogRecord};
use crate::text::{contains_text, lowercase, occurs_in, to_lowercase};
use crate::timestamp::Timestamp;
use vstd::prelude::*;

verus! {

/// A conjunction of predicates on a record, each of which may be left unset.
/// A record matches when every predicate that is set holds of it.
#[derive(Debug)]
pub struct LogFilter {
    pub level: Option<LogLevel>,
    pub search_text: Option<String>,
    pub logger: Option<String>,
    pub module: Option<String>,
    pub start_time: Option<Timestamp>,
    pub end_time: Option<Timestamp>,
}

/// The mathematical value of a [`LogFilter`].
pub struct FilterView {
    pub level: Option<LogLevel>,
    pub search_text: Option<Seq<char>>,
    pub logger: Option<Seq<char>>,
    pub module: Option<Seq<char>>,
    pub start_time: Option<Timestamp>,
    pub end_time: Option<Timestamp>,
}

impl View for LogFilter {
    type V = FilterView;

    open spec fn view(&self) -> FilterView {
        FilterView {
            level: self.level,
            search_text: optional_text(self.search_text),
            logger: optional_text(self.logger),
            module: optional_text(self.module),
            start_time: self.start_time,
            end_time: self.end_time,
        }
    }
}

/// A needle occurs in one of the four searched texts of a record. All five
/// texts are taken as they are: the caller has put them in lower case.
pub open spec fn found_in_any(
    needle: Seq<char>,
    message: Seq<char>,
    logger: Seq<char>,
    module: Option<Seq<char>>,
    function: Option<Seq<char>>,
) -> bool {
    ||| occurs_in(needle, message)
    ||| occurs_in(needle, logger)
    ||| (module matches Some(m) && occurs_in(needle, m))
    ||| (function matches Some(f) && occurs_in(needle, f))
}

/// The lower-case form of an optional text.
pub open spec fn optional_lowercase(text: Option<Seq<char>>) -> Option<Seq<char>> {
    match text {
        Some(t) => Some(lowercase(t)),
        None => None,
    }
}

impl FilterView {
    /// No predicate is set.
    pub open spec fn is_empty(self) -> bool {
        &&& self.level is None
        &&& self.search_text is None
        &&& self.logger is None
        &&& self.module is None
        &&& self.start_time is None
        &&& self.end_time is None
    }

    /// The level predicate: the record has exactly the level asked for.
    pub open spec fn level_holds(self, record: LogRecord) -> bool {
        self.level matches Some(level) ==> record.level == level
    }

    /// The free-text predicate: the text occurs, whatever its case, in the
    /// message, the logger, the module or the function of the record.
    pub open spec fn search_holds(self, record: LogRecord) -> bool {
        self.search_text matches Some(text) ==> found_in_any(
            lowercase(text),
            lowercase(record.message),
            lowercase(record.logger),
            optional_lowercase(record.module),
            optional_lowercase(record.function),
        )
    }

    /// The logger predicate: the text occurs in the logger of the record.
    pub open spec fn logger_holds(self, record: LogRecord) -> bool {
        self.logger matches Some(text) ==> occurs_in(text, record.logger)
    }

    /// The module predicate: the record has a module, and the text occurs in
    /// it.
    pub open spec fn module_holds(self, record: LogRecord) -> bool {
        self.module matches Some(text) ==> (record.module matches Some(module) && occurs_in(
            text,
            module,
        ))
    }

    /// The time predicate: the record is not earlier than the start and not
    /// later than the end, where they are set.
    pub open spec fn time_holds(self, record: LogRecord) -> bool {
        &&& self.start_time matches Some(start) ==> !record.timestamp.precedes(start)
        &&& self.end_time matches Some(end) ==> !end.precedes(record.timestamp)
    }

    /// The record matches the filter: every predicate that is set holds.
    pub open spec fn accepts(self, record: LogRecord) -> bool {
        &&& self.level_holds(record)
        &&& self.search_holds(record)
        &&& self.logger_holds(record)
        &&& self.module_holds(record)
        &&& self.time_holds(record)
    }

    /// `self` sets every predicate that `base` sets, to the same value; it may
    /// set more.
    pub open spec fn refines(self, base: FilterView) -> bool {
        &&& base.level is Some ==> self.level == base.level
        &&& base.search_text is Some ==> self.search_text == base.search_text
        &&& base.logger is Some ==> self.logger == base.logger
        &&& base.module is Some ==> self.module == base.module
        &&& base.start_time is Some ==> self.start_time == base.start_time
        &&& base.end_time is Some ==> self.end_time == base.end_time
    }
}

/// The records of a sequence that match a filter, in the order of the
/// sequence.
pub open spec fn matched(records: Seq<LogRecord>, filter: FilterView) -> Seq<LogRecord>
    decreases records.len(),
{
    if records.len() == 0 {
        Seq::empty()
    } else {
        let earlier = matched(records.drop_last(), filter);
        if filter.accepts(records.last()) {
            earlier.push(records.last())
        } else {
            earlier
        }
    }
}

/// Whether a record matches does not depend on the order in which the
/// predicates are tested.
pub proof fn lemma_accepts_in_any_order(filter: FilterView, record: LogRecord)
    ensures
        filter.accepts(record) <==> (filter.time_holds(record) && filter.module_holds(record)
            && filter.logger_holds(record) && filter.search_holds(record) && filter.level_holds(
            record,
        )),
{
}

/// A filter with more predicates matches no record that the filter with
/// fewer predicates rejects.
pub proof fn lemma_refinement_is_monotonic(narrow: FilterView, base: FilterView, record: LogRecord)
    requires
        narrow.refines(base),
    ensures
        narrow.accepts(record) ==> base.accepts(record),
{
}

/// Adding predicates to a filter can only shrink or preserve what it
/// matches: the records that the narrower filter matches are those that it
/// matches among the matches of the base filter, and they are no more.
pub proof fn lemma_matched_is_monotonic(
    records: Seq<LogRecord>,
    narrow: FilterView,
    base: FilterView,
)
    requires
        narrow.refines(base),
    ensures
        matched(records, narrow) == matched(matched(records, base), narrow),
        matched(records, narrow).len() <= matched(records, base).len(),
    decreases records.len(),
{
    if records.len() > 0 {
        lemma_matched_is_monotonic(records.drop_last(), narrow, base);
        lemma_refinement_is_monotonic(narrow, base, records.last());
        let earlier = matched(records.drop_last(), base);
        if base.accepts(records.last()) {
            assert(earlier.push(records.last()).drop_last() =~= earlier);
        }
    }
}

/// The empty filter matches every record.
pub proof fn lemma_empty_filter_matches_all(records: Seq<LogRecord>, filter: FilterView)
    requires
        filter.is_empty(),
    ensures
        matched(records, filter) == records,
    decreases records.len(),
{
    if records.len() > 0 {
        lemma_empty_filter_matches_all(records.drop_last(), filter);
    }
}

/// Whether a needle occurs in the message, the logger, the module or the
/// function. No case is changed here.
pub fn search_hits(
    needle: &str,
    message: &str,
    logger: &str,
    module: &Option<String>,
    function: &Option<String>,
) -> (hit: bool)
    ensures
        hit == found_in_any(
            needle@,
            message@,
            logger@,
            optional_text(*module),
            optional_text(*function),
        ),
{
    let message_matches = contains_text(message, needle);
    let logger_matches = contains_text(logger, needle);
    let module_matches = match module {
        Some(m) => contains_text(m.as_str(), needle),
        None => false,
    };
    let function_matches = match function {
        Some(f) => contains_text(f.as_str(), needle),
        None => false,
    };
    message_matches || logger_matches || module_matches || function_matches
}

/// An optional text in lower case.
fn lowercase_optional(text: &Option<String>) -> (lower: Option<String>)
    ensures
        optional_text(lower) == optional_lowercase(optional_text(*text)),
{
    match text {
        Some(t) => Some(to_lowercase(t.as_str())),
        None => None,
    }
}

impl LogFilter {
    /// The filter with no predicate set.
    pub fn new() -> (filter: LogFilter)
        ensures
            filter@.is_empty(),
    {
        LogFilter {
            level: None,
            search_text: None,
            logger: None,
            module: None,
            start_time: None,
            end_time: None,
        }
    }

    /// The same filter with the level predicate set.
    pub fn with_level(self, level: LogLevel) -> (filter: LogFilter)
        ensures
            filter@ == (FilterView { level: Some(level), ..self@ }),
    {
        let mut filter = self;
        filter.level = Some(level);
        filter
    }

    /// The same filter with the free-text predicate set.
    pub fn with_search_text(self, text: String) -> (filter: LogFilter)
        ensures
            filter@ == (FilterView { search_text: Some(text@), ..self@ }),
    {
        let mut filter = self;
        filter.search_text = Some(text);
        filter
    }

    /// The same filter with the logger predicate set.
    pub fn with_logger(self, logger: String) -> (filter: LogFilter)
        ensures
            filter@ == (FilterView { logger: Some(logger@), ..self@ }),
    {
        let mut filter = self;
        filter.logger = Some(logger);
        filter
    }

    /// The same filter with the module predicate set.
    pub fn with_module(self, module: String) -> (filter: LogFilter)
        ensures
            filter@ == (FilterView { module: Some(module@), ..self@ }),
    {
        let mut filter = self;
        filter.module = Some(module);
        filter
    }

    /// The same filter with both ends of the time range set.
    pub fn with_time_range(self, start: Timestamp, end: Timestamp) -> (filter: LogFilter)
        ensures
            filter@ == (FilterView { start_time: Some(start), end_time: Some(end), ..self@ }),
    {
        let mut filter = self;
        filter.start_time = Some(start);
        filter.end_time = Some(end);
        filter
    }

    /// Whether a record matches the filter.
    pub fn matches(&self, entry: &LogEntry) -> (accepted: bool)
        ensures
            accepted == self@.accepts(entry@),
            self@.is_empty() ==> accepted,
    {
        if let Some(filter_level) = &self.level {
            if entry.level != *filter_level {
                return false;
            }
        }
        if let Some(search_text) = &self.search_text {
            let search_lower = to_lowercase(search_text.as_str());
            let message_lower = to_lowercase(entry.message.as_str());
            let logger_lower = to_lowercase(entry.logger.as_str());
            let module_lower = lowercase_optional(&entry.module);
            let function_lower = lowercase_optional(&entry.function);
            if !search_hits(
                search_lower.as_str(),
                message_lower.as_str(),
                logger_lower.as_str(),
                &module_lower,
                &function_lower,
            ) {
                return false;
            }
        }
        if let Some(filter_logger) = &self.logger {
            if !contains_text(entry.logger.as_str(), filter_logger.as_str()) {
                return false;
            }
        }
        if let Some(filter_module) = &self.module {
            if let Some(entry_module) = &entry.module {
                if !contains_text(entry_module.as_str(), filter_module.as_str()) {
                    return false;
                }
            } else {
                return false;
            }
        }
        if let Some(start_time) = &self.start_time {
            if entry.timestamp.is_before(start_time) {
                return false;
            }
        }
        if let Some(end_time) = &self.end_time {
            if entry.timestamp.is_after(end_time) {
                return false;
            }
        }
        true
    }

    /// Whether no predicate is set.
    pub fn is_empty(&self) -> (empty: bool)
        ensures
            empty == self@.is_empty(),
    {
        self.level.is_none() && self.search_text.is_none() && self.logger.is_none()
            && self.module.is_none() && self.start_time.is_none() && self.end_time.is_none()
    }

    /// Unsets every predicate.
    pub fn clear(&mut self)
        ensures
            final(self)@.is_empty(),
    {
        self.level = None;
        self.search_text = None;
        self.logger = None;
        self.module = None;
        self.start_time = None;
        self.end_time = None;
    }
}

impl Clone for LogFilter {
    fn clone(&self) -> (copy: Self)
        ensures
            copy@ == self@,
    {
        LogFilter {
            level: self.level,
            search_text: copy_optional_text(&self.search_text),
            logger: copy_optional_text(&self.logger),
            module: copy_optional_text(&self.module),
            start_time: self.start_time,
            end_time: self.end_time,
        }
    }
}

impl Default for LogFilter {
    fn default() -> (filter: LogFilter)
        ensures
            filter@.is_empty(),
    {
        LogFilter::new()
    }
}

} // verus!
