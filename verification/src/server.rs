//! The state that the server keeps, and the decisions that its handlers
//! make on it.

use crate::broadcast::{Broadcaster, SubscriberView, DEFAULT_QUEUE_CAPACITY};
use crate::filter::{matched, FilterView, LogFilter};
use crate::json::JsonView;
use crate::log_entry::{optional_text, LogEntry, LogLevel, LogRecord};
use crate::parser::{classified, normalized, JsonLogParser, ParseError, ParseErrorView};
use crate::schema::{default_columns, schema_after, Schema, SchemaView, TableConfig, TableView};
use crate::store::{keep_last, records_view, Store, DEFAULT_CAPACITY};
use crate::text::{blank, uppercase};
use crate::timestamp::Timestamp;
use vstd::prelude::*;

verus! {

/// The most ports that are tried when the requested one is taken.
pub const MAX_PORT_ATTEMPTS: u16 = 100;

/// Everything the server keeps: the stored records, the subscribers of the
/// live feed, the discovered schema and the column layout.
pub struct AppState {
    pub logs: Store,
    pub broadcaster: Broadcaster,
    pub schema: Schema,
    pub table_config: Option<TableConfig>,
}

/// The mathematical value of an [`AppState`].
pub struct AppStateView {
    pub logs: Seq<LogRecord>,
    pub capacity: nat,
    pub subscribers: Map<u64, SubscriberView>,
    pub queue_limit: nat,
    pub schema: SchemaView,
    pub table_config: Option<TableView>,
}

/// The value of an optional column layout.
pub open spec fn optional_table(config: Option<TableConfig>) -> Option<TableView> {
    match config {
        Some(c) => Some(c@),
        None => None,
    }
}

impl View for AppState {
    type V = AppStateView;

    open spec fn view(&self) -> AppStateView {
        AppStateView {
            logs: self.logs@,
            capacity: self.logs.limit(),
            subscribers: self.broadcaster@,
            queue_limit: self.broadcaster.queue_limit(),
            schema: self.schema@,
            table_config: optional_table(self.table_config),
        }
    }
}

impl AppStateView {
    /// The state after one more record was added: the record is stored, the
    /// first record fixes the schema, a layout is derived from the schema
    /// where there was none, and every subscriber is offered the record.
    pub open spec fn after_append(self, record: LogRecord) -> AppStateView {
        let schema = schema_after(self.schema, record.raw_fields);
        AppStateView {
            logs: keep_last(self.logs.push(record), self.capacity),
            capacity: self.capacity,
            subscribers: self.subscribers.map_values(
                |subscriber: SubscriberView| subscriber.offered(record, self.queue_limit),
            ),
            queue_limit: self.queue_limit,
            schema,
            table_config: match self.table_config {
                Some(config) => Some(config),
                None => Some(TableView { theme: None, columns: default_columns(schema.fields) }),
            },
        }
    }
}

/// The parameters of a query, as the caller wrote them.
#[derive(Debug)]
pub struct LogQueryParams {
    pub level: Option<String>,
    pub search: Option<String>,
    pub logger: Option<String>,
    pub module: Option<String>,
    pub limit: Option<usize>,
}

/// The mathematical value of a [`LogQueryParams`].
pub struct QueryView {
    pub level: Option<Seq<char>>,
    pub search: Option<Seq<char>>,
    pub logger: Option<Seq<char>>,
    pub module: Option<Seq<char>>,
    pub limit: Option<usize>,
}

impl View for LogQueryParams {
    type V = QueryView;

    open spec fn view(&self) -> QueryView {
        QueryView {
            level: optional_text(self.level),
            search: optional_text(self.search),
            logger: optional_text(self.logger),
            module: optional_text(self.module),
            limit: self.limit,
        }
    }
}

/// The answer to a query: the records kept, and the counts before and after
/// filtering.
#[derive(Debug)]
pub struct LogResponse {
    pub logs: Vec<LogEntry>,
    pub total_count: usize,
    pub filtered_count: usize,
}

/// The mathematical value of a [`LogResponse`].
pub struct ResponseView {
    pub logs: Seq<LogRecord>,
    pub total_count: usize,
    pub filtered_count: usize,
}

impl View for LogResponse {
    type V = ResponseView;

    open spec fn view(&self) -> ResponseView {
        ResponseView {
            logs: records_view(self.logs@),
            total_count: self.total_count,
            filtered_count: self.filtered_count,
        }
    }
}

/// Counters of the running server.
#[derive(Clone, Copy, Debug, PartialEq, Eq, Structural)]
pub struct StatsResponse {
    pub total_logs: usize,
    pub active_connections: u64,
    pub uptime_seconds: u64,
}

/// A parameter that was given and is not empty.
pub open spec fn given(text: Option<Seq<char>>) -> Option<Seq<char>> {
    match text {
        Some(t) => if t.len() > 0 {
            Some(t)
        } else {
            None
        },
        None => None,
    }
}

/// The filter that a query asks for: each parameter that is given and not
/// empty sets its predicate; a level is read whatever its case.
pub open spec fn query_filter(params: QueryView) -> FilterView {
    FilterView {
        level: match given(params.level) {
            Some(name) => Some(LogLevel::of_upper(uppercase(name))),
            None => None,
        },
        search_text: given(params.search),
        logger: given(params.logger),
        module: given(params.module),
        start_time: None,
        end_time: None,
    }
}

/// The answer to a query over a list of stored records: the records that
/// match, cut down to the most recent `limit` where a limit is given, with
/// the number of stored records and the number of matches.
pub open spec fn query_answer(logs: Seq<LogRecord>, params: QueryView) -> ResponseView {
    let hits = matched(logs, query_filter(params));
    ResponseView {
        logs: match params.limit {
            Some(limit) => keep_last(hits, limit as nat),
            None => hits,
        },
        total_count: logs.len() as usize,
        filtered_count: hits.len() as usize,
    }
}

/// The port to try after a number of failed attempts, counting up from the
/// requested one: there is none once the attempts are used up or the ports
/// run out.
pub open spec fn candidate_port(requested: u16, failures: u16) -> Option<u16> {
    if failures < MAX_PORT_ATTEMPTS && requested + failures <= u16::MAX {
        Some((requested + failures) as u16)
    } else {
        None
    }
}

/// The port to try after a number of failed attempts.
pub fn next_port_candidate(requested: u16, failures: u16) -> (port: Option<u16>)
    ensures
        port == candidate_port(requested, failures),
{
    if failures < MAX_PORT_ATTEMPTS && failures <= u16::MAX - requested {
        Some(requested + failures)
    } else {
        None
    }
}

fn given_text(text: &Option<String>) -> (kept: Option<String>)
    ensures
        optional_text(kept) == given(optional_text(*text)),
{
    match text {
        Some(t) => {
            if t.as_str().is_empty() {
                None
            } else {
                Some(t.clone())
            }
        },
        None => None,
    }
}

impl LogQueryParams {
    /// The filter that the query asks for.
    pub fn to_filter(&self) -> (filter: LogFilter)
        ensures
            filter@ == query_filter(self@),
    {
        let level = match given_text(&self.level) {
            Some(name) => Some(LogLevel::from_str(name.as_str())),
            None => None,
        };
        LogFilter {
            level,
            search_text: given_text(&self.search),
            logger: given_text(&self.logger),
            module: given_text(&self.module),
            start_time: None,
            end_time: None,
        }
    }
}

impl AppState {
    /// A state without records or subscribers, with the default capacities
    /// and the layout that was persisted, if any.
    pub fn new(table_config: Option<TableConfig>) -> (state: AppState)
        ensures
            state@ == (AppStateView {
                logs: Seq::empty(),
                capacity: DEFAULT_CAPACITY as nat,
                subscribers: Map::empty(),
                queue_limit: DEFAULT_QUEUE_CAPACITY as nat,
                schema: SchemaView { fields: Seq::empty(), initialized: false },
                table_config: optional_table(table_config),
            }),
            state.broadcaster.issued() == 0,
    {
        AppState::with_capacity(DEFAULT_CAPACITY, DEFAULT_QUEUE_CAPACITY, table_config)
    }

    /// A state without records or subscribers that stores at most
    /// `capacity` records and queues at most `queue_capacity` records for
    /// each subscriber.
    pub fn with_capacity(
        capacity: usize,
        queue_capacity: usize,
        table_config: Option<TableConfig>,
    ) -> (state: AppState)
        ensures
            state@ == (AppStateView {
                logs: Seq::empty(),
                capacity: capacity as nat,
                subscribers: Map::empty(),
                queue_limit: queue_capacity as nat,
                schema: SchemaView { fields: Seq::empty(), initialized: false },
                table_config: optional_table(table_config),
            }),
            state.broadcaster.issued() == 0,
    {
        AppState {
            logs: Store::new(capacity),
            broadcaster: Broadcaster::new(queue_capacity),
            schema: Schema::new(),
            table_config,
        }
    }

    /// Adds a record: stores it, lets the first record fix the schema and
    /// the default layout, and publishes it to every subscriber.
    pub fn add_log(&mut self, entry: LogEntry)
        ensures
            final(self)@ == old(self)@.after_append(entry@),
            final(self)@.logs.len() <= final(self)@.capacity,
            final(self).broadcaster.issued() == old(self).broadcaster.issued(),
    {
        self.schema.initialize_from_first_entry(&entry.raw_fields);
        if self.table_config.is_none() && self.schema.initialized {
            let columns = self.schema.get_default_columns();
            self.table_config = Some(TableConfig { theme: None, columns });
        }
        self.broadcaster.publish(&entry);
        self.logs.append(entry);
    }

    /// The stored records that match a filter, in the order of their
    /// arrival; every stored record where no filter is given.
    pub fn get_logs(&self, filter: Option<LogFilter>) -> (logs: Vec<LogEntry>)
        ensures
            records_view(logs@) == match filter {
                Some(f) => matched(self@.logs, f@),
                None => self@.logs,
            },
            logs@.len() <= self@.logs.len(),
    {
        match &filter {
            Some(f) => self.logs.snapshot(Some(f)),
            None => self.logs.snapshot(None),
        }
    }

    /// Empties the store. The schema, the layout and the subscribers stay as
    /// they are.
    pub fn clear_logs(&mut self)
        ensures
            final(self)@ == (AppStateView { logs: Seq::empty(), ..old(self)@ }),
            final(self).broadcaster.issued() == old(self).broadcaster.issued(),
    {
        self.logs.clear();
    }

    /// Answers a query.
    pub fn query(&self, params: &LogQueryParams) -> (response: LogResponse)
        ensures
            response@ == query_answer(self@.logs, params@),
    {
        let filter = params.to_filter();
        let total_count = self.logs.len();
        let mut logs = self.logs.snapshot(Some(&filter));
        let filtered_count = logs.len();
        if let Some(limit) = params.limit {
            if logs.len() > limit {
                let excess: usize = logs.len() - limit;
                let kept = logs.split_off(excess);
                logs = kept;
            }
        }
        let response = LogResponse { logs, total_count, filtered_count };
        assert(response@.logs =~= query_answer(self@.logs, params@).logs);
        response
    }

    /// The counters of the server. The time it has been up is not tracked
    /// and reads zero.
    pub fn stats(&self) -> (stats: StatsResponse)
        ensures
            stats.total_logs == self@.logs.len(),
            stats.active_connections == self@.subscribers.dom().len(),
            stats.uptime_seconds == 0,
    {
        StatsResponse {
            total_logs: self.logs.len(),
            active_connections: self.broadcaster.subscriber_count() as u64,
            uptime_seconds: 0,
        }
    }

    /// Replaces the whole column layout. `saved` is the outcome of writing
    /// the new layout to where it is kept between runs. The layout in memory
    /// is replaced whatever that outcome is; a failed write is reported to
    /// the caller with its message, a successful one is answered with a copy
    /// of the new layout.
    pub fn apply_columns(&mut self, config: TableConfig, saved: Result<(), String>) -> (reply:
        Result<TableConfig, String>)
        ensures
            final(self)@ == (AppStateView { table_config: Some(config@), ..old(self)@ }),
            final(self).broadcaster.issued() == old(self).broadcaster.issued(),
            saved is Ok ==> reply is Ok && reply->Ok_0@ == config@,
            saved is Err ==> reply is Err && reply->Err_0@ == saved->Err_0@,
    {
        let copy = config.clone();
        self.table_config = Some(config);
        match saved {
            Ok(_) => Ok(copy),
            Err(message) => Err(message),
        }
    }

    /// Registers a subscriber of the live feed. It is first to receive every
    /// stored record, in the order of arrival, and then every record added
    /// from now on.
    pub fn subscribe(&mut self) -> (id: Option<u64>)
        ensures
            id is Some <==> old(self).broadcaster.issued() < u64::MAX,
            id matches Some(fresh) ==> {
                &&& !old(self)@.subscribers.contains_key(fresh)
                &&& final(self)@ == (AppStateView {
                    subscribers: old(self)@.subscribers.insert(
                        fresh,
                        SubscriberView {
                            backlog: old(self)@.logs,
                            queue: Seq::empty(),
                            dropped: 0,
                        },
                    ),
                    ..old(self)@
                })
            },
            id is None ==> final(self)@ == old(self)@,
    {
        self.broadcaster.subscribe(self.logs.records())
    }

    /// Takes the next record that a subscriber has yet to receive.
    pub fn next_message(&mut self, id: u64) -> (next: Option<LogEntry>)
        ensures
            next is Some <==> old(self)@.subscribers.contains_key(id) && old(
                self,
            )@.subscribers[id].pending().len() > 0,
            next matches Some(record) ==> {
                &&& record@ == old(self)@.subscribers[id].pending()[0]
                &&& final(self)@ == (AppStateView {
                    subscribers: old(self)@.subscribers.insert(
                        id,
                        old(self)@.subscribers[id].advanced(),
                    ),
                    ..old(self)@
                })
            },
            next is None ==> final(self)@ == old(self)@,
            final(self).broadcaster.issued() == old(self).broadcaster.issued(),
    {
        self.broadcaster.next(id)
    }

    /// Removes a subscriber. Nothing else changes.
    pub fn unsubscribe(&mut self, id: u64) -> (removed: bool)
        ensures
            removed == old(self)@.subscribers.contains_key(id),
            final(self)@ == (AppStateView {
                subscribers: old(self)@.subscribers.remove(id),
                ..old(self)@
            }),
            final(self).broadcaster.issued() == old(self).broadcaster.issued(),
    {
        self.broadcaster.unsubscribe(id)
    }

    /// Takes one line of input: counts it, normalizes it and, where it gives
    /// a record, adds the record. `now` is the time of ingestion. A line that
    /// is rejected leaves the state as it was.
    pub fn ingest_line(
        &mut self,
        parser: &mut JsonLogParser,
        line: &str,
        now: Timestamp,
    ) -> (outcome: Result<(), ParseError>)
        requires
            old(parser).lines_seen() < u64::MAX,
        ensures
            final(parser).lines_seen() == old(parser).lines_seen() + 1,
            outcome is Ok <==> classified(line@) is Ok,
            (outcome matches Err(ParseError::EmptyLine)) <==> blank(line@),
            outcome matches Err(error) ==> {
                &&& classified(line@) == Err::<Seq<(Seq<char>, JsonView)>, ParseErrorView>(error@)
                &&& *final(self) == *old(self)
            },
            outcome is Ok ==> final(self)@ == old(self)@.after_append(
                normalized(classified(line@)->Ok_0, final(parser).lines_seen(), now),
            ),
    {
        match parser.parse_next(line, now) {
            Ok(entry) => {
                self.add_log(entry);
                Ok(())
            },
            Err(error) => Err(error),
        }
    }
}

} // verus!
