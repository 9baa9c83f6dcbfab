//! PostgreSQL configuration and its validation.

use crate::calendar;
use crate::calendar::format_micros;
use crate::fingerprint;
use crate::polling;
use crate::polling::{
    CatchUpConfig, CheckpointConfig, CompiledQuery, OutputConfig, PollingConfig,
    TieBreakerWatermark, TimestampWatermark, WatermarkConfig,
};
use crate::postgresql::identity;
use crate::postgresql::identity::{fingerprint, IdentityModel, StreamIdentity};
use crate::postgresql::parser;
use crate::postgresql::parser::validate_sql;
use crate::postgresql::timestamp;
use crate::postgresql::timestamp::{parse_timestamp, ConfigError};
use crate::text;
use crate::text::{alphabetic, alphanumeric, blank, byte_len, chars_of};
use crate::time;
use crate::time::{whole_seconds, Duration};
use vstd::prelude::*;

verus! {

/// How the server is reached.
pub struct ConnectionConfig {
    /// The server's host.
    pub host: String,
    /// The server's port.
    pub port: u16,
    /// The database.
    pub database: String,
    /// How the server is trusted.
    pub tls: TlsConfig,
}

/// How the server is trusted.
pub struct TlsConfig {
    /// Explicit CA bundle; an empty trust store or disabled verification is never accepted.
    pub ca_file: String,
}

/// Where the credentials are read from.
pub struct AuthenticationConfig {
    /// Holds the user's name.
    pub username_file: String,
    /// Holds the password.
    pub password_file: String,
}

/// The statement and its bounds.
pub struct QueryConfig {
    /// The statement.
    pub statement: String,
    /// Delay between polls.
    pub interval: Duration,
    /// Deadline of one poll.
    pub timeout: Duration,
    /// Rows fetched at a time.
    pub fetch_size_rows: usize,
    /// Rows of one page.
    pub max_rows_per_poll: usize,
    /// Bytes of one page, in memory and encoded.
    pub max_batch_bytes: u64,
    /// How far one poll may go on.
    pub catch_up: CatchUpConfig,
}

/// A configuration as it is written.
pub struct RawConfig {
    /// The source's identity.
    pub source_id: String,
    /// How the server is reached.
    pub connection: ConnectionConfig,
    /// Where the credentials are read from.
    pub authentication: AuthenticationConfig,
    /// The statement and its bounds.
    pub query: QueryConfig,
    /// How progress is tracked.
    pub watermark: WatermarkConfig,
    /// How progress is kept.
    pub checkpoint: CheckpointConfig,
}

/// Validated configuration for one PostgreSQL query and checkpoint stream.
pub struct PostgreSqlConfig {
    /// The source's identity.
    pub source_id: String,
    /// How the server is reached.
    pub connection: ConnectionConfig,
    /// Where the credentials are read from.
    pub authentication: AuthenticationConfig,
    /// The validated query.
    pub query: CompiledQuery,
    /// How progress is kept.
    pub checkpoint: CheckpointConfig,
    /// What progress is kept under.
    pub fingerprint: String,
}

/// PostgreSQL's port, where none is configured.
pub fn default_port() -> (port: u16)
    ensures
        port == 5432,
{
    5432
}

/// One minute between polls, where nothing else is configured.
pub fn default_interval() -> (r: Duration)
    ensures
        r@ == 60 * 1_000_000_000,
{
    Duration::from_secs(60)
}

/// Half a minute for one poll, where nothing else is configured.
pub fn default_timeout() -> (r: Duration)
    ensures
        r@ == 30 * 1_000_000_000,
{
    Duration::from_secs(30)
}

/// Rows fetched at a time, where nothing else is configured.
pub fn default_fetch() -> (n: usize)
    ensures
        n == 300,
{
    300
}

/// Rows of one page, where nothing else is configured.
pub fn default_rows() -> (n: usize)
    ensures
        n == 10_000,
{
    10_000
}

/// Ten mebibytes of one page, where nothing else is configured.
pub fn default_bytes() -> (n: u64)
    ensures
        n == 10 * 1024 * 1024,
{
    10 * 1024 * 1024
}

/// Whether a text is a simple identifier: ASCII letters, digits and underscores, the first
/// no digit.
pub open spec fn is_identifier(value: Seq<char>) -> bool {
    &&& value.len() > 0
    &&& text::is_alphabetic(value[0]) || value[0] == '_'
    &&& forall|i: int|
        1 <= i < value.len() ==> text::is_alphanumeric(#[trigger] value[i]) || value[i] == '_'
}

/// Whether a text is a simple identifier.
pub fn identifier(value: &str) -> (found: bool)
    ensures
        found == is_identifier(value@),
{
    let chars = chars_of(value);
    if chars.len() == 0 {
        return false;
    }
    if !alphabetic(chars[0]) && chars[0] != '_' {
        return false;
    }
    let mut i: usize = 1;
    while i < chars.len()
        invariant
            1 <= i <= chars@.len(),
            chars@ == value@,
            forall|j: int|
                1 <= j < i ==> text::is_alphanumeric(#[trigger] value@[j]) || value@[j] == '_',
        decreases chars.len() - i,
    {
        if !alphanumeric(chars[i]) && chars[i] != '_' {
            assert(!text::is_alphanumeric(value@[i as int]));
            return false;
        }
        i += 1;
    }
    true
}

/// Whether a character cannot be part of a host's name.
pub open spec fn breaks_host(c: char) -> bool {
    c == '/' || c == '\\' || c == '\0' || c == ' ' || c == '?' || c == '='
}

/// Whether a text can be a host: it says something, and cannot be read as a path, a
/// parameter or several words.
pub open spec fn is_host(host: Seq<char>) -> bool {
    !text::is_blank(host) && forall|i: int|
        0 <= i < host.len() ==> !breaks_host(#[trigger] host[i])
}

fn usable_host(host: &str) -> (found: bool)
    ensures
        found == is_host(host@),
{
    if blank(host) {
        return false;
    }
    let chars = chars_of(host);
    let mut i: usize = 0;
    while i < chars.len()
        invariant
            i <= chars@.len(),
            chars@ == host@,
            forall|j: int| 0 <= j < i ==> !breaks_host(#[trigger] host@[j]),
        decreases chars.len() - i,
    {
        let c: char = chars[i];
        if c == '/' || c == '\\' || c == '\0' || c == ' ' || c == '?' || c == '=' {
            assert(breaks_host(host@[i as int]));
            return false;
        }
        i += 1;
    }
    true
}

/// Why a configuration cannot be used whatever its statement is, if it cannot.
pub open spec fn settings_failure(raw: RawConfig) -> Option<Seq<char>> {
    let timestamp = polling::timestamp_part(raw.watermark);
    let tie_breaker = polling::tie_breaker_part(raw.watermark);
    if text::is_blank(raw.source_id@) || text::bytes_in(raw.source_id@) > 256 {
        Some("source_id must contain 1..=256 bytes"@)
    } else if !is_host(raw.connection.host@) || text::is_blank(raw.connection.database@)
        || raw.connection.port == 0 {
        Some("connection requires a hostname, nonzero port and database"@)
    } else if raw.connection.tls.ca_file@.len() == 0 || raw.authentication.username_file@.len()
        == 0 || raw.authentication.password_file@.len() == 0 {
        Some("CA and credential file paths must not be empty"@)
    } else if !time::in_whole_seconds(raw.query.interval@, 60, 86400) {
        Some("query.interval must be 1m..=24h in whole seconds"@)
    } else if !time::in_whole_seconds(raw.query.timeout@, 1, 300) {
        Some("query.timeout must be 1s..=5m in whole seconds"@)
    } else if !polling::is_named(raw.watermark) {
        Some("invalid composite watermark"@)
    } else if !is_identifier(timestamp.column@) || !is_identifier(tie_breaker.column@) {
        Some("cursor columns must be simple ASCII identifiers"@)
    } else {
        None
    }
}

/// The bounds that a configuration sets.
pub open spec fn bounds_of(query: QueryConfig) -> PollingConfig {
    PollingConfig {
        interval: query.interval,
        timeout: query.timeout,
        fetch_size_rows: query.fetch_size_rows,
        max_rows_per_poll: query.max_rows_per_poll,
        max_batch_bytes: query.max_batch_bytes,
        catch_up: query.catch_up,
    }
}

/// Why a configuration cannot be used, if it cannot: the first rule it breaks.
pub open spec fn config_failure(raw: RawConfig) -> Option<Seq<char>> {
    let timestamp = polling::timestamp_part(raw.watermark);
    let tie_breaker = polling::tie_breaker_part(raw.watermark);
    if settings_failure(raw) is Some {
        settings_failure(raw)
    } else if timestamp::cursor_moment(timestamp.initial@) is None {
        timestamp::timestamp_failure(calendar::rfc3339_moment(timestamp.initial@))
    } else if parser::sql_failure(
        raw.query.statement@,
        timestamp.column@,
        tie_breaker.column@,
    ) is Some {
        parser::sql_failure(raw.query.statement@, timestamp.column@, tie_breaker.column@)
    } else if !polling::is_bounded(bounds_of(raw.query)) {
        Some("invalid polling, output or checkpoint configuration"@)
    } else {
        None
    }
}

/// The text of the timestamp at which polling starts, in UTC.
pub open spec fn initial_text(watermark: WatermarkConfig) -> Seq<char> {
    calendar::micros_text(
        timestamp::cursor_moment(polling::timestamp_part(watermark).initial@)->0,
    )->0
}

/// The identity of the stream that a configuration reads.
pub open spec fn identity_of(raw: RawConfig) -> IdentityModel {
    IdentityModel {
        source: raw.source_id@,
        host: text::lower(raw.connection.host@),
        port: raw.connection.port,
        database: raw.connection.database@,
        sql: parser::canonical(raw.query.statement@),
        timestamp_column: polling::timestamp_part(raw.watermark).column@,
        id_column: polling::tie_breaker_part(raw.watermark).column@,
        initial_timestamp: initial_text(raw.watermark),
        initial_tie_breaker: polling::tie_breaker_part(raw.watermark).initial,
    }
}

/// Whether a validated configuration is the one that a written configuration gives.
pub open spec fn is_compiled(config: PostgreSqlConfig, raw: RawConfig) -> bool {
    let initial = initial_text(raw.watermark);
    let sql = parser::canonical(raw.query.statement@);
    &&& config.source_id == raw.source_id
    &&& config.connection == raw.connection
    &&& config.authentication == raw.authentication
    &&& config.checkpoint == raw.checkpoint
    &&& is_planned(config.query, identity_of(raw), raw, initial, sql)
    &&& config.fingerprint@ == identity::fingerprint_of(identity_of(raw))
    &&& identity::reads_back(identity_of(raw))
}

/// Checks what a configuration sets beside its statement and its starting moment.
pub fn check_settings(raw: &RawConfig) -> (r: Result<(), ConfigError>)
    ensures
        match r {
            Ok(()) => settings_failure(*raw) is None,
            Err(error) => settings_failure(*raw) == Some(error.message@),
        },
{
    let connection = &raw.connection;
    if blank(raw.source_id.as_str()) || byte_len(raw.source_id.as_str()) > 256 {
        return Err(ConfigError { message: "source_id must contain 1..=256 bytes" });
    }
    if !usable_host(connection.host.as_str()) || blank(connection.database.as_str())
        || connection.port == 0 {
        return Err(
            ConfigError { message: "connection requires a hostname, nonzero port and database" },
        );
    }
    if chars_of(connection.tls.ca_file.as_str()).len() == 0 || chars_of(
        raw.authentication.username_file.as_str(),
    ).len() == 0 || chars_of(raw.authentication.password_file.as_str()).len() == 0 {
        return Err(ConfigError { message: "CA and credential file paths must not be empty" });
    }
    if !whole_seconds(&raw.query.interval, 60, 86400) {
        return Err(ConfigError { message: "query.interval must be 1m..=24h in whole seconds" });
    }
    if !whole_seconds(&raw.query.timeout, 1, 300) {
        return Err(ConfigError { message: "query.timeout must be 1s..=5m in whole seconds" });
    }
    if !raw.watermark.valid() {
        return Err(ConfigError { message: "invalid composite watermark" });
    }
    if !identifier(raw.watermark.timestamp().column.as_str()) || !identifier(
        raw.watermark.tie_breaker().column.as_str(),
    ) {
        return Err(ConfigError { message: "cursor columns must be simple ASCII identifiers" });
    }
    Ok(())
}

/// Whether a query and an identity are those of a configuration whose starting moment has
/// this text and whose statement has this canonical text.
pub open spec fn is_planned(
    query: CompiledQuery,
    stream: IdentityModel,
    raw: RawConfig,
    initial: Seq<char>,
    sql: Seq<char>,
) -> bool {
    let timestamp = polling::timestamp_part(raw.watermark);
    let tie_breaker = polling::tie_breaker_part(raw.watermark);
    let tracking = query.tracking();
    let columns = query.columns();
    &&& query.statement() == sql
    &&& query.bounds() == bounds_of(raw.query)
    &&& tracking.timestamp_column == timestamp.column
    &&& tracking.timestamp_bind == timestamp.bind
    &&& tracking.tie_breaker_column == tie_breaker.column
    &&& tracking.tie_breaker_bind == tie_breaker.bind
    &&& tracking.initial.timestamp@ == initial
    &&& tracking.initial.tie_breaker == tie_breaker.initial
    &&& columns.timestamp_column == Some(timestamp.column)
    &&& columns.validation_columns@ == seq![tie_breaker.column]
    &&& stream == (IdentityModel {
        source: raw.source_id@,
        host: text::lower(raw.connection.host@),
        port: raw.connection.port,
        database: raw.connection.database@,
        sql,
        timestamp_column: timestamp.column@,
        id_column: tie_breaker.column@,
        initial_timestamp: initial,
        initial_tie_breaker: tie_breaker.initial,
    })
}

/// Plans the query of a configuration and says which stream it reads, given the text of its
/// starting moment and the canonical text of its statement.
pub fn plan(raw: &RawConfig, initial: String, sql: String) -> (r: Result<
    (CompiledQuery, StreamIdentity),
    ConfigError,
>)
    ensures
        match r {
            Ok((query, stream)) => polling::is_bounded(bounds_of(raw.query)) && is_planned(
                query,
                stream@,
                *raw,
                initial@,
                sql@,
            ),
            Err(error) => !polling::is_bounded(bounds_of(raw.query)) && error.message@
                == "invalid polling, output or checkpoint configuration"@,
        },
{
    let timestamp = raw.watermark.timestamp();
    let tie_breaker = raw.watermark.tie_breaker();
    let watermark = WatermarkConfig::Composite {
        timestamp: TimestampWatermark {
            column: timestamp.column.clone(),
            bind: timestamp.bind.clone(),
            initial: initial.clone(),
            timezone: timestamp.timezone.clone(),
        },
        tie_breaker: TieBreakerWatermark {
            column: tie_breaker.column.clone(),
            bind: tie_breaker.bind.clone(),
            initial: tie_breaker.initial,
        },
    };
    let stream = StreamIdentity {
        source: raw.source_id.clone(),
        host: raw.connection.host.clone(),
        port: raw.connection.port,
        database: raw.connection.database.clone(),
        sql: sql.clone(),
        timestamp_column: timestamp.column.clone(),
        id_column: tie_breaker.column.clone(),
        initial_timestamp: initial,
        initial_tie_breaker: tie_breaker.initial,
    };
    let mut validation_columns: Vec<String> = Vec::new();
    validation_columns.push(tie_breaker.column.clone());
    let output = OutputConfig {
        timestamp_column: Some(timestamp.column.clone()),
        validation_columns,
    };
    let polling = PollingConfig {
        interval: raw.query.interval,
        timeout: raw.query.timeout,
        fetch_size_rows: raw.query.fetch_size_rows,
        max_rows_per_poll: raw.query.max_rows_per_poll,
        max_batch_bytes: raw.query.max_batch_bytes,
        catch_up: raw.query.catch_up,
    };
    match CompiledQuery::compile(sql, polling, &watermark, output) {
        None => Err(
            ConfigError { message: "invalid polling, output or checkpoint configuration" },
        ),
        Some(query) => Ok((query, stream)),
    }
}

impl PostgreSqlConfig {
    /// Validates a configuration. What is wrong is said without what was configured.
    pub fn compile(raw: RawConfig) -> (r: Result<Self, ConfigError>)
        ensures
            match r {
                Ok(config) => config_failure(raw) is None && is_compiled(config, raw),
                Err(error) => config_failure(raw) == Some(error.message@),
            },
    {
        match check_settings(&raw) {
            Err(error) => {
                return Err(error);
            },
            Ok(()) => {},
        }
        let initial: String = match parse_timestamp(raw.watermark.timestamp().initial.as_str()) {
            Err(error) => {
                return Err(error);
            },
            Ok(moment) => match format_micros(moment) {
                Some(text) => text,
                None => String::new(),
            },
        };
        let sql: String = match validate_sql(raw.query.statement.as_str(), &raw.watermark) {
            Err(error) => {
                return Err(error);
            },
            Ok(sql) => sql,
        };
        match plan(&raw, initial, sql) {
            Err(error) => Err(error),
            Ok((query, stream)) => {
                let fingerprint = fingerprint(&stream);
                Ok(
                    PostgreSqlConfig {
                        source_id: raw.source_id,
                        connection: raw.connection,
                        authentication: raw.authentication,
                        query,
                        checkpoint: raw.checkpoint,
                        fingerprint,
                    },
                )
            },
        }
    }
}

/// Whether two configurations read the same stream: the same source, server, database,
/// statement, cursor columns and starting position, however they are spelt.
pub open spec fn same_stream(a: RawConfig, b: RawConfig) -> bool {
    let s = polling::timestamp_part(a.watermark);
    let t = polling::timestamp_part(b.watermark);
    let i = polling::tie_breaker_part(a.watermark);
    let j = polling::tie_breaker_part(b.watermark);
    &&& a.source_id@ == b.source_id@
    &&& text::same_ignoring_case(a.connection.host@, b.connection.host@)
    &&& a.connection.port == b.connection.port
    &&& a.connection.database@ == b.connection.database@
    &&& parser::canonical(a.query.statement@) == parser::canonical(b.query.statement@)
    &&& s.column@ == t.column@
    &&& i.column@ == j.column@
    &&& timestamp::cursor_moment(s.initial@) == timestamp::cursor_moment(t.initial@)
    &&& i.initial == j.initial
}

/// Two configurations of the same stream have the same fingerprint, whatever their
/// credentials, trust files and bounds are.
pub proof fn law_same_stream_has_the_same_fingerprint(
    a: RawConfig,
    b: RawConfig,
    x: PostgreSqlConfig,
    y: PostgreSqlConfig,
)
    ensures
        same_stream(a, b) && is_compiled(x, a) && is_compiled(y, b) ==> x.fingerprint@
            == y.fingerprint@,
{
}

/// Two configurations of different streams have different fingerprints, unless the digest
/// gives the same value for two different texts.
pub proof fn law_other_streams_have_other_fingerprints(
    a: RawConfig,
    b: RawConfig,
    x: PostgreSqlConfig,
    y: PostgreSqlConfig,
)
    requires
        is_compiled(x, a),
        is_compiled(y, b),
        identity_of(a) != identity_of(b),
    ensures
        identity::digested(identity_of(a)) != identity::digested(identity_of(b)),
        x.fingerprint@ == y.fingerprint@ ==> fingerprint::collides(
            identity::digested(identity_of(a)),
            identity::digested(identity_of(b)),
        ),
{
    identity::law_identity_text_tells_streams_apart(identity_of(a), identity_of(b));
}

/// In particular, another source or another database is another stream.
pub proof fn law_source_and_database_tell_streams_apart(a: RawConfig, b: RawConfig)
    requires
        a.source_id@ != b.source_id@ || a.connection.database@ != b.connection.database@,
    ensures
        identity_of(a) != identity_of(b),
{
}

/// Whether a character is an ASCII letter or an underscore.
pub open spec fn begins_names(c: char) -> bool {
    ('a' <= c <= 'z') || ('A' <= c <= 'Z') || c == '_'
}

/// A text is a simple identifier exactly when it is one or more ASCII letters, digits and
/// underscores, and its first is no digit.
pub proof fn law_identifiers_are_plain_words(value: Seq<char>)
    ensures
        is_identifier(value) <==> value.len() >= 1 && begins_names(value[0]) && forall|i: int|
            0 <= i < value.len() ==> begins_names(#[trigger] value[i]) || '0' <= value[i] <= '9',
{
    if is_identifier(value) {
        assert forall|i: int| 0 <= i < value.len() implies begins_names(#[trigger] value[i]) || '0'
            <= value[i] <= '9' by {
            if i > 0 {
                assert(text::is_alphanumeric(value[i]) || value[i] == '_');
            }
        }
    }
}

/// A text can be a host exactly when it is not blank and holds no slash, backslash, NUL, blank,
/// question mark or equals sign.
pub proof fn law_hosts_are_one_word(host: Seq<char>)
    ensures
        is_host(host) <==> !text::is_blank(host) && !host.contains('/') && !host.contains('\\')
            && !host.contains('\0') && !host.contains(' ') && !host.contains('?') && !host.contains(
            '=',
        ),
{
    if !text::is_blank(host) && !is_host(host) {
        let i = choose|i: int| 0 <= i < host.len() && breaks_host(#[trigger] host[i]);
        assert(host.contains(host[i]));
    }
}

/// The settings of a configuration are accepted exactly when the source is named within 256
/// bytes, the server has a host, a port and a database, every file is named, the query runs
/// every minute to every day and for a second to five minutes, in whole seconds, and the cursor
/// has two named columns that are simple identifiers and two named binds.
pub proof fn law_accepted_settings_are_complete(raw: RawConfig)
    ensures
        settings_failure(raw) is None <==> {
            let timestamp = polling::timestamp_part(raw.watermark);
            let tie_breaker = polling::tie_breaker_part(raw.watermark);
            &&& !text::is_blank(raw.source_id@)
            &&& vstd::utf8::encode_utf8(raw.source_id@).len() <= 256
            &&& is_host(raw.connection.host@)
            &&& !text::is_blank(raw.connection.database@)
            &&& raw.connection.port >= 1
            &&& raw.connection.tls.ca_file@.len() >= 1
            &&& raw.authentication.username_file@.len() >= 1
            &&& raw.authentication.password_file@.len() >= 1
            &&& 60_000_000_000 <= raw.query.interval@ <= 86_400_000_000_000
            &&& raw.query.interval@ % 1_000_000_000 == 0
            &&& 1_000_000_000 <= raw.query.timeout@ <= 300_000_000_000
            &&& raw.query.timeout@ % 1_000_000_000 == 0
            &&& is_identifier(timestamp.column@)
            &&& is_identifier(tie_breaker.column@)
            &&& !text::is_blank(timestamp.bind@)
            &&& !text::is_blank(tie_breaker.bind@)
        },
{
    let timestamp = polling::timestamp_part(raw.watermark);
    let tie_breaker = polling::tie_breaker_part(raw.watermark);
    lemma_identifiers_say_something(timestamp.column@);
    lemma_identifiers_say_something(tie_breaker.column@);
}

proof fn lemma_identifiers_say_something(value: Seq<char>)
    ensures
        is_identifier(value) ==> !text::is_blank(value),
{
    if is_identifier(value) && text::is_blank(value) {
        assert(text::is_space(value[0]));
    }
}

/// A configuration is accepted exactly when its settings are, its starting moment is a cursor
/// timestamp, its statement can be polled, and its fetches and catching up are bounded.
pub proof fn law_accepted_configurations_can_be_polled(raw: RawConfig)
    ensures
        config_failure(raw) is None <==> settings_failure(raw) is None && timestamp::cursor_moment(
            polling::timestamp_part(raw.watermark).initial@,
        ) is Some && parser::sql_failure(
            raw.query.statement@,
            polling::timestamp_part(raw.watermark).column@,
            polling::tie_breaker_part(raw.watermark).column@,
        ) is None && polling::is_bounded(bounds_of(raw.query)),
{
}

/// The bounds of a query are those that were written.
pub proof fn law_bounds_are_the_written_ones(query: QueryConfig)
    ensures
        bounds_of(query).interval@ == query.interval@,
        bounds_of(query).timeout@ == query.timeout@,
        bounds_of(query).fetch_size_rows == query.fetch_size_rows,
        bounds_of(query).max_rows_per_poll == query.max_rows_per_poll,
        bounds_of(query).max_batch_bytes == query.max_batch_bytes,
        bounds_of(query).catch_up == query.catch_up,
{
}

/// A planned query polls the configured statement by the configured columns and binds, from the
/// configured start, within the configured bounds.
pub proof fn law_plans_keep_the_configuration(
    query: CompiledQuery,
    stream: IdentityModel,
    raw: RawConfig,
    initial: Seq<char>,
    sql: Seq<char>,
)
    requires
        is_planned(query, stream, raw, initial, sql),
    ensures
        query.statement() == sql,
        query.bounds() == bounds_of(raw.query),
        query.tracking().timestamp_column == polling::timestamp_part(raw.watermark).column,
        query.tracking().timestamp_bind == polling::timestamp_part(raw.watermark).bind,
        query.tracking().tie_breaker_column == polling::tie_breaker_part(raw.watermark).column,
        query.tracking().tie_breaker_bind == polling::tie_breaker_part(raw.watermark).bind,
        query.tracking().initial.timestamp@ == initial,
        query.tracking().initial.tie_breaker == polling::tie_breaker_part(raw.watermark).initial,
        query.columns().timestamp_column == Some(polling::timestamp_part(raw.watermark).column),
        query.columns().validation_columns@.len() == 1,
        query.columns().validation_columns@[0] == polling::tie_breaker_part(raw.watermark).column,
        stream.source == raw.source_id@,
        stream.port == raw.connection.port,
        stream.database == raw.connection.database@,
        stream.sql == sql,
        stream.initial_timestamp == initial,
        text::spells_alike(stream.host, raw.connection.host@),
{
    let host = raw.connection.host@;
    text::law_lower_case_changes_capitals_alone(host);
    assert forall|i: int| 0 <= i < stream.host.len() implies text::is_case_of(
        #[trigger] stream.host[i],
        host[i],
    ) by {
        assert('A' <= host[i] <= 'Z' || !('A' <= host[i] <= 'Z'));
    }
}

/// A validated configuration keeps the source, the connection, the credentials and the
/// checkpoint as they were written.
pub proof fn law_compiled_configurations_keep_their_settings(
    config: PostgreSqlConfig,
    raw: RawConfig,
)
    requires
        is_compiled(config, raw),
    ensures
        config.source_id == raw.source_id,
        config.connection == raw.connection,
        config.authentication == raw.authentication,
        config.checkpoint == raw.checkpoint,
        config.query.statement() == parser::canonical(raw.query.statement@),
        config.query.bounds() == bounds_of(raw.query),
{
}

} // verus!
