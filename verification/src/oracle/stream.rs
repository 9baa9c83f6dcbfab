//! Configuration of an Oracle source that is polled by its cursor.

use crate::fingerprint;
use crate::fingerprint::{digest, position_document};
use crate::json;
use crate::json::{document_text, object_document, text_document, JsonTree, TreeMember};
use crate::names;
use crate::oracle::connect::OracleAdapterConfig;
use crate::oracle::lexer;
use crate::oracle::lexer::word_char;
use crate::oracle::statement;
use crate::oracle::statement::{validate_statement, words_of};
use crate::oracle::timestamp;
use crate::oracle::timestamp::{cursor_text, parse_cursor_timestamp};
use crate::polling;
use crate::polling::{
    CheckpointConfig, CompiledQuery, OutputConfig, PollingConfig, TieBreakerWatermark,
    TimestampWatermark, WatermarkConfig,
};
use crate::text;
use crate::text::{alphabetic, blank, byte_len, chars_of, owned, text_of, trimmed};
use crate::time;
use crate::time::whole_seconds;
use vstd::prelude::*;

verus! {

/// A configuration as it is written.
pub struct RawStreamConfig {
    /// The source's identity.
    pub source_id: String,
    /// How the server is reached and where the credentials are read from.
    pub connection: OracleAdapterConfig,
    /// The statement.
    pub statement: String,
    /// The bounds of one poll.
    pub polling: PollingConfig,
    /// How progress is tracked.
    pub watermark: WatermarkConfig,
    /// How progress is kept.
    pub checkpoint: CheckpointConfig,
}

/// Validated configuration for one Oracle query and checkpoint stream.
pub struct OracleStreamConfig {
    /// The source's identity.
    pub source_id: String,
    /// How the server is reached and where the credentials are read from.
    pub connection: OracleAdapterConfig,
    /// The validated query.
    pub query: CompiledQuery,
    /// How progress is kept.
    pub checkpoint: CheckpointConfig,
    /// What progress is kept under.
    pub fingerprint: String,
}

/// Whether a text is a plain Oracle name: one word that starts with a letter.
pub open spec fn is_plain_name(name: Seq<char>) -> bool {
    name.len() > 0 && text::is_alphabetic(name[0]) && forall|i: int|
        0 <= i < name.len() ==> lexer::is_word_char(#[trigger] name[i])
}

fn plain_name(name: &str) -> (found: bool)
    ensures
        found == is_plain_name(name@),
{
    let chars = chars_of(name);
    if chars.len() == 0 || !alphabetic(chars[0]) {
        return false;
    }
    let mut i: usize = 0;
    while i < chars.len()
        invariant
            i <= chars@.len(),
            chars@ == name@,
            forall|j: int| 0 <= j < i ==> lexer::is_word_char(#[trigger] name@[j]),
        decreases chars.len() - i,
    {
        if !word_char(chars[i]) {
            assert(!lexer::is_word_char(name@[i as int]));
            return false;
        }
        i += 1;
    }
    true
}

/// Why a configuration cannot be used whatever its statement is, if it cannot.
pub open spec fn settings_failure(raw: RawStreamConfig) -> Option<Seq<char>> {
    let timestamp = polling::timestamp_part(raw.watermark);
    let tie_breaker = polling::tie_breaker_part(raw.watermark);
    if text::is_blank(raw.source_id@) || text::bytes_in(raw.source_id@) > 256 {
        Some("source_id must contain 1..=256 bytes"@)
    } else if text::is_blank(raw.connection.connect_string@) || text::is_blank(
        raw.connection.instant_client_dir@,
    ) {
        Some("connection requires a connect string and a client directory"@)
    } else if raw.connection.username_file@.len() == 0 || raw.connection.password_file@.len()
        == 0 {
        Some("credential file paths must not be empty"@)
    } else if !time::in_whole_seconds(raw.polling.interval@, 60, 86400) {
        Some("query.interval must be 1m..=24h in whole seconds"@)
    } else if !time::in_whole_seconds(raw.polling.timeout@, 1, 300) {
        Some("query.timeout must be 1s..=5m in whole seconds"@)
    } else if !is_plain_name(timestamp.column@) || !is_plain_name(timestamp.bind@)
        || !is_plain_name(tie_breaker.column@) || !is_plain_name(tie_breaker.bind@) {
        Some("cursor columns and binds must be plain identifiers"@)
    } else if timestamp::cursor_timestamp(timestamp.initial@) is None {
        Some("watermark.timestamp.initial must be an Oracle timestamp"@)
    } else {
        None
    }
}

/// Why a configuration cannot be used, if it cannot: the first rule it breaks.
pub open spec fn config_failure(raw: RawStreamConfig) -> Option<Seq<char>> {
    let words = statement::cursor_words(raw.watermark);
    if settings_failure(raw) is Some {
        settings_failure(raw)
    } else if statement::statement_failure(raw.statement@, words) is Some {
        statement::statement_failure(raw.statement@, words)
    } else if !polling::is_bounded(raw.polling) {
        Some("invalid polling, output or checkpoint configuration"@)
    } else {
        None
    }
}

/// A statement without the semicolon and the white space that may end it.
pub open spec fn bare_statement(statement: Seq<char>) -> Seq<char> {
    let whole = text::trim(statement);
    if whole.len() > 0 && whole.last() == ';' {
        text::trim(whole.drop_last())
    } else {
        whole
    }
}

/// The text of the timestamp at which polling starts, as rows' timestamps are written.
pub open spec fn initial_text(watermark: WatermarkConfig) -> Seq<char> {
    timestamp::timestamp_text(
        timestamp::cursor_timestamp(polling::timestamp_part(watermark).initial@)->0,
    )
}

/// What makes a stream the same stream: where it is read from, what is read, and from where
/// on. Credentials, the client library and bounds are no part of it.
pub struct StreamModel {
    pub source: Seq<char>,
    pub connect_string: Seq<char>,
    pub sql: Seq<char>,
    pub timestamp_column: Seq<char>,
    pub id_column: Seq<char>,
    pub initial_timestamp: Seq<char>,
    pub initial_tie_breaker: i64,
}

/// The stream that a configuration reads.
pub open spec fn stream_of(raw: RawStreamConfig) -> StreamModel {
    StreamModel {
        source: raw.source_id@,
        connect_string: raw.connection.connect_string@,
        sql: bare_statement(raw.statement@),
        timestamp_column: polling::timestamp_part(raw.watermark).column@,
        id_column: polling::tie_breaker_part(raw.watermark).column@,
        initial_timestamp: initial_text(raw.watermark),
        initial_tie_breaker: polling::tie_breaker_part(raw.watermark).initial,
    }
}

/// A stream as a JSON object.
pub open spec fn stream_tree(stream: StreamModel) -> JsonTree {
    JsonTree::Members(
        seq![
            fingerprint::text_member("adapter"@, "oracle"@),
            fingerprint::text_member("connect_string"@, stream.connect_string),
            fingerprint::text_member("id_column"@, stream.id_column),
            TreeMember {
                name: "initial"@,
                value: fingerprint::position_tree(
                    stream.initial_timestamp,
                    stream.initial_tie_breaker,
                ),
            },
            fingerprint::text_member("mapping"@, "typed-body"@),
            fingerprint::text_member("source"@, stream.source),
            fingerprint::text_member("sql"@, stream.sql),
            fingerprint::text_member("timestamp_column"@, stream.timestamp_column),
        ],
    )
}

/// The text that a stream's fingerprint is the digest of.
pub open spec fn digested(stream: StreamModel) -> Seq<char> {
    json::rendered(stream_tree(stream))
}

/// The fingerprint of a stream.
pub open spec fn fingerprint_of(stream: StreamModel) -> Seq<char> {
    fingerprint::blake3_hex(digested(stream))
}

/// Whether the text that stands for a stream gives the stream back when it is read.
pub open spec fn reads_back(stream: StreamModel) -> bool {
    json::parsed_tree(digested(stream)) == Some(stream_tree(stream))
}

/// The stream that a query reads from a source.
pub open spec fn stream_read(
    source: Seq<char>,
    connect_string: Seq<char>,
    query: CompiledQuery,
) -> StreamModel {
    StreamModel {
        source,
        connect_string,
        sql: query.statement(),
        timestamp_column: query.tracking().timestamp_column@,
        id_column: query.tracking().tie_breaker_column@,
        initial_timestamp: query.tracking().initial.timestamp@,
        initial_tie_breaker: query.tracking().initial.tie_breaker,
    }
}

/// Whether a validated query is the one that a written configuration gives whose starting
/// timestamp has this text.
pub open spec fn is_planned(query: CompiledQuery, raw: RawStreamConfig, initial: Seq<char>) -> bool {
    let timestamp = polling::timestamp_part(raw.watermark);
    let tie_breaker = polling::tie_breaker_part(raw.watermark);
    let tracking = query.tracking();
    &&& query.statement() == bare_statement(raw.statement@)
    &&& query.bounds() == raw.polling
    &&& tracking.timestamp_column == timestamp.column
    &&& tracking.timestamp_bind == timestamp.bind
    &&& tracking.tie_breaker_column == tie_breaker.column
    &&& tracking.tie_breaker_bind == tie_breaker.bind
    &&& tracking.initial.timestamp@ == initial
    &&& tracking.initial.tie_breaker == tie_breaker.initial
    &&& query.columns().timestamp_column == Some(timestamp.column)
    &&& query.columns().validation_columns@ == seq![tie_breaker.column]
}

/// Whether a validated configuration is the one that a written configuration gives.
pub open spec fn is_compiled(config: OracleStreamConfig, raw: RawStreamConfig) -> bool {
    &&& config.source_id == raw.source_id
    &&& config.connection == raw.connection
    &&& config.checkpoint == raw.checkpoint
    &&& is_planned(config.query, raw, initial_text(raw.watermark))
    &&& config.fingerprint@ == fingerprint_of(stream_of(raw))
    &&& reads_back(stream_of(raw))
}

/// Checks what a configuration sets beside its statement.
pub fn check_settings(raw: &RawStreamConfig) -> (r: Result<(), &'static str>)
    ensures
        match r {
            Ok(()) => settings_failure(*raw) is None,
            Err(message) => settings_failure(*raw) == Some(message@),
        },
{
    let connection = &raw.connection;
    let timestamp = raw.watermark.timestamp();
    let tie_breaker = raw.watermark.tie_breaker();
    if blank(raw.source_id.as_str()) || byte_len(raw.source_id.as_str()) > 256 {
        return Err("source_id must contain 1..=256 bytes");
    }
    if blank(connection.connect_string.as_str()) || blank(connection.instant_client_dir.as_str()) {
        return Err("connection requires a connect string and a client directory");
    }
    if chars_of(connection.username_file.as_str()).len() == 0 || chars_of(
        connection.password_file.as_str(),
    ).len() == 0 {
        return Err("credential file paths must not be empty");
    }
    if !whole_seconds(&raw.polling.interval, 60, 86400) {
        return Err("query.interval must be 1m..=24h in whole seconds");
    }
    if !whole_seconds(&raw.polling.timeout, 1, 300) {
        return Err("query.timeout must be 1s..=5m in whole seconds");
    }
    if !plain_name(timestamp.column.as_str()) || !plain_name(timestamp.bind.as_str())
        || !plain_name(tie_breaker.column.as_str()) || !plain_name(tie_breaker.bind.as_str()) {
        return Err("cursor columns and binds must be plain identifiers");
    }
    if parse_cursor_timestamp(timestamp.initial.as_str()).is_err() {
        return Err("watermark.timestamp.initial must be an Oracle timestamp");
    }
    Ok(())
}

fn strip_statement(statement: &str) -> (r: String)
    ensures
        r@ == bare_statement(statement@),
{
    let whole = trimmed(statement);
    let chars = chars_of(whole.as_str());
    let count: usize = chars.len();
    if count > 0 && chars[count - 1] == ';' {
        let rest = text_of(&chars, 0, count - 1);
        assert(rest@ =~= whole@.drop_last());
        trimmed(rest.as_str())
    } else {
        whole
    }
}

proof fn lemma_stream_names()
    ensures
        names::before("adapter"@, "connect_string"@),
        names::before("connect_string"@, "id_column"@),
        names::before("id_column"@, "initial"@),
        names::before("initial"@, "mapping"@),
        names::before("mapping"@, "source"@),
        names::before("source"@, "sql"@),
        names::before("sql"@, "timestamp_column"@),
{
    reveal_strlit("adapter");
    reveal_strlit("connect_string");
    reveal_strlit("id_column");
    reveal_strlit("initial");
    reveal_strlit("mapping");
    reveal_strlit("source");
    reveal_strlit("sql");
    reveal_strlit("timestamp_column");
    fingerprint::lemma_before_at_first("adapter"@, "connect_string"@);
    fingerprint::lemma_before_at_first("connect_string"@, "id_column"@);
    fingerprint::lemma_before_at_second("id_column"@, "initial"@);
    fingerprint::lemma_before_at_first("initial"@, "mapping"@);
    fingerprint::lemma_before_at_first("mapping"@, "source"@);
    fingerprint::lemma_before_at_second("source"@, "sql"@);
    fingerprint::lemma_before_at_first("sql"@, "timestamp_column"@);
}

/// Computes the fingerprint of the stream that a plan reads.
pub fn stream_fingerprint(source_id: &str, connect_string: &str, query: &CompiledQuery) -> (r:
    String)
    ensures
        r@ == fingerprint_of(stream_read(source_id@, connect_string@, *query)),
        reads_back(stream_read(source_id@, connect_string@, *query)),
        r@.len() == 64,
{
    let watermark = query.watermark();
    let ghost stream = stream_read(source_id@, connect_string@, *query);
    let mut members: Vec<(String, serde_json::Value)> = Vec::new();
    members.push((owned("adapter"), text_document("oracle")));
    members.push((owned("connect_string"), text_document(connect_string)));
    members.push((owned("id_column"), text_document(watermark.tie_breaker_column.as_str())));
    members.push(
        (
            owned("initial"),
            position_document(
                watermark.initial.timestamp.as_str(),
                watermark.initial.tie_breaker,
            ),
        ),
    );
    members.push((owned("mapping"), text_document("typed-body")));
    members.push((owned("source"), text_document(source_id)));
    members.push((owned("sql"), text_document(query.sql())));
    members.push((owned("timestamp_column"), text_document(watermark.timestamp_column.as_str())));
    let ghost entries = members@.map_values(
        |member: (String, serde_json::Value)| (member.0@, json::document_tree(member.1)),
    );
    proof {
        lemma_stream_names();
        fingerprint::lemma_ascending(entries);
        assert(json::members_of(members@) =~= stream_tree(stream)->Members_0);
        assert(json::is_flat(
            fingerprint::position_tree(stream.initial_timestamp, stream.initial_tie_breaker),
        ));
        assert(json::is_record(stream_tree(stream)));
    }
    let document = object_document(members);
    digest(document_text(&document).as_str())
}

/// Plans the query of a configuration, given the text of its starting timestamp.
pub fn plan(raw: &RawStreamConfig, initial: String) -> (r: Option<CompiledQuery>)
    ensures
        r is Some <==> polling::is_bounded(raw.polling),
        r matches Some(query) ==> is_planned(query, *raw, initial@),
{
    let timestamp = raw.watermark.timestamp();
    let tie_breaker = raw.watermark.tie_breaker();
    let watermark = WatermarkConfig::Composite {
        timestamp: TimestampWatermark {
            column: timestamp.column.clone(),
            bind: timestamp.bind.clone(),
            initial,
            timezone: timestamp.timezone.clone(),
        },
        tie_breaker: TieBreakerWatermark {
            column: tie_breaker.column.clone(),
            bind: tie_breaker.bind.clone(),
            initial: tie_breaker.initial,
        },
    };
    let mut validation_columns: Vec<String> = Vec::new();
    validation_columns.push(tie_breaker.column.clone());
    let output = OutputConfig {
        timestamp_column: Some(timestamp.column.clone()),
        validation_columns,
    };
    let sql = strip_statement(raw.statement.as_str());
    CompiledQuery::compile(sql, raw.polling, &watermark, output)
}

impl OracleStreamConfig {
    /// Validates a configuration. What is wrong is said without what was configured.
    pub fn compile(raw: RawStreamConfig) -> (r: Result<Self, &'static str>)
        ensures
            match r {
                Ok(config) => config_failure(raw) is None && is_compiled(config, raw),
                Err(message) => config_failure(raw) == Some(message@),
            },
    {
        match check_settings(&raw) {
            Err(message) => {
                return Err(message);
            },
            Ok(()) => {},
        }
        let words = words_of(&raw.watermark);
        match validate_statement(raw.statement.as_str(), &words) {
            Err(message) => {
                return Err(message);
            },
            Ok(()) => {},
        }
        let initial: String = match parse_cursor_timestamp(
            raw.watermark.timestamp().initial.as_str(),
        ) {
            Err(_) => {
                return Err("watermark.timestamp.initial must be an Oracle timestamp");
            },
            Ok(ts) => cursor_text(&ts),
        };
        match plan(&raw, initial) {
            None => Err("invalid polling, output or checkpoint configuration"),
            Some(query) => {
                let fingerprint = stream_fingerprint(
                    raw.source_id.as_str(),
                    raw.connection.connect_string.as_str(),
                    &query,
                );
                Ok(
                    OracleStreamConfig {
                        source_id: raw.source_id,
                        connection: raw.connection,
                        query,
                        checkpoint: raw.checkpoint,
                        fingerprint,
                    },
                )
            },
        }
    }
}

/// Two configurations of the same stream have the same fingerprint, whatever their
/// credentials, client libraries and bounds are.
pub proof fn law_same_stream_has_the_same_fingerprint(
    a: RawStreamConfig,
    b: RawStreamConfig,
    x: OracleStreamConfig,
    y: OracleStreamConfig,
)
    ensures
        stream_of(a) == stream_of(b) && is_compiled(x, a) && is_compiled(y, b)
            ==> x.fingerprint@ == y.fingerprint@,
{
}

proof fn lemma_stream_tree_injective(a: StreamModel, b: StreamModel)
    requires
        stream_tree(a) == stream_tree(b),
    ensures
        a == b,
{
    let x = stream_tree(a)->Members_0;
    let y = stream_tree(b)->Members_0;
    assert(x == y);
    assert(x[1] == y[1]);
    assert(x[2] == y[2]);
    assert(x[3] == y[3]);
    assert(x[5] == y[5]);
    assert(x[6] == y[6]);
    assert(x[7] == y[7]);
    let p = x[3].value->Members_0;
    let q = y[3].value->Members_0;
    assert(p[0] == q[0]);
    assert(p[1] == q[1]);
}

/// Different streams are written as different texts, so two streams share a fingerprint only
/// where the digest itself collides.
pub proof fn law_texts_tell_streams_apart(a: StreamModel, b: StreamModel)
    requires
        reads_back(a),
        reads_back(b),
        a != b,
    ensures
        digested(a) != digested(b),
{
    if digested(a) == digested(b) {
        lemma_stream_tree_injective(a, b);
    }
}

/// Two configurations of different streams have different fingerprints, unless the digest
/// gives the same value for two different texts.
pub proof fn law_other_streams_have_other_fingerprints(
    a: RawStreamConfig,
    b: RawStreamConfig,
    x: OracleStreamConfig,
    y: OracleStreamConfig,
)
    requires
        is_compiled(x, a),
        is_compiled(y, b),
        stream_of(a) != stream_of(b),
    ensures
        digested(stream_of(a)) != digested(stream_of(b)),
        x.fingerprint@ == y.fingerprint@ ==> fingerprint::collides(
            digested(stream_of(a)),
            digested(stream_of(b)),
        ),
{
    law_texts_tell_streams_apart(stream_of(a), stream_of(b));
}

/// Whether a name is one word of ASCII letters, digits, `_`, `$` and `#` that begins with a
/// letter.
pub open spec fn is_one_word(name: Seq<char>) -> bool {
    &&& name.len() >= 1
    &&& 'A' <= name[0] <= 'Z' || 'a' <= name[0] <= 'z'
    &&& forall|i: int|
        0 <= i < name.len() ==> 'A' <= #[trigger] name[i] <= 'Z' || 'a' <= name[i] <= 'z' || '0'
            <= name[i] <= '9' || name[i] == '_' || name[i] == '$' || name[i] == '#'
}

/// Settings are accepted exactly when the source has a name of at most 256 bytes, the connection
/// a connect string, a client directory and two credential files, the interval is one minute to
/// a day and the timeout one second to five minutes, both in whole seconds, the cursor's columns
/// and binds are plain words, and its start is a timestamp.
pub proof fn law_accepted_settings_are_complete(raw: RawStreamConfig)
    ensures
        ({
            let timestamp = polling::timestamp_part(raw.watermark);
            let tie_breaker = polling::tie_breaker_part(raw.watermark);
            settings_failure(raw) is None <==> {
                &&& !text::is_blank(raw.source_id@)
                &&& text::bytes_in(raw.source_id@) <= 256
                &&& !text::is_blank(raw.connection.connect_string@)
                &&& !text::is_blank(raw.connection.instant_client_dir@)
                &&& raw.connection.username_file@.len() >= 1
                &&& raw.connection.password_file@.len() >= 1
                &&& 60_000_000_000 <= raw.polling.interval@ <= 86_400_000_000_000
                &&& raw.polling.interval@ % 1_000_000_000 == 0
                &&& 1_000_000_000 <= raw.polling.timeout@ <= 300_000_000_000
                &&& raw.polling.timeout@ % 1_000_000_000 == 0
                &&& is_one_word(timestamp.column@)
                &&& is_one_word(timestamp.bind@)
                &&& is_one_word(tie_breaker.column@)
                &&& is_one_word(tie_breaker.bind@)
                &&& timestamp::cursor_timestamp(timestamp.initial@) is Some
            }
        }),
{
    let timestamp = polling::timestamp_part(raw.watermark);
    let tie_breaker = polling::tie_breaker_part(raw.watermark);
    lemma_plain_names(timestamp.column@);
    lemma_plain_names(timestamp.bind@);
    lemma_plain_names(tie_breaker.column@);
    lemma_plain_names(tie_breaker.bind@);
}

proof fn lemma_plain_names(name: Seq<char>)
    ensures
        is_plain_name(name) <==> is_one_word(name),
{
    if is_plain_name(name) {
        assert forall|i: int| 0 <= i < name.len() implies 'A' <= #[trigger] name[i] <= 'Z' || 'a'
            <= name[i] <= 'z' || '0' <= name[i] <= '9' || name[i] == '_' || name[i] == '$'
            || name[i] == '#' by {
            assert(lexer::is_word_char(name[i]));
        }
    }
}

/// A configuration is accepted exactly when its settings, its statement and the bounds of its
/// polls are, and what is told is wrong with the first of these that is not.
pub proof fn law_configurations_are_judged_in_order(raw: RawStreamConfig)
    ensures
        ({
            let statement = statement::statement_failure(
                raw.statement@,
                statement::cursor_words(raw.watermark),
            );
            &&& config_failure(raw) is None <==> settings_failure(raw) is None && statement is None
                && polling::is_bounded(raw.polling)
            &&& settings_failure(raw) matches Some(fault) ==> config_failure(raw) == Some(fault)
            &&& settings_failure(raw) is None ==> (statement matches Some(fault) ==> config_failure(
                raw,
            ) == Some(fault))
        }),
{
}

/// What is polled is the statement without the white space around it and without the one
/// semicolon that may end it.
pub proof fn law_statements_are_polled_bare(
    before: Seq<char>,
    core: Seq<char>,
    between: Seq<char>,
    after: Seq<char>,
)
    requires
        text::is_blank(before),
        text::is_blank(between),
        text::is_blank(after),
        core.len() > 0,
        !text::is_space(core[0]),
        !text::is_space(core.last()),
        core.last() != ';',
    ensures
        bare_statement(before + core + after) == core,
        bare_statement(before + (core + between).push(';') + after) == core,
{
    text::lemma_trim_core(before, core, after);
    let ended = (core + between).push(';');
    assert(ended[0] == core[0]);
    text::lemma_trim_core(before, ended, after);
    assert(ended.drop_last() =~= Seq::<char>::empty() + core + between);
    text::lemma_trim_core(Seq::empty(), core, between);
}

/// A stream is told by the configuration's own source, connect string, statement and cursor.
pub proof fn law_streams_are_told_by_their_configuration(a: RawStreamConfig, b: RawStreamConfig)
    ensures
        stream_of(a) == stream_of(b) <==> {
            let s = polling::timestamp_part(a.watermark);
            let t = polling::timestamp_part(b.watermark);
            let i = polling::tie_breaker_part(a.watermark);
            let j = polling::tie_breaker_part(b.watermark);
            &&& a.source_id@ == b.source_id@
            &&& a.connection.connect_string@ == b.connection.connect_string@
            &&& bare_statement(a.statement@) == bare_statement(b.statement@)
            &&& s.column@ == t.column@
            &&& i.column@ == j.column@
            &&& initial_text(a.watermark) == initial_text(b.watermark)
            &&& i.initial == j.initial
        },
{
}

/// A planned query polls the configured statement by the configured columns and binds, from the
/// configured start, within the configured bounds.
pub proof fn law_plans_keep_the_configuration(
    query: CompiledQuery,
    raw: RawStreamConfig,
    initial: Seq<char>,
)
    requires
        is_planned(query, raw, initial),
    ensures
        query.statement() == bare_statement(raw.statement@),
        query.bounds() == raw.polling,
        query.tracking().timestamp_column == polling::timestamp_part(raw.watermark).column,
        query.tracking().timestamp_bind == polling::timestamp_part(raw.watermark).bind,
        query.tracking().tie_breaker_column == polling::tie_breaker_part(raw.watermark).column,
        query.tracking().tie_breaker_bind == polling::tie_breaker_part(raw.watermark).bind,
        query.tracking().initial.timestamp@ == initial,
        query.tracking().initial.tie_breaker == polling::tie_breaker_part(raw.watermark).initial,
        query.columns().timestamp_column == Some(polling::timestamp_part(raw.watermark).column),
        query.columns().validation_columns@.len() == 1,
        query.columns().validation_columns@[0] == polling::tie_breaker_part(raw.watermark).column,
{
}

/// A statement that is nothing but white space and perhaps one semicolon leaves nothing to be
/// polled.
pub proof fn law_empty_statements_leave_nothing(before: Seq<char>, after: Seq<char>)
    requires
        text::is_blank(before),
        text::is_blank(after),
    ensures
        bare_statement(before).len() == 0,
        bare_statement(before + seq![';'] + after).len() == 0,
{
    text::lemma_trim_blank(before);
    text::lemma_trim_core(before, seq![';'], after);
    assert(seq![';'].drop_last() =~= Seq::<char>::empty());
    text::lemma_trim_blank(Seq::empty());
}

/// A validated configuration keeps the source, the connection and the checkpoint as they were
/// written.
pub proof fn law_compiled_configurations_keep_their_settings(
    config: OracleStreamConfig,
    raw: RawStreamConfig,
)
    requires
        is_compiled(config, raw),
    ensures
        config.source_id == raw.source_id,
        config.connection == raw.connection,
        config.checkpoint == raw.checkpoint,
        config.query.statement() == bare_statement(raw.statement@),
        config.query.bounds() == raw.polling,
{
}

} // verus!
