//! Oracle connection, pool, TLS, and credential-reference configuration.

use crate::database::config;
use crate::database::config::DatabaseReceiverConfig;
use crate::text;
use crate::text::{append_decimal, append_text, begins, blank, contains_char, joined, lowered, owned};
use crate::time;
use crate::time::Duration;
use vstd::prelude::*;

verus! {

/// The environment variable that holds the password, where none is configured.
pub const DEFAULT_PASSWORD_ENV: &'static str = "ORACLE_PWD";

/// Sessions validated before polling, where nothing else is configured.
pub const DEFAULT_MIN_CONNECTIONS: usize = 1;

/// The most sessions, where nothing else is configured.
pub const DEFAULT_MAX_CONNECTIONS: usize = 1;

/// How many seconds a session lives, where nothing else is configured.
pub const DEFAULT_CONNECTION_LIFETIME_SECS: u64 = 3_600;

/// Oracle adapter configuration nested under `database`.
pub struct OracleConnectionConfig {
    /// Oracle Easy Connect string or connect descriptor.
    pub connect_string: String,
    /// Dedicated read-only database principal.
    pub username: String,
    /// Environment variable containing the password.
    pub password_env: String,
    /// Bounded worker pool policy.
    pub pool: OraclePoolConfig,
    /// Explicit Oracle Net TLS policy.
    pub tls: OracleTlsConfig,
}

/// Oracle dedicated-worker pool limits.
#[derive(Clone, Copy, Debug)]
pub struct OraclePoolConfig {
    /// Sessions validated before the receiver begins polling.
    pub min_connections: usize,
    /// Maximum dedicated Oracle connection workers.
    pub max_connections: usize,
    /// Maximum age before a connection is replaced to pick up rotated
    /// credentials/certificates.
    pub max_connection_lifetime: Duration,
}

/// Oracle Net TLS identity-verification policy.
#[derive(Debug)]
pub struct OracleTlsConfig {
    /// Explicit encryption and identity-verification mode.
    pub mode: OracleTlsMode,
    /// Oracle wallet containing trusted CA certificates.
    pub wallet_location: Option<String>,
}

/// Explicit Oracle TLS mode.
#[derive(Clone, Copy, Debug, PartialEq, Eq, Structural)]
pub enum OracleTlsMode {
    /// Plain Oracle Net connection.
    Disabled,
    /// TCPS with trusted wallet and server identity verification.
    VerifyFull,
    /// TCPS encryption without server identity verification.
    Insecure,
}

impl Default for OracleTlsMode {
    fn default() -> (r: Self)
        ensures
            r is Disabled,
    {
        OracleTlsMode::Disabled
    }
}

impl Default for OracleTlsConfig {
    fn default() -> (r: Self)
        ensures
            r.mode is Disabled,
            r.wallet_location is None,
    {
        OracleTlsConfig { mode: OracleTlsMode::Disabled, wallet_location: None }
    }
}

impl Default for OraclePoolConfig {
    fn default() -> (r: Self)
        ensures
            r.min_connections == DEFAULT_MIN_CONNECTIONS,
            r.max_connections == DEFAULT_MAX_CONNECTIONS,
            r.max_connection_lifetime@ == DEFAULT_CONNECTION_LIFETIME_SECS * 1_000_000_000,
    {
        OraclePoolConfig {
            min_connections: DEFAULT_MIN_CONNECTIONS,
            max_connections: DEFAULT_MAX_CONNECTIONS,
            max_connection_lifetime: default_connection_lifetime(),
        }
    }
}

/// The environment variable that holds the password, where none is configured.
pub fn default_password_env() -> (r: String)
    ensures
        r@ == DEFAULT_PASSWORD_ENV@,
{
    owned(DEFAULT_PASSWORD_ENV)
}

/// Sessions validated before polling, where nothing else is configured.
pub fn default_min_connections() -> (n: usize)
    ensures
        n == DEFAULT_MIN_CONNECTIONS,
{
    DEFAULT_MIN_CONNECTIONS
}

/// The most sessions, where nothing else is configured.
pub fn default_max_connections() -> (n: usize)
    ensures
        n == DEFAULT_MAX_CONNECTIONS,
{
    DEFAULT_MAX_CONNECTIONS
}

/// How long a session lives, where nothing else is configured.
pub fn default_connection_lifetime() -> (r: Duration)
    ensures
        r@ == DEFAULT_CONNECTION_LIFETIME_SECS * 1_000_000_000,
{
    Duration::from_secs(DEFAULT_CONNECTION_LIFETIME_SECS)
}

/// Why a setting is missing, if it is.
pub open spec fn required_verdict(name: Seq<char>, value: Seq<char>) -> Option<Seq<char>> {
    if text::is_blank(value) {
        Some(name + " must not be empty"@)
    } else {
        None
    }
}

/// Checks that a setting says something.
pub fn required(name: &str, value: &str) -> (r: Result<(), String>)
    ensures
        text::agrees(r, required_verdict(name@, value@)),
{
    if blank(value) {
        let mut message = owned(name);
        append_text(&mut message, " must not be empty");
        Err(message)
    } else {
        Ok(())
    }
}

/// Why a pool's limits do not hold together, if they do not.
pub open spec fn pool_verdict(pool: OraclePoolConfig) -> Option<Seq<char>> {
    if pool.max_connections == 0 {
        Some("database.pool.max_connections must be greater than zero"@)
    } else if pool.min_connections > pool.max_connections {
        Some("database.pool.min_connections must not exceed max_connections"@)
    } else if pool.max_connection_lifetime@ == 0 {
        Some("database.pool.max_connection_lifetime must be greater than zero"@)
    } else {
        None
    }
}

impl OraclePoolConfig {
    /// Checks the pool's limits.
    pub fn validate(&self) -> (r: Result<(), String>)
        ensures
            text::agrees(r, pool_verdict(*self)),
    {
        if self.max_connections == 0 {
            return Err(owned("database.pool.max_connections must be greater than zero"));
        }
        if self.min_connections > self.max_connections {
            return Err(owned("database.pool.min_connections must not exceed max_connections"));
        }
        if self.max_connection_lifetime.is_zero() {
            return Err(owned("database.pool.max_connection_lifetime must be greater than zero"));
        }
        Ok(())
    }
}

/// Whether a connect string asks for TLS.
pub open spec fn is_tcps(connect_string: Seq<char>) -> bool {
    text::begins_with(text::lower(connect_string), "tcps://"@)
}

/// Why a TLS policy does not suit a connect string, if it does not.
pub open spec fn tls_verdict(tls: OracleTlsConfig, connect_string: Seq<char>) -> Option<Seq<char>> {
    if tls.mode is Disabled {
        None
    } else if !is_tcps(connect_string) {
        Some(
            "database.tls requires a tcps:// Easy Connect string so TLS properties can be applied"@,
        )
    } else if tls.mode is Insecure {
        None
    } else {
        match tls.wallet_location {
            None => Some("database.tls.wallet_location is required for verify_full"@),
            Some(wallet) => required_verdict("database.tls.wallet_location"@, wallet@),
        }
    }
}

/// Whether a byte stands for itself in a URL.
pub open spec fn is_unreserved(byte: u8) -> bool {
    (48 <= byte <= 57) || (65 <= byte <= 90) || (97 <= byte <= 122) || byte == 45 || byte == 46
        || byte == 95 || byte == 126
}

/// A hexadecimal digit.
pub open spec fn hex_digit(digit: u8) -> char {
    if digit < 10 {
        (digit + 48) as char
    } else {
        (digit + 55) as char
    }
}

/// Bytes as they are written in a URL: the unreserved ones as they are, the others as a
/// percent sign and two digits.
pub open spec fn percent_encoded(bytes: Seq<u8>) -> Seq<char>
    decreases bytes.len(),
{
    if bytes.len() == 0 {
        Seq::empty()
    } else {
        let byte = bytes.last();
        percent_encoded(bytes.drop_last()) + if is_unreserved(byte) {
            seq![byte as char]
        } else {
            seq!['%', hex_digit(byte / 16), hex_digit(byte % 16)]
        }
    }
}

/// `urlencoding::encode`: percent-encodes every byte of the text's UTF-8 but letters, digits
/// and `-`, `_`, `.`, `~`.
#[verifier::external_body]
fn encode_url(value: &str) -> (r: String)
    ensures
        r@ == percent_encoded(vstd::utf8::encode_utf8(value@)),
{
    urlencoding::encode(value).into_owned()
}

/// A connect string with the properties of a TLS policy.
pub open spec fn with_tls(tls: OracleTlsConfig, connect_string: Seq<char>) -> Seq<char> {
    let separator = if connect_string.contains('?') {
        "&"@
    } else {
        "?"@
    };
    if !is_tcps(connect_string) {
        connect_string
    } else {
        match tls.mode {
            OracleTlsMode::Disabled => connect_string,
            OracleTlsMode::VerifyFull => connect_string + separator + "wallet_location="@
                + percent_encoded(vstd::utf8::encode_utf8(tls.wallet_location->0@))
                + "&ssl_server_dn_match=yes"@,
            OracleTlsMode::Insecure => connect_string + separator + "ssl_server_dn_match=no"@,
        }
    }
}

impl OracleTlsConfig {
    /// Checks the policy against a connect string.
    pub fn validate(&self, connect_string: &str) -> (r: Result<(), String>)
        ensures
            text::agrees(r, tls_verdict(*self, connect_string@)),
    {
        match self.mode {
            OracleTlsMode::Disabled => {
                return Ok(());
            },
            _ => {},
        }
        if !begins(lowered(connect_string).as_str(), "tcps://") {
            return Err(
                owned(
                    "database.tls requires a tcps:// Easy Connect string so TLS properties can be applied",
                ),
            );
        }
        match self.mode {
            OracleTlsMode::VerifyFull => match &self.wallet_location {
                None => Err(owned("database.tls.wallet_location is required for verify_full")),
                Some(wallet) => required("database.tls.wallet_location", wallet.as_str()),
            },
            _ => Ok(()),
        }
    }

    /// Adds the policy's properties to a connect string.
    pub fn apply(&self, connect_string: &str) -> (r: String)
        requires
            self.mode is VerifyFull ==> self.wallet_location is Some,
        ensures
            r@ == with_tls(*self, connect_string@),
    {
        if !begins(lowered(connect_string).as_str(), "tcps://") {
            return owned(connect_string);
        }
        let separator: &str = if contains_char(connect_string, '?') {
            "&"
        } else {
            "?"
        };
        match self.mode {
            OracleTlsMode::Disabled => owned(connect_string),
            OracleTlsMode::VerifyFull => {
                let mut out = joined(connect_string, separator, "wallet_location=");
                if let Some(wallet) = &self.wallet_location {
                    append_text(&mut out, encode_url(wallet.as_str()).as_str());
                }
                append_text(&mut out, "&ssl_server_dn_match=yes");
                out
            },
            OracleTlsMode::Insecure => joined(connect_string, separator, "ssl_server_dn_match=no"),
        }
    }
}

/// Why Oracle's connection settings cannot be used, if they cannot.
pub open spec fn connection_verdict(connection: OracleConnectionConfig) -> Option<Seq<char>> {
    let address = required_verdict("database.connect_string"@, connection.connect_string@);
    let user = required_verdict("database.username"@, connection.username@);
    let password = required_verdict("database.password_env"@, connection.password_env@);
    if address is Some {
        address
    } else if user is Some {
        user
    } else if password is Some {
        password
    } else if pool_verdict(connection.pool) is Some {
        pool_verdict(connection.pool)
    } else {
        tls_verdict(connection.tls, connection.connect_string@)
    }
}

impl OracleConnectionConfig {
    /// Validates Oracle-specific connection and security settings.
    pub fn validate(&self) -> (r: Result<(), String>)
        ensures
            text::agrees(r, connection_verdict(*self)),
    {
        if let Err(message) = required("database.connect_string", self.connect_string.as_str()) {
            return Err(message);
        }
        if let Err(message) = required("database.username", self.username.as_str()) {
            return Err(message);
        }
        if let Err(message) = required("database.password_env", self.password_env.as_str()) {
            return Err(message);
        }
        if let Err(message) = self.pool.validate() {
            return Err(message);
        }
        self.tls.validate(self.connect_string.as_str())
    }

    /// Produces an Oracle Easy Connect string with explicit TLS properties.
    pub fn resolved_connect_string(&self) -> (r: String)
        requires
            self.tls.mode is VerifyFull ==> self.tls.wallet_location is Some,
        ensures
            r@ == with_tls(self.tls, self.connect_string@),
    {
        self.tls.apply(self.connect_string.as_str())
    }

    /// The settings as diagnostics show them, with the connect string left out.
    pub fn describe(&self) -> (r: String)
        ensures
            r@ == connection_description(*self),
    {
        let mut r = joined(
            "OracleConnectionConfig { connect_string: <redacted>, username: ",
            self.username.as_str(),
            ", password_env: ",
        );
        append_text(&mut r, self.password_env.as_str());
        append_text(&mut r, ", min_connections: ");
        append_decimal(&mut r, self.pool.min_connections as u64);
        append_text(&mut r, ", max_connections: ");
        append_decimal(&mut r, self.pool.max_connections as u64);
        append_text(&mut r, ", max_connection_lifetime: ");
        self.pool.max_connection_lifetime.append_to(&mut r);
        append_text(&mut r, ", tls: ");
        append_text(&mut r, self.tls.mode.as_str());
        append_text(&mut r, ", wallet_location: ");
        match &self.tls.wallet_location {
            Some(wallet) => append_text(&mut r, wallet.as_str()),
            None => append_text(&mut r, "none"),
        }
        append_text(&mut r, " }");
        assert(r@ =~= connection_description(*self));
        r
    }
}

/// The configured name of a TLS mode.
pub open spec fn mode_name(mode: OracleTlsMode) -> Seq<char> {
    match mode {
        OracleTlsMode::Disabled => "disabled"@,
        OracleTlsMode::VerifyFull => "verify_full"@,
        OracleTlsMode::Insecure => "insecure"@,
    }
}

impl OracleTlsMode {
    /// The configured name.
    pub fn as_str(&self) -> (r: &'static str)
        ensures
            r@ == mode_name(*self),
    {
        match self {
            OracleTlsMode::Disabled => "disabled",
            OracleTlsMode::VerifyFull => "verify_full",
            OracleTlsMode::Insecure => "insecure",
        }
    }
}

/// Connection settings as diagnostics show them. The connect string is no part of it.
pub open spec fn connection_description(connection: OracleConnectionConfig) -> Seq<char> {
    "OracleConnectionConfig { connect_string: <redacted>, username: "@ + connection.username@
        + ", password_env: "@ + connection.password_env@ + ", min_connections: "@ + text::decimal(
        connection.pool.min_connections as nat,
    ) + ", max_connections: "@ + text::decimal(connection.pool.max_connections as nat)
        + ", max_connection_lifetime: "@ + time::seconds_text(
        connection.pool.max_connection_lifetime@,
    ) + ", tls: "@ + mode_name(connection.tls.mode) + ", wallet_location: "@ + match connection.tls.wallet_location {
        Some(wallet) => wallet@,
        None => "none"@,
    } + " }"@
}

/// Diagnostics do not tell settings apart by their connect strings.
pub proof fn law_description_hides_the_connect_string(
    a: OracleConnectionConfig,
    connect_string: String,
)
    ensures
        connection_description(a) == connection_description(
            (OracleConnectionConfig { connect_string, ..a }),
        ),
{
}

/// A validated receiver configuration.
pub struct OracleReceiverConfig {
    /// What was configured.
    pub inner: DatabaseReceiverConfig<OracleConnectionConfig>,
}

/// Why a receiver configuration cannot be used, if it cannot.
pub open spec fn receiver_verdict(config: DatabaseReceiverConfig<OracleConnectionConfig>) -> Option<
    Seq<char>,
> {
    if config::config_verdict(config) is Some {
        config::config_verdict(config)
    } else if connection_verdict(config.database) is Some {
        connection_verdict(config.database)
    } else if config.limits.max_concurrent_queries > config.database.pool.max_connections {
        Some("limits.max_concurrent_queries must not exceed database.pool.max_connections"@)
    } else {
        None
    }
}

impl OracleReceiverConfig {
    /// Validates a receiver configuration: each part, and that every query admitted at a time
    /// has a session.
    pub fn new(inner: DatabaseReceiverConfig<OracleConnectionConfig>) -> (r: Result<Self, String>)
        ensures
            match r {
                Ok(config) => receiver_verdict(inner) is None && config.inner == inner,
                Err(message) => receiver_verdict(inner) == Some(message@),
            },
    {
        if let Err(message) = inner.validate() {
            return Err(message);
        }
        if let Err(message) = inner.database.validate() {
            return Err(message);
        }
        if inner.limits.max_concurrent_queries > inner.database.pool.max_connections {
            return Err(
                owned("limits.max_concurrent_queries must not exceed database.pool.max_connections"),
            );
        }
        Ok(OracleReceiverConfig { inner })
    }
}

/// Checks that a source is polled from one core only.
pub fn require_single_core(cores: usize) -> (r: Result<(), String>)
    ensures
        text::agrees(
            r,
            if cores == 1 {
                None
            } else {
                Some("the Oracle receiver requires a single-core pipeline"@)
            },
        ),
{
    if cores != 1 {
        return Err(owned("the Oracle receiver requires a single-core pipeline"));
    }
    Ok(())
}

/// A configuration that asks for verified TLS and is accepted connects over TLS and checks
/// the server's identity.
pub proof fn law_verified_tls_checks_the_server(connection: OracleConnectionConfig)
    requires
        connection_verdict(connection) is None,
        connection.tls.mode is VerifyFull,
    ensures
        is_tcps(connection.connect_string@),
        connection.tls.wallet_location is Some,
        text::occurs(
            with_tls(connection.tls, connection.connect_string@),
            "&ssl_server_dn_match=yes"@,
        ),
{
    let whole = with_tls(connection.tls, connection.connect_string@);
    let tail = "&ssl_server_dn_match=yes"@;
    let at = whole.len() - tail.len();
    assert(text::occurs_at(whole, tail, at)) by {
        assert(whole.subrange(at, whole.len() as int) =~= tail);
    }
}

/// A pool is accepted exactly when it may open a connection, opens no more at the start than it
/// may, and keeps connections for some time.
pub proof fn law_accepted_pools_hold_together(pool: OraclePoolConfig)
    ensures
        pool_verdict(pool) is None <==> pool.max_connections >= 1 && pool.min_connections
            <= pool.max_connections && pool.max_connection_lifetime@ >= 1,
{
}

/// A connect string asks for TLS exactly when it begins with `tcps://`, in any case.
pub proof fn law_tls_is_asked_for_by_the_scheme(connect_string: Seq<char>)
    ensures
        is_tcps(connect_string) <==> connect_string.len() >= 7 && text::spells_alike(
            connect_string.take(7),
            seq!['t', 'c', 'p', 's', ':', '/', '/'],
        ),
{
    reveal_strlit("tcps://");
    let scheme = seq!['t', 'c', 'p', 's', ':', '/', '/'];
    assert("tcps://"@ =~= scheme);
    text::law_parts_stand_where_their_characters_do(text::lower(connect_string), scheme);
    text::law_lower_case_changes_capitals_alone(connect_string);
    if connect_string.len() >= 7 {
        let head = connect_string.take(7);
        let low = text::lower(connect_string);
        if is_tcps(connect_string) {
            assert forall|i: int| 0 <= i < 7 implies text::is_case_of(#[trigger] head[i], scheme[i]) by {
                assert(low[0 + i] == scheme[i]);
                assert(head[i] == connect_string[i]);
            }
        }
        if text::spells_alike(head, scheme) {
            assert forall|i: int| 0 <= i < scheme.len() implies low[0 + i] == #[trigger] scheme[i] by {
                assert(head[i] == connect_string[i]);
                assert(text::is_case_of(head[i], scheme[i]));
                assert(!('A' <= scheme[i] <= 'Z'));
            }
        }
    }
}

/// A TLS policy suits a connect string exactly when it is off, or the string asks for TLS and
/// there is a wallet to check the server by, unless the server is not to be checked.
pub proof fn law_accepted_tls_can_be_applied(tls: OracleTlsConfig, connect_string: Seq<char>)
    ensures
        tls_verdict(tls, connect_string) is None <==> tls.mode == OracleTlsMode::Disabled || (
        is_tcps(connect_string) && (tls.mode == OracleTlsMode::Insecure || (
        tls.wallet_location matches Some(wallet) && !text::is_blank(wallet@)))),
{
}

/// Connection settings are accepted exactly when the address, the user and the password's
/// variable are given and the pool and the TLS policy hold together.
pub proof fn law_accepted_connections_are_complete(connection: OracleConnectionConfig)
    ensures
        connection_verdict(connection) is None <==> !text::is_blank(connection.connect_string@)
            && !text::is_blank(connection.username@) && !text::is_blank(connection.password_env@)
            && pool_verdict(connection.pool) is None && tls_verdict(
            connection.tls,
            connection.connect_string@,
        ) is None,
{
}

/// A receiver is accepted exactly when its shared settings and its connection are, and there is
/// a connection for every concurrent query.
pub proof fn law_accepted_receivers_have_connections(
    config: DatabaseReceiverConfig<OracleConnectionConfig>,
)
    ensures
        receiver_verdict(config) is None <==> config::config_verdict(config) is None
            && connection_verdict(config.database) is None && config.limits.max_concurrent_queries
            <= config.database.pool.max_connections,
{
}

/// The byte that a percent sign and two hexadecimal digits stand for.
pub open spec fn hex_value(c: char) -> int {
    if '0' <= c <= '9' {
        c as int - '0' as int
    } else if 'A' <= c <= 'F' {
        c as int - 'A' as int + 10
    } else {
        -1
    }
}

/// The bytes that a percent-encoded text stands for, read from its beginning.
pub open spec fn percent_decoded(text: Seq<char>) -> Seq<int>
    decreases text.len(),
{
    if text.len() == 0 {
        Seq::empty()
    } else if text[0] == '%' && text.len() >= 3 {
        seq![hex_value(text[1]) * 16 + hex_value(text[2])] + percent_decoded(text.skip(3))
    } else {
        seq![text[0] as int] + percent_decoded(text.skip(1))
    }
}

/// What is written in a URL stands for the very bytes that were given, and is made of letters,
/// digits, `-`, `.`, `_`, `~` and percent signs alone.
pub proof fn law_percent_encoding_is_read_back(bytes: Seq<u8>)
    ensures
        percent_decoded(percent_encoded(bytes)) == bytes.map_values(|byte: u8| byte as int),
        forall|i: int|
            0 <= i < percent_encoded(bytes).len() ==> {
                let c = #[trigger] percent_encoded(bytes)[i];
                ('a' <= c <= 'z') || ('A' <= c <= 'Z') || ('0' <= c <= '9') || c == '-' || c == '.'
                    || c == '_' || c == '~' || c == '%'
            },
    decreases bytes.len(),
{
    if bytes.len() == 0 {
        assert(percent_decoded(percent_encoded(bytes)) =~= bytes.map_values(
            |byte: u8| byte as int,
        ));
    } else {
        let less = bytes.drop_last();
        let byte = bytes.last();
        law_percent_encoding_is_read_back(less);
        let head = percent_encoded(less);
        let tail = if is_unreserved(byte) {
            seq![byte as char]
        } else {
            seq!['%', hex_digit(byte / 16), hex_digit(byte % 16)]
        };
        assert(percent_encoded(bytes) == head + tail);
        lemma_encoded_is_whole(less);
        lemma_decoded_append(less, tail);
        reveal_with_fuel(percent_decoded, 2);
        assert(percent_decoded(tail) =~= seq![byte as int]) by {
            if is_unreserved(byte) {
                assert(tail.skip(1) =~= Seq::empty());
                assert(tail[0] as int == byte as int);
            } else {
                assert(tail.skip(3) =~= Seq::empty());
                assert(hex_value(tail[1]) == byte / 16);
                assert(hex_value(tail[2]) == byte % 16);
            }
        }
        assert(percent_decoded(percent_encoded(bytes)) =~= bytes.map_values(
            |byte: u8| byte as int,
        ));
        assert forall|i: int| 0 <= i < percent_encoded(bytes).len() implies ({
            let c = #[trigger] percent_encoded(bytes)[i];
            ('a' <= c <= 'z') || ('A' <= c <= 'Z') || ('0' <= c <= '9') || c == '-' || c == '.' || c
                == '_' || c == '~' || c == '%'
        }) by {
            if i < head.len() {
                assert(percent_encoded(bytes)[i] == head[i]);
            } else {
                assert(percent_encoded(bytes)[i] == tail[i - head.len()]);
            }
        }
    }
}

proof fn lemma_encoded_is_whole(bytes: Seq<u8>)
    ensures
        bytes.len() > 0 ==> percent_encoded(bytes).len() > 0,
{
}

proof fn lemma_decoded_append(bytes: Seq<u8>, tail: Seq<char>)
    ensures
        percent_decoded(percent_encoded(bytes) + tail) == percent_decoded(percent_encoded(bytes))
            + percent_decoded(tail),
    decreases bytes.len(),
{
    if bytes.len() == 0 {
        assert(percent_encoded(bytes) + tail =~= tail);
        assert(percent_decoded(percent_encoded(bytes)) + percent_decoded(tail) =~= percent_decoded(
            tail,
        ));
    } else {
        let less = bytes.drop_last();
        let byte = bytes.last();
        let one = if is_unreserved(byte) {
            seq![byte as char]
        } else {
            seq!['%', hex_digit(byte / 16), hex_digit(byte % 16)]
        };
        assert(percent_encoded(bytes) + tail =~= percent_encoded(less) + (one + tail));
        lemma_decoded_append(less, one + tail);
        lemma_decoded_append(less, one);
        lemma_decoded_one(byte, tail);
        assert(percent_decoded(percent_encoded(bytes) + tail) =~= percent_decoded(
            percent_encoded(bytes),
        ) + percent_decoded(tail));
    }
}

proof fn lemma_decoded_one(byte: u8, tail: Seq<char>)
    ensures
        ({
            let one = if is_unreserved(byte) {
                seq![byte as char]
            } else {
                seq!['%', hex_digit(byte / 16), hex_digit(byte % 16)]
            };
            percent_decoded(one + tail) == percent_decoded(one) + percent_decoded(tail)
        }),
{
    let one = if is_unreserved(byte) {
        seq![byte as char]
    } else {
        seq!['%', hex_digit(byte / 16), hex_digit(byte % 16)]
    };
    reveal_with_fuel(percent_decoded, 2);
    assert((one + tail).skip(one.len() as int) =~= tail);
    assert(one.skip(one.len() as int) =~= Seq::empty());
    assert((one + tail)[0] == one[0]);
    if is_unreserved(byte) {
        assert(byte as char != '%');
    } else {
        assert((one + tail)[1] == one[1] && (one + tail)[2] == one[2]);
    }
    assert(percent_decoded(one + tail) =~= percent_decoded(one) + percent_decoded(tail));
}

/// Only a connect string that asks for TLS is changed, and then only by what is appended: one
/// more parameter for a server that is not checked, and the wallet and the check for one that
/// is.
pub proof fn law_tls_properties_are_appended(tls: OracleTlsConfig, connect_string: Seq<char>)
    ensures
        ({
            let whole = with_tls(tls, connect_string);
            &&& connect_string.is_prefix_of(whole)
            &&& !is_tcps(connect_string) || tls.mode == OracleTlsMode::Disabled ==> whole
                == connect_string
            &&& is_tcps(connect_string) && tls.mode != OracleTlsMode::Disabled ==> {
                let rest = whole.skip(connect_string.len() as int);
                &&& rest.len() > 0
                &&& rest[0] == if connect_string.contains('?') {
                    '&'
                } else {
                    '?'
                }
                &&& tls.mode == OracleTlsMode::Insecure ==> rest.skip(1)
                    == "ssl_server_dn_match=no"@
                &&& tls.mode == OracleTlsMode::VerifyFull ==> rest.skip(1) == "wallet_location="@
                    + percent_encoded(vstd::utf8::encode_utf8(tls.wallet_location->0@))
                    + "&ssl_server_dn_match=yes"@
            }
        }),
{
    reveal_strlit("&");
    reveal_strlit("?");
    let whole = with_tls(tls, connect_string);
    let rest = whole.skip(connect_string.len() as int);
    if is_tcps(connect_string) && tls.mode != OracleTlsMode::Disabled {
        let mark = if connect_string.contains('?') {
            "&"@
        } else {
            "?"@
        };
        assert(rest[0] == mark[0]);
        if tls.mode == OracleTlsMode::Insecure {
            assert(rest.skip(1) =~= "ssl_server_dn_match=no"@);
        } else {
            assert(rest.skip(1) =~= "wallet_location="@ + percent_encoded(
                vstd::utf8::encode_utf8(tls.wallet_location->0@),
            ) + "&ssl_server_dn_match=yes"@);
        }
    }
}

/// Exactly ASCII letters, digits and `-`, `.`, `_`, `~` stand for themselves in a URL, one
/// character each; any other byte takes three.
pub proof fn law_plain_bytes_stand_for_themselves(byte: u8)
    ensures
        ({
            let c = byte as char;
            let plain = ('a' <= c <= 'z') || ('A' <= c <= 'Z') || ('0' <= c <= '9') || c == '-'
                || c == '.' || c == '_' || c == '~';
            &&& plain ==> percent_encoded(seq![byte]) == seq![c]
            &&& !plain ==> percent_encoded(seq![byte]).len() == 3 && percent_encoded(seq![byte])[0]
                == '%'
        }),
{
    reveal_with_fuel(percent_encoded, 2);
    assert(seq![byte].drop_last() =~= Seq::<u8>::empty());
    assert(percent_encoded(seq![byte].drop_last()) =~= Seq::<char>::empty());
}

} // verus!
