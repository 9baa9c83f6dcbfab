//! What makes a stream the same stream: where it is read from, what is read, and from where
//! on. Credentials, trust files and bounds are no part of it.

use crate::fingerprint;
use crate::fingerprint::{digest, position_document};
use crate::json;
use crate::json::{
    document_text, integer_document, object_document, text_document, JsonTree, TreeMember,
};
use crate::names;
use crate::text;
use crate::text::{lowered, owned};
use vstd::prelude::*;

verus! {

/// The identity of a stream.
pub struct StreamIdentity {
    /// The source.
    pub source: String,
    /// The server's host.
    pub host: String,
    /// The server's port.
    pub port: u16,
    /// The database.
    pub database: String,
    /// The canonical statement.
    pub sql: String,
    /// The cursor's timestamp column.
    pub timestamp_column: String,
    /// The cursor's tie-breaker column.
    pub id_column: String,
    /// The timestamp at which polling starts.
    pub initial_timestamp: String,
    /// The tie-breaker at which polling starts.
    pub initial_tie_breaker: i64,
}

/// The identity of a stream as a mathematical value; hosts are the same in any case.
pub struct IdentityModel {
    pub source: Seq<char>,
    pub host: Seq<char>,
    pub port: u16,
    pub database: Seq<char>,
    pub sql: Seq<char>,
    pub timestamp_column: Seq<char>,
    pub id_column: Seq<char>,
    pub initial_timestamp: Seq<char>,
    pub initial_tie_breaker: i64,
}

impl View for StreamIdentity {
    type V = IdentityModel;

    open spec fn view(&self) -> IdentityModel {
        IdentityModel {
            source: self.source@,
            host: text::lower(self.host@),
            port: self.port,
            database: self.database@,
            sql: self.sql@,
            timestamp_column: self.timestamp_column@,
            id_column: self.id_column@,
            initial_timestamp: self.initial_timestamp@,
            initial_tie_breaker: self.initial_tie_breaker,
        }
    }
}

/// A stream's identity as a JSON object.
pub open spec fn identity_tree(identity: IdentityModel) -> JsonTree {
    JsonTree::Members(
        seq![
            fingerprint::text_member("adapter"@, "postgresql"@),
            fingerprint::text_member("database"@, identity.database),
            fingerprint::text_member("host"@, identity.host),
            fingerprint::text_member("id_column"@, identity.id_column),
            TreeMember {
                name: "initial"@,
                value: fingerprint::position_tree(identity.initial_timestamp, identity.initial_tie_breaker),
            },
            fingerprint::text_member("mapping"@, "typed-body"@),
            fingerprint::integer_member("port"@, identity.port as i64),
            fingerprint::text_member("source"@, identity.source),
            fingerprint::text_member("sql"@, identity.sql),
            fingerprint::text_member("timestamp_column"@, identity.timestamp_column),
        ],
    )
}

/// The text that a stream's fingerprint is the digest of.
pub open spec fn digested(identity: IdentityModel) -> Seq<char> {
    json::rendered(identity_tree(identity))
}

/// The fingerprint of a stream.
pub open spec fn fingerprint_of(identity: IdentityModel) -> Seq<char> {
    fingerprint::blake3_hex(digested(identity))
}

/// Whether the text that stands for a stream gives the stream back when it is read.
pub open spec fn reads_back(identity: IdentityModel) -> bool {
    json::parsed_tree(digested(identity)) == Some(identity_tree(identity))
}

proof fn lemma_identity_names()
    ensures
        names::before("adapter"@, "database"@),
        names::before("database"@, "host"@),
        names::before("host"@, "id_column"@),
        names::before("id_column"@, "initial"@),
        names::before("initial"@, "mapping"@),
        names::before("mapping"@, "port"@),
        names::before("port"@, "source"@),
        names::before("source"@, "sql"@),
        names::before("sql"@, "timestamp_column"@),
{
    reveal_strlit("adapter");
    reveal_strlit("database");
    reveal_strlit("host");
    reveal_strlit("id_column");
    reveal_strlit("initial");
    reveal_strlit("mapping");
    reveal_strlit("port");
    reveal_strlit("source");
    reveal_strlit("sql");
    reveal_strlit("timestamp_column");
    fingerprint::lemma_before_at_first("adapter"@, "database"@);
    fingerprint::lemma_before_at_first("database"@, "host"@);
    fingerprint::lemma_before_at_first("host"@, "id_column"@);
    fingerprint::lemma_before_at_second("id_column"@, "initial"@);
    fingerprint::lemma_before_at_first("initial"@, "mapping"@);
    fingerprint::lemma_before_at_first("mapping"@, "port"@);
    fingerprint::lemma_before_at_first("port"@, "source"@);
    fingerprint::lemma_before_at_second("source"@, "sql"@);
    fingerprint::lemma_before_at_first("sql"@, "timestamp_column"@);
}

/// Writes a stream's identity in one line.
pub fn identity_text(identity: &StreamIdentity) -> (r: String)
    ensures
        r@ == digested(identity@),
        reads_back(identity@),
{
    let host = lowered(identity.host.as_str());
    let mut members: Vec<(String, serde_json::Value)> = Vec::new();
    members.push((owned("adapter"), text_document("postgresql")));
    members.push((owned("database"), text_document(identity.database.as_str())));
    members.push((owned("host"), text_document(host.as_str())));
    members.push((owned("id_column"), text_document(identity.id_column.as_str())));
    members.push(
        (
            owned("initial"),
            position_document(identity.initial_timestamp.as_str(), identity.initial_tie_breaker),
        ),
    );
    members.push((owned("mapping"), text_document("typed-body")));
    members.push((owned("port"), integer_document(identity.port as i64)));
    members.push((owned("source"), text_document(identity.source.as_str())));
    members.push((owned("sql"), text_document(identity.sql.as_str())));
    members.push((owned("timestamp_column"), text_document(identity.timestamp_column.as_str())));
    let ghost entries = members@.map_values(
        |member: (String, serde_json::Value)| (member.0@, json::document_tree(member.1)),
    );
    proof {
        lemma_identity_names();
        fingerprint::lemma_ascending(entries);
        assert(json::members_of(members@) =~= identity_tree(identity@)->Members_0);
        lemma_identity_is_record(identity@);
    }
    let document = object_document(members);
    document_text(&document)
}

proof fn lemma_identity_is_record(identity: IdentityModel)
    ensures
        json::is_record(identity_tree(identity)),
{
    let position = fingerprint::position_tree(identity.initial_timestamp, identity.initial_tie_breaker);
    assert(json::is_flat(position));
}

/// Computes the fingerprint of a stream.
pub fn fingerprint(identity: &StreamIdentity) -> (r: String)
    ensures
        r@ == fingerprint_of(identity@),
        reads_back(identity@),
        r@.len() == 64,
{
    let text = identity_text(identity);
    digest(text.as_str())
}

/// Different identities are written as different texts, so two streams share a fingerprint
/// only where the digest itself collides.
pub proof fn law_identity_text_tells_streams_apart(a: IdentityModel, b: IdentityModel)
    requires
        reads_back(a),
        reads_back(b),
        a != b,
    ensures
        digested(a) != digested(b),
{
    if digested(a) == digested(b) {
        lemma_identity_tree_injective(a, b);
    }
}

proof fn lemma_identity_tree_injective(a: IdentityModel, b: IdentityModel)
    requires
        identity_tree(a) == identity_tree(b),
    ensures
        a == b,
{
    let x = identity_tree(a)->Members_0;
    let y = identity_tree(b)->Members_0;
    assert(x == y);
    assert(x[1] == y[1]);
    assert(x[2] == y[2]);
    assert(x[3] == y[3]);
    assert(x[4] == y[4]);
    assert(x[6] == y[6]);
    assert(x[7] == y[7]);
    assert(x[8] == y[8]);
    assert(x[9] == y[9]);
    let p = x[4].value->Members_0;
    let q = y[4].value->Members_0;
    assert(p[0] == q[0]);
    assert(p[1] == q[1]);
}

} // verus!
