//! Fingerprints: a digest of a JSON object in one canonical form.

use crate::json;
use crate::json::{integer_document, object_document, text_document, JsonTree, TreeMember};
use crate::names;
use crate::text::owned;
use vstd::prelude::*;

verus! {

/// One member that holds a text.
pub open spec fn text_member(name: Seq<char>, value: Seq<char>) -> TreeMember {
    TreeMember { name, value: JsonTree::Text(value) }
}

/// One member that holds an integer.
pub open spec fn integer_member(name: Seq<char>, value: i64) -> TreeMember {
    TreeMember { name, value: JsonTree::Number(json::integer_number(value)) }
}

/// A position as a JSON object.
pub open spec fn position_tree(timestamp: Seq<char>, tie_breaker: i64) -> JsonTree {
    JsonTree::Members(
        seq![integer_member("tie_breaker"@, tie_breaker), text_member("timestamp"@, timestamp)],
    )
}

/// The BLAKE3 digest of a text's UTF-8 bytes in lower-case hexadecimal.
pub uninterp spec fn blake3_hex(text: Seq<char>) -> Seq<char>;

/// `blake3::hash` of a text's bytes, written by `blake3::Hash::to_hex`: 32 bytes, two
/// characters each.
#[verifier::external_body]
pub(crate) fn digest(text: &str) -> (r: String)
    ensures
        r@ == blake3_hex(text@),
        r@.len() == 64,
{
    blake3::hash(text.as_bytes()).to_hex().to_string()
}

/// Whether two different texts have the same digest.
pub open spec fn collides(a: Seq<char>, b: Seq<char>) -> bool {
    a != b && blake3_hex(a) == blake3_hex(b)
}

pub proof fn lemma_ascending<V>(entries: Seq<(Seq<char>, V)>)
    requires
        forall|i: int, j: int|
            0 <= i && j == i + 1 && j < entries.len() ==> names::before(
                (#[trigger] entries[i]).0,
                (#[trigger] entries[j]).0,
            ),
    ensures
        names::ascending(entries),
{
    assert forall|i: int, j: int| 0 <= i < j < entries.len() implies names::before(
        (#[trigger] entries[i]).0,
        (#[trigger] entries[j]).0,
    ) by {
        lemma_ascending_pair(entries, i, j);
    }
}

proof fn lemma_ascending_pair<V>(entries: Seq<(Seq<char>, V)>, i: int, j: int)
    requires
        forall|i: int, j: int|
            0 <= i && j == i + 1 && j < entries.len() ==> names::before(
                (#[trigger] entries[i]).0,
                (#[trigger] entries[j]).0,
            ),
        0 <= i < j < entries.len(),
    ensures
        names::before(entries[i].0, entries[j].0),
    decreases j - i,
{
    if j > i + 1 {
        lemma_ascending_pair(entries, i, j - 1);
        assert(names::before(entries[j - 1].0, entries[j].0));
        names::lemma_before_transitive(entries[i].0, entries[j - 1].0, entries[j].0);
    }
}

pub proof fn lemma_before_at_first(a: Seq<char>, b: Seq<char>)
    requires
        a.len() > 0,
        b.len() > 0,
        a[0] < b[0],
    ensures
        names::before(a, b),
{
}

pub proof fn lemma_before_at_second(a: Seq<char>, b: Seq<char>)
    requires
        a.len() > 1,
        b.len() > 1,
        a[0] == b[0],
        a[1] < b[1],
    ensures
        names::before(a, b),
{
    lemma_before_at_first(a.drop_first(), b.drop_first());
}

proof fn lemma_position_names()
    ensures
        names::before("tie_breaker"@, "timestamp"@),
{
    reveal_strlit("tie_breaker");
    reveal_strlit("timestamp");
    let a = "tie_breaker"@.drop_first();
    let b = "timestamp"@.drop_first();
    lemma_before_at_second(a, b);
}

pub(crate) fn position_document(timestamp: &str, tie_breaker: i64) -> (r: serde_json::Value)
    ensures
        json::document_tree(r) == position_tree(timestamp@, tie_breaker),
{
    let mut members: Vec<(String, serde_json::Value)> = Vec::new();
    members.push((owned("tie_breaker"), integer_document(tie_breaker)));
    members.push((owned("timestamp"), text_document(timestamp)));
    let ghost entries = members@.map_values(
        |member: (String, serde_json::Value)| (member.0@, json::document_tree(member.1)),
    );
    proof {
        lemma_position_names();
        lemma_ascending(entries);
        assert(json::members_of(members@) =~= position_tree(timestamp@, tie_breaker)->Members_0);
    }
    object_document(members)
}

} // verus!
