//! Extraction of the intent's name and confidence from one input record.
//!
//! A record has the shape `{ ..., "intent": { "name": <text>, "confidence":
//! <number> }, ... }`. Inside the intent object position decides, not the
//! member names: the first entry's value is the name and the second's the
//! confidence. This follows the fixed field order of the producer of the
//! records, and a record that lists them the other way round is rejected.

use crate::json::{
    find_member, first_member, lemma_first_member_is_member, lookup_scope, member_value, number_bits_of, object_entries,
    parse_document, parsed_tree, text_of, tree_of, JsonTree,
};
use vstd::prelude::*;

verus! {

/// Why a record was not turned into an intent, or an intent not delivered.
#[derive(PartialEq, Eq, Structural, Clone, Copy, Debug)]
pub enum IntentError {
    /// The line is not a JSON document.
    MalformedInput,
    /// The document has no top-level `intent` member.
    MissingIntentField,
    /// The `intent` value is not an object, or does not have exactly two entries.
    SchemaShapeMismatch,
    /// The name is not text, or the confidence is not a number.
    TypeMismatch,
    /// Writing to the connection failed.
    TransportFailure,
}

/// An intent as read from a record.
#[derive(Debug)]
pub struct IntentRecord {
    pub name: String,
    /// The binary64 bit pattern of the confidence, unrounded and unclamped.
    pub confidence_bits: u64,
}

pub open spec fn intent_key() -> Seq<char> {
    seq!['i', 'n', 't', 'e', 'n', 't']
}

/// The text held by a member, if it is a member whose value is text.
pub open spec fn member_text(t: JsonTree) -> Option<Seq<char>> {
    match t {
        JsonTree::Member { value, .. } => match *value {
            JsonTree::Text(s) => Some(s),
            _ => None,
        },
        _ => None,
    }
}

/// The number held by a member, if it is a member whose value is a number.
pub open spec fn member_number(t: JsonTree) -> Option<u64> {
    match t {
        JsonTree::Member { value, .. } => match *value {
            JsonTree::Number(b) => Some(b),
            _ => None,
        },
        _ => None,
    }
}

/// The intent carried by the value of an `intent` member.
pub open spec fn intent_of_value(v: JsonTree) -> Result<(Seq<char>, u64), IntentError> {
    match v {
        JsonTree::Object(entries) => {
            if entries.len() != 2 {
                Err(IntentError::SchemaShapeMismatch)
            } else {
                match (member_text(entries[0]), member_number(entries[1])) {
                    (Some(name), Some(confidence)) => Ok((name, confidence)),
                    _ => Err(IntentError::TypeMismatch),
                }
            }
        },
        _ => Err(IntentError::SchemaShapeMismatch),
    }
}

/// The intent that a parsed document carries, or why it carries none.
///
/// Only a braced object is searched. A bare `"name": value` pair, which the
/// reader also accepts as a whole input, is no JSON document.
pub open spec fn intent_of_tree(doc: JsonTree) -> Result<(Seq<char>, u64), IntentError> {
    match doc {
        JsonTree::Object(entries) => match first_member(entries, intent_key()) {
            Some(JsonTree::Member { value, .. }) => intent_of_value(*value),
            _ => Err(IntentError::MissingIntentField),
        },
        JsonTree::Member { .. } => Err(IntentError::MalformedInput),
        _ => Err(IntentError::MissingIntentField),
    }
}

/// The line as handed to the JSON reader: followed by a newline, which ends a
/// record and changes no document.
pub open spec fn terminated(line: Seq<u8>) -> Seq<u8> {
    line.push(0x0A)
}

/// The intent that a line carries, or why it carries none.
pub open spec fn intent_of_line(line: Seq<u8>) -> Result<(Seq<char>, u64), IntentError> {
    match parsed_tree(terminated(line)) {
        None => Err(IntentError::MalformedInput),
        Some(doc) => intent_of_tree(doc),
    }
}

/// A result of reading an intent that agrees with the expected answer.
pub open spec fn reports(
    r: Result<IntentRecord, IntentError>,
    expected: Result<(Seq<char>, u64), IntentError>,
) -> bool {
    match r {
        Ok(rec) => expected == Ok::<(Seq<char>, u64), IntentError>((rec.name@, rec.confidence_bits)),
        Err(e) => expected == Err::<(Seq<char>, u64), IntentError>(e),
    }
}

/// The document of a record of the expected shape: `intent` as a top-level
/// member between other entries, holding an object of two members, a text
/// and a number.
pub open spec fn record_document(
    before: Seq<JsonTree>,
    after: Seq<JsonTree>,
    name_key: Seq<char>,
    name: Seq<char>,
    confidence_key: Seq<char>,
    confidence: u64,
) -> JsonTree {
    let intent = JsonTree::Object(
        seq![
            JsonTree::Member { name: name_key, value: Box::new(JsonTree::Text(name)) },
            JsonTree::Member { name: confidence_key, value: Box::new(JsonTree::Number(confidence)) },
        ],
    );
    JsonTree::Object(
        before + seq![JsonTree::Member { name: intent_key(), value: Box::new(intent) }] + after,
    )
}

/// A lookup passes over entries without the name and finds the first that has it.
proof fn lemma_first_member_after(
    before: Seq<JsonTree>,
    m: JsonTree,
    after: Seq<JsonTree>,
    key: Seq<char>,
)
    requires
        first_member(before, key) is None,
        m is Member,
        m->Member_name == key,
    ensures
        first_member(before + seq![m] + after, key) == Some(m),
    decreases before.len(),
{
    let all = before + seq![m] + after;
    if before.len() > 0 {
        lemma_first_member_after(before.drop_first(), m, after, key);
        assert(all.drop_first() =~= before.drop_first() + seq![m] + after);
    } else {
        assert(all[0] == m);
    }
}

/// Every record of the expected shape yields exactly the name and the
/// confidence it holds, the confidence bit for bit, whatever the other
/// top-level entries and whatever the two intent members are called.
pub proof fn lemma_record_yields_its_intent(
    before: Seq<JsonTree>,
    after: Seq<JsonTree>,
    name_key: Seq<char>,
    name: Seq<char>,
    confidence_key: Seq<char>,
    confidence: u64,
)
    requires
        first_member(before, intent_key()) is None,
    ensures
        intent_of_tree(record_document(before, after, name_key, name, confidence_key, confidence))
            == Ok::<(Seq<char>, u64), IntentError>((name, confidence)),
{
    let doc = record_document(before, after, name_key, name, confidence_key, confidence);
    let m = doc->Object_0[before.len() as int];
    assert(doc->Object_0 == before + seq![m] + after);
    lemma_first_member_after(before, m, after, intent_key());
}

/// Reads the intent from a document that `json_minimal` has parsed.
pub fn extract_intent(json: &json_minimal::Json) -> (r: Result<IntentRecord, IntentError>)
    ensures
        reports(r, intent_of_tree(tree_of(*json))),
{
    if object_entries(json).is_none() {
        return match member_value(json) {
            Some(_) => Err(IntentError::MalformedInput),
            None => Err(IntentError::MissingIntentField),
        };
    }
    proof {
        reveal_strlit("intent");
        assert("intent"@ =~= intent_key());
        lemma_first_member_is_member(lookup_scope(tree_of(*json))->0, intent_key());
    }
    let field = match find_member(json, "intent") {
        Some(f) => f,
        None => return Err(IntentError::MissingIntentField),
    };
    let value = match member_value(field) {
        Some(v) => v,
        None => return Err(IntentError::MissingIntentField),
    };
    let entries = match object_entries(value) {
        Some(es) => es,
        None => return Err(IntentError::SchemaShapeMismatch),
    };
    if entries.len() != 2 {
        return Err(IntentError::SchemaShapeMismatch);
    }
    proof {
        assert(entries@.map_values(|e: json_minimal::Json| tree_of(e))[0] == tree_of(entries@[0]));
        assert(entries@.map_values(|e: json_minimal::Json| tree_of(e))[1] == tree_of(entries@[1]));
    }
    let name = match member_value(&entries[0]) {
        Some(v) => text_of(v),
        None => None,
    };
    let confidence = match member_value(&entries[1]) {
        Some(v) => number_bits_of(v),
        None => None,
    };
    match (name, confidence) {
        (Some(n), Some(c)) => Ok(IntentRecord { name: n.clone(), confidence_bits: c }),
        _ => Err(IntentError::TypeMismatch),
    }
}

/// Reads the intent from one input line (without its line terminator).
///
/// The JSON reader accepts a value only where it starts with a digit, a
/// quote, a bracket, a brace, `t`, `f` or `n`, and a member only where `:`
/// follows the closing quote of its name directly. So a record with a
/// negative confidence (`"confidence":-0.5`), or with a space before a colon,
/// is reported as `MalformedInput`.
pub fn parse_intent(line: &[u8]) -> (r: Result<IntentRecord, IntentError>)
    ensures
        reports(r, intent_of_line(line@)),
{
    let mut input: Vec<u8> = Vec::new();
    let mut i: usize = 0;
    while i < line.len()
        invariant
            i <= line@.len(),
            input@ == line@.subrange(0, i as int),
        decreases line@.len() - i,
    {
        input.push(line[i]);
        i = i + 1;
    }
    input.push(0x0A);
    assert(input@ == terminated(line@));
    match parse_document(input.as_slice()) {
        Some(json) => extract_intent(&json),
        None => Err(IntentError::MalformedInput),
    }
}

} // verus!
