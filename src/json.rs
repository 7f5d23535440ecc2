//! The JSON documents read by `json_minimal`, seen through a model.
//!
//! `json_minimal::Json` is opaque to the verifier. `tree_of` names the tree a
//! value holds, and the functions here inspect a value one layer at a time,
//! each stating its result over that tree.

use vstd::prelude::*;

verus! {

#[verifier::external_type_specification]
#[verifier::external_body]
pub struct ExJson(json_minimal::Json);

/// A JSON value as `json_minimal` represents it.
pub enum JsonTree {
    /// A named member, `"name": value`.
    Member { name: Seq<char>, value: Box<JsonTree> },
    /// A braced object `{...}`: its entries, in input order.
    Object(Seq<JsonTree>),
    /// A bracketed array `[...]`.
    Array(Seq<JsonTree>),
    Text(Seq<char>),
    /// A number, as the bit pattern of its binary64 value.
    Number(u64),
    Bool(bool),
    Null,
}

/// The tree that a `json_minimal::Json` value holds.
pub uninterp spec fn tree_of(j: json_minimal::Json) -> JsonTree;

/// The tree that `json_minimal::Json::parse` reads from these bytes, or `None`
/// where it reports an error.
pub uninterp spec fn parsed_tree(input: Seq<u8>) -> Option<JsonTree>;

/// The byte ends the input safely for `json_minimal::Json::parse`.
pub open spec fn is_json_space(b: u8) -> bool {
    b == 0x20 || b == 0x09 || b == 0x0A || b == 0x0D
}

/// The entries that a member lookup searches: those of an object, or of the
/// object that a member holds.
pub open spec fn lookup_scope(t: JsonTree) -> Option<Seq<JsonTree>> {
    match t {
        JsonTree::Object(entries) => Some(entries),
        JsonTree::Member { value, .. } => match *value {
            JsonTree::Object(entries) => Some(entries),
            _ => None,
        },
        _ => None,
    }
}

/// The first entry that is a member with this name.
pub open spec fn first_member(entries: Seq<JsonTree>, key: Seq<char>) -> Option<JsonTree>
    decreases entries.len(),
{
    if entries.len() == 0 {
        None
    } else if entries[0] is Member && entries[0]->Member_name == key {
        Some(entries[0])
    } else {
        first_member(entries.drop_first(), key)
    }
}

/// What a lookup finds is a member with the name searched for.
pub proof fn lemma_first_member_is_member(entries: Seq<JsonTree>, key: Seq<char>)
    ensures
        first_member(entries, key) matches Some(m) ==> m is Member && m->Member_name == key,
    decreases entries.len(),
{
    if entries.len() > 0 {
        lemma_first_member_is_member(entries.drop_first(), key);
    }
}

/// Relies on `json_minimal::Json::parse`. It reads the input at an index
/// without a bound check after a value or a comma inside an object or an
/// array, so it panics where the input ends there. The last byte being
/// whitespace rules that out: every such read then falls on an index below
/// the length. It descends recursively, one level per nested object or
/// array, so its stack use grows with the nesting depth of the input.
#[verifier::external_body]
pub(crate) fn parse_document(input: &[u8]) -> (r: Option<json_minimal::Json>)
    requires
        input@.len() > 0,
        is_json_space(input@.last()),
    ensures
        r is Some <==> parsed_tree(input@) is Some,
        r matches Some(j) ==> parsed_tree(input@) == Some(tree_of(j)),
{
    json_minimal::Json::parse(input).ok()
}

/// Relies on `json_minimal::Json::get`: the first member with the given name
/// among the entries of an object, or of the object a member holds. It panics
/// on any other value.
#[verifier::external_body]
pub(crate) fn find_member<'a>(j: &'a json_minimal::Json, key: &str) -> (r: Option<
    &'a json_minimal::Json,
>)
    requires
        lookup_scope(tree_of(*j)) is Some,
    ensures
        r is Some <==> first_member(lookup_scope(tree_of(*j))->0, key@) is Some,
        r matches Some(m) ==> first_member(lookup_scope(tree_of(*j))->0, key@) == Some(
            tree_of(*m),
        ),
{
    j.get(key)
}

/// Relies on `json_minimal::Json::unbox` (the value itself) to hand out the
/// value held by a `Json::OBJECT` member.
#[verifier::external_body]
pub(crate) fn member_value<'a>(j: &'a json_minimal::Json) -> (r: Option<&'a json_minimal::Json>)
    ensures
        r is Some <==> tree_of(*j) is Member,
        r matches Some(v) ==> tree_of(*v) == *(tree_of(*j)->Member_value),
{
    match j {
        json_minimal::Json::OBJECT { value, .. } => Some(value.unbox()),
        _ => None,
    }
}

/// The entries of a `Json::JSON` object.
#[verifier::external_body]
pub(crate) fn object_entries<'a>(j: &'a json_minimal::Json) -> (r: Option<
    &'a Vec<json_minimal::Json>,
>)
    ensures
        r is Some <==> tree_of(*j) is Object,
        r matches Some(es) ==> es@.map_values(|e: json_minimal::Json| tree_of(e)) == tree_of(
            *j,
        )->Object_0,
{
    match j {
        json_minimal::Json::JSON(entries) => Some(entries),
        _ => None,
    }
}

/// The text of a `Json::STRING`.
#[verifier::external_body]
pub(crate) fn text_of<'a>(j: &'a json_minimal::Json) -> (r: Option<&'a String>)
    ensures
        r is Some <==> tree_of(*j) is Text,
        r matches Some(s) ==> s@ == tree_of(*j)->Text_0,
{
    match j {
        json_minimal::Json::STRING(s) => Some(s),
        _ => None,
    }
}

/// The bit pattern (`to_bits`) of a `Json::NUMBER`.
#[verifier::external_body]
pub(crate) fn number_bits_of(j: &json_minimal::Json) -> (r: Option<u64>)
    ensures
        r is Some <==> tree_of(*j) is Number,
        r matches Some(b) ==> b == tree_of(*j)->Number_0,
{
    match j {
        json_minimal::Json::NUMBER(x) => Some(x.to_bits()),
        _ => None,
    }
}

} // verus!
