//! JSON values: what `serde_json::Value` holds, and the few operations on it
//! that the rest of the crate needs.
use crate::decimal::{fraction_text, Decimal};
use crate::models::opt_text;
use crate::text::decimal_text;
use vstd::prelude::*;

verus! {

/// A JSON value as a tree. A number is given by its text.
pub enum JsonTree {
    Null,
    Bool(bool),
    Number(Seq<char>),
    Text(Seq<char>),
    List(Seq<JsonTree>),
    Object(Map<Seq<char>, JsonTree>),
}

/// `serde_json::Value`.
#[verifier::external_type_specification]
#[verifier::external_body]
pub struct ExValue(serde_json::Value);

/// What a `serde_json::Value` holds.
pub uninterp spec fn tree_of(value: serde_json::Value) -> JsonTree;

/// What `serde_json::from_str` reads from a text: a value, or its message on
/// what is wrong.
pub uninterp spec fn parsed(text: Seq<char>) -> Result<JsonTree, Seq<char>>;

/// What `serde_json::from_slice` reads from bytes: a value, or its message on
/// what is wrong.
pub uninterp spec fn parsed_bytes(bytes: Seq<u8>) -> Result<JsonTree, Seq<char>>;

/// What `serde_json::to_string` writes for a value.
pub uninterp spec fn printed(tree: JsonTree) -> Seq<char>;

/// The trees of a list of values.
pub open spec fn trees_of(values: Seq<serde_json::Value>) -> Seq<JsonTree> {
    values.map_values(|value: serde_json::Value| tree_of(value))
}

impl JsonTree {
    /// The value of a field, if this is an object that has it.
    pub open spec fn field(self, key: Seq<char>) -> Option<JsonTree> {
        match self {
            JsonTree::Object(fields) => if fields.contains_key(key) {
                Some(fields[key])
            } else {
                None
            },
            _ => None,
        }
    }

    /// An item, if this is a list that is long enough.
    pub open spec fn item(self, i: int) -> Option<JsonTree> {
        match self {
            JsonTree::List(items) => if 0 <= i < items.len() {
                Some(items[i])
            } else {
                None
            },
            _ => None,
        }
    }

    /// The text, if this is one.
    pub open spec fn text(self) -> Option<Seq<char>> {
        match self {
            JsonTree::Text(text) => Some(text),
            _ => None,
        }
    }
}

/// The text of a field.
pub open spec fn field_text(tree: JsonTree, key: Seq<char>) -> Option<Seq<char>> {
    match tree.field(key) {
        Some(value) => value.text(),
        None => None,
    }
}

/// The object with these fields, of which the later ones count.
pub open spec fn object_of(fields: Seq<(Seq<char>, JsonTree)>) -> Map<Seq<char>, JsonTree>
    decreases fields.len(),
{
    if fields.len() == 0 {
        Map::empty()
    } else {
        object_of(fields.drop_last()).insert(fields.last().0, fields.last().1)
    }
}

/// Fields with their trees.
pub open spec fn field_trees(fields: Seq<(String, serde_json::Value)>) -> Seq<
    (Seq<char>, JsonTree),
> {
    fields.map_values(|field: (String, serde_json::Value)| (field.0@, tree_of(field.1)))
}

/// What a parsed text comes to: its tree, or the message.
pub open spec fn outcome_of(r: Result<serde_json::Value, String>) -> Result<JsonTree, Seq<char>> {
    match r {
        Ok(value) => Ok(tree_of(value)),
        Err(message) => Err(message@),
    }
}

/// `serde_json::from_str` into a `Value`: what it reads is a function of the
/// text, and so is the message where the text is not JSON.
#[verifier::external_body]
pub(crate) fn parse(text: &str) -> (r: Result<serde_json::Value, String>)
    ensures
        outcome_of(r) == parsed(text@),
{
    serde_json::from_str::<serde_json::Value>(text).map_err(|e| e.to_string())
}

/// `serde_json::from_slice` into a `Value`: what it reads is a function of the
/// bytes, and so is the message where they are not JSON.
#[verifier::external_body]
pub(crate) fn parse_bytes(bytes: &[u8]) -> (r: Result<serde_json::Value, String>)
    ensures
        outcome_of(r) == parsed_bytes(bytes@),
{
    serde_json::from_slice::<serde_json::Value>(bytes).map_err(|e| e.to_string())
}

/// `serde_json::to_string` of a `Value`, which cannot fail: the text is a
/// function of what the value holds.
#[verifier::external_body]
pub(crate) fn print(value: &serde_json::Value) -> (text: String)
    ensures
        text@ == printed(tree_of(*value)),
{
    serde_json::to_string(value).unwrap_or_default()
}

/// `Value::clone`: the copy holds the same.
pub assume_specification[ <serde_json::Value as Clone>::clone ](
    value: &serde_json::Value,
) -> (copy: serde_json::Value)
    ensures
        tree_of(copy) == tree_of(*value),
;

/// `Value::as_str`: the text, if the value is one.
pub assume_specification[ serde_json::Value::as_str ](value: &serde_json::Value) -> (text: Option<
    &str,
>)
    ensures
        match text {
            Some(text) => tree_of(*value) == JsonTree::Text(text@),
            None => !(tree_of(*value) is Text),
        },
;

/// `Value::as_bool`: the truth value, if the value is one.
pub assume_specification[ serde_json::Value::as_bool ](value: &serde_json::Value) -> (b: Option<
    bool,
>)
    ensures
        match b {
            Some(b) => tree_of(*value) == JsonTree::Bool(b),
            None => !(tree_of(*value) is Bool),
        },
;

/// `Value::as_array`: the items, if the value is a list.
pub assume_specification[ serde_json::Value::as_array ](value: &serde_json::Value) -> (items: Option<
    &Vec<serde_json::Value>,
>)
    ensures
        match items {
            Some(items) => tree_of(*value) == JsonTree::List(trees_of(items@)),
            None => !(tree_of(*value) is List),
        },
;

/// `Value::get` with a name: the value of that field, if the value is an object
/// that has it.
#[verifier::external_body]
pub(crate) fn get_field<'a>(value: &'a serde_json::Value, key: &str) -> (field: Option<
    &'a serde_json::Value,
>)
    ensures
        match field {
            Some(field) => tree_of(*value).field(key@) == Some(tree_of(*field)),
            None => tree_of(*value).field(key@) is None,
        },
{
    value.get(key)
}

/// `Value::as_object`, with the fields of the map in a list: each field once,
/// with its value.
#[verifier::external_body]
pub(crate) fn fields_of(value: &serde_json::Value) -> (fields: Option<
    Vec<(&String, &serde_json::Value)>,
>)
    ensures
        match fields {
            Some(fields) => tree_of(*value) matches JsonTree::Object(object) && {
                &&& forall|i: int|
                    0 <= i < fields@.len() ==> object.contains_key((#[trigger] fields@[i]).0@)
                        && object[fields@[i].0@] == tree_of(*fields@[i].1)
                &&& forall|key: Seq<char>| #[trigger]
                    object.contains_key(key) ==> exists|i: int|
                        0 <= i < fields@.len() && (#[trigger] fields@[i]).0@ == key
            },
            None => !(tree_of(*value) is Object),
        },
{
    value.as_object().map(|map| map.iter().collect())
}

/// `Map::insert` into the map of a `Value` that is an object; any other value
/// stays as it is.
#[verifier::external_body]
pub(crate) fn set_field(value: &mut serde_json::Value, key: &str, field: serde_json::Value)
    ensures
        tree_of(*final(value)) == (match tree_of(*old(value)) {
            JsonTree::Object(object) => JsonTree::Object(object.insert(key@, tree_of(field))),
            other => other,
        }),
{
    if let Some(object) = value.as_object_mut() {
        object.insert(key.to_string(), field);
    }
}

/// `Value::Null`.
#[verifier::external_body]
pub(crate) fn null() -> (value: serde_json::Value)
    ensures
        tree_of(value) == JsonTree::Null,
{
    serde_json::Value::Null
}

/// `Value::Number` of a whole number: its text is the number in decimal.
#[verifier::external_body]
pub(crate) fn number(n: u64) -> (value: serde_json::Value)
    ensures
        tree_of(value) == JsonTree::Number(decimal_text(n as nat)),
{
    serde_json::Value::Number(serde_json::Number::from(n))
}

/// `Value::Bool`.
#[verifier::external_body]
pub(crate) fn boolean(b: bool) -> (value: serde_json::Value)
    ensures
        tree_of(value) == JsonTree::Bool(b),
{
    serde_json::Value::Bool(b)
}

/// `Value::String`.
#[verifier::external_body]
pub(crate) fn string(text: String) -> (value: serde_json::Value)
    ensures
        tree_of(value) == JsonTree::Text(text@),
{
    serde_json::Value::String(text)
}

/// `Value::Array`.
#[verifier::external_body]
pub(crate) fn list(items: Vec<serde_json::Value>) -> (value: serde_json::Value)
    ensures
        tree_of(value) == JsonTree::List(trees_of(items@)),
{
    serde_json::Value::Array(items)
}

/// `Value::Object` of an empty `Map`.
#[verifier::external_body]
fn empty_object() -> (value: serde_json::Value)
    ensures
        tree_of(value) == JsonTree::Object(Map::empty()),
{
    serde_json::Value::Object(serde_json::Map::new())
}

/// The object with these fields, of which the later ones count.
pub(crate) fn object(fields: Vec<(String, serde_json::Value)>) -> (value: serde_json::Value)
    ensures
        tree_of(value) == JsonTree::Object(object_of(field_trees(fields@))),
{
    let ghost all = field_trees(fields@);
    let ghost mut n: int = 0;
    let mut rest = fields;
    let mut value = empty_object();
    assert(all.take(0) =~= Seq::empty());
    assert(fields@.skip(0) =~= fields@);
    while rest.len() > 0
        invariant
            0 <= n <= fields@.len(),
            all == field_trees(fields@),
            rest@ == fields@.skip(n),
            tree_of(value) == JsonTree::Object(object_of(all.take(n))),
        decreases rest@.len(),
    {
        assert(rest@[0] == fields@[n]);
        assert(all.take(n + 1).drop_last() =~= all.take(n));
        let (name, field) = rest.remove(0);
        set_field(&mut value, name.as_str(), field);
        proof {
            assert(rest@ =~= fields@.skip(n + 1));
            n = n + 1;
        }
    }
    assert(all.take(n) =~= all);
    value
}

/// A field that may be there.
pub open spec fn opt_field(name: Seq<char>, value: Option<JsonTree>) -> Seq<(Seq<char>, JsonTree)> {
    match value {
        Some(tree) => seq![(name, tree)],
        None => Seq::empty(),
    }
}

/// A value that may be there, as a tree.
pub open spec fn opt_tree(value: Option<serde_json::Value>) -> Option<JsonTree> {
    match value {
        Some(value) => Some(tree_of(value)),
        None => None,
    }
}

/// The number that a decimal is sent as: what the JSON reader makes of its text.
pub open spec fn decimal_tree(d: Decimal) -> JsonTree {
    match parsed(fraction_text(d)) {
        Ok(tree) => tree,
        Err(_) => JsonTree::Null,
    }
}

/// Adds a field.
pub(crate) fn put(
    fields: &mut Vec<(String, serde_json::Value)>,
    name: &str,
    value: serde_json::Value,
)
    ensures
        field_trees(final(fields)@) == field_trees(old(fields)@) + seq![(name@, tree_of(value))],
{
    let ghost before = fields@;
    fields.push((name.to_owned(), value));
    assert(field_trees(fields@) =~= field_trees(before) + seq![(name@, tree_of(value))]);
}

/// Adds a field, if it is there.
pub(crate) fn put_opt(
    fields: &mut Vec<(String, serde_json::Value)>,
    name: &str,
    value: Option<serde_json::Value>,
)
    ensures
        field_trees(final(fields)@) == field_trees(old(fields)@) + opt_field(
            name@,
            opt_tree(value),
        ),
{
    match value {
        Some(value) => put(fields, name, value),
        None => {
            assert(field_trees(fields@) + Seq::<(Seq<char>, JsonTree)>::empty() =~= field_trees(
                fields@,
            ));
        },
    }
}

/// No fields yet.
pub(crate) fn no_fields() -> (fields: Vec<(String, serde_json::Value)>)
    ensures
        field_trees(fields@) == Seq::<(Seq<char>, JsonTree)>::empty(),
{
    let fields: Vec<(String, serde_json::Value)> = Vec::new();
    assert(field_trees(fields@) =~= Seq::empty());
    fields
}

/// A decimal as a value.
pub(crate) fn decimal_value(d: Decimal) -> (value: serde_json::Value)
    ensures
        tree_of(value) == decimal_tree(d),
{
    match parse(d.text_with_fraction().as_str()) {
        Ok(value) => value,
        Err(_) => null(),
    }
}

/// A text that may be there, as a tree.
pub open spec fn opt_text_tree(text: Option<Seq<char>>) -> Option<JsonTree> {
    match text {
        Some(text) => Some(JsonTree::Text(text)),
        None => None,
    }
}

/// A decimal that may be there, as a tree.
pub open spec fn opt_decimal_tree(d: Option<Decimal>) -> Option<JsonTree> {
    match d {
        Some(d) => Some(decimal_tree(d)),
        None => None,
    }
}

/// A count as a tree.
pub open spec fn count_tree(n: nat) -> JsonTree {
    JsonTree::Number(decimal_text(n))
}

/// A count that may be there, as a tree.
pub open spec fn opt_count_tree(n: Option<u32>) -> Option<JsonTree> {
    match n {
        Some(n) => Some(count_tree(n as nat)),
        None => None,
    }
}

/// Adds a text, if it is there.
pub(crate) fn put_text(
    fields: &mut Vec<(String, serde_json::Value)>,
    name: &str,
    text: &Option<String>,
)
    ensures
        field_trees(final(fields)@) == field_trees(old(fields)@) + opt_field(
            name@,
            opt_text_tree(opt_text(*text)),
        ),
{
    put_opt(
        fields,
        name,
        match text {
            Some(text) => Some(string(text.clone())),
            None => None,
        },
    );
}

/// Adds a decimal, if it is there.
pub(crate) fn put_decimal(
    fields: &mut Vec<(String, serde_json::Value)>,
    name: &str,
    d: Option<Decimal>,
)
    ensures
        field_trees(final(fields)@) == field_trees(old(fields)@) + opt_field(
            name@,
            opt_decimal_tree(d),
        ),
{
    put_opt(
        fields,
        name,
        match d {
            Some(d) => Some(decimal_value(d)),
            None => None,
        },
    );
}

/// Adds a count, if it is there.
pub(crate) fn put_count(fields: &mut Vec<(String, serde_json::Value)>, name: &str, n: Option<u32>)
    ensures
        field_trees(final(fields)@) == field_trees(old(fields)@) + opt_field(
            name@,
            opt_count_tree(n),
        ),
{
    put_opt(
        fields,
        name,
        match n {
            Some(n) => Some(number(n as u64)),
            None => None,
        },
    );
}

/// The text of a field.
pub fn get_text<'a>(value: &'a serde_json::Value, key: &str) -> (text: Option<&'a str>)
    ensures
        match text {
            Some(text) => field_text(tree_of(*value), key@) == Some(text@),
            None => field_text(tree_of(*value), key@) is None,
        },
{
    match get_field(value, key) {
        Some(field) => field.as_str(),
        None => None,
    }
}

} // verus!
