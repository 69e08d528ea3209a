//! JSON values as plain data, and the decoder that produces them.

use vstd::prelude::*;

verus! {

broadcast use vstd::std_specs::vec::axiom_vec_index_decreases;

/// A JSON number: its integer value where it has one that fits `i64`, and
/// the number as JSON text.
#[derive(Debug, PartialEq)]
pub struct JsonNumber {
    pub integer: Option<i64>,
    pub text: String,
}

/// The mathematical value of a [`JsonNumber`].
pub struct NumberView {
    pub integer: Option<i64>,
    pub text: Seq<char>,
}

/// A JSON value tree. An object is a list of named members. Where it was
/// decoded from a text, no two members have the same name: the members
/// stand in the order in which their names first occur in the text, and a
/// name that occurs again keeps its place and takes the later value.
#[derive(Debug, PartialEq)]
pub enum JsonValue {
    Null,
    Bool(bool),
    Number(JsonNumber),
    String(String),
    Array(Vec<JsonValue>),
    Object(Vec<(String, JsonValue)>),
}

/// The mathematical value of a [`JsonValue`].
pub enum JsonView {
    Null,
    Bool(bool),
    Number(NumberView),
    String(Seq<char>),
    Array(Seq<JsonView>),
    Object(Seq<(Seq<char>, JsonView)>),
}

impl View for JsonNumber {
    type V = NumberView;

    open spec fn view(&self) -> NumberView {
        NumberView { integer: self.integer, text: self.text@ }
    }
}

/// The value of a JSON value tree, node by node.
pub open spec fn tree_of(value: JsonValue) -> JsonView
    decreases value,
{
    match value {
        JsonValue::Null => JsonView::Null,
        JsonValue::Bool(b) => JsonView::Bool(b),
        JsonValue::Number(n) => JsonView::Number(n@),
        JsonValue::String(s) => JsonView::String(s@),
        JsonValue::Array(items) => JsonView::Array(
            Seq::new(
                items@.len(),
                |i: int|
                    if 0 <= i < items@.len() {
                        tree_of(items@[i])
                    } else {
                        JsonView::Null
                    },
            ),
        ),
        JsonValue::Object(members) => JsonView::Object(
            Seq::new(
                members@.len(),
                |i: int|
                    if 0 <= i < members@.len() {
                        (members@[i].0@, tree_of(members@[i].1))
                    } else {
                        (Seq::empty(), JsonView::Null)
                    },
            ),
        ),
    }
}

impl View for JsonValue {
    type V = JsonView;

    open spec fn view(&self) -> JsonView {
        tree_of(*self)
    }
}

/// No two members of a list have the same name.
pub open spec fn distinct_names(members: Seq<(Seq<char>, JsonView)>) -> bool {
    forall|i: int, j: int|
        0 <= i < j < members.len() ==> (#[trigger] members[i]).0 != (#[trigger] members[j]).0
}

/// No object of a tree, at any depth, has two members of the same name.
pub open spec fn has_distinct_names(tree: JsonView) -> bool
    decreases tree,
{
    match tree {
        JsonView::Array(items) => forall|i: int|
            0 <= i < items.len() ==> has_distinct_names(#[trigger] items[i]),
        JsonView::Object(members) => distinct_names(members) && forall|i: int|
            0 <= i < members.len() ==> has_distinct_names((#[trigger] members[i]).1),
        _ => true,
    }
}

/// The values of a list of JSON values, in order.
pub open spec fn values_view(items: Seq<JsonValue>) -> Seq<JsonView> {
    Seq::new(items.len(), |i: int| items[i]@)
}

/// The names and values of a list of object members, in order.
pub open spec fn members_view(members: Seq<(String, JsonValue)>) -> Seq<(Seq<char>, JsonView)> {
    Seq::new(members.len(), |i: int| (members[i].0@, members[i].1@))
}

/// The value of an array is the array of its items' values.
pub proof fn lemma_array_view(items: Vec<JsonValue>)
    ensures
        JsonValue::Array(items)@ == JsonView::Array(values_view(items@)),
{
    assert(JsonValue::Array(items)@->Array_0 =~= values_view(items@));
}

/// The value of an object is the list of its members' names and values.
pub proof fn lemma_object_view(members: Vec<(String, JsonValue)>)
    ensures
        JsonValue::Object(members)@ == JsonView::Object(members_view(members@)),
{
    assert(JsonValue::Object(members)@->Object_0 =~= members_view(members@));
}

impl Clone for JsonNumber {
    fn clone(&self) -> (copy: Self)
        ensures
            copy@ == self@,
    {
        JsonNumber { integer: self.integer, text: self.text.clone() }
    }
}

impl Clone for JsonValue {
    fn clone(&self) -> (copy: Self)
        ensures
            copy@ == self@,
        decreases self,
    {
        match self {
            JsonValue::Null => JsonValue::Null,
            JsonValue::Bool(b) => JsonValue::Bool(*b),
            JsonValue::Number(n) => JsonValue::Number(n.clone()),
            JsonValue::String(s) => JsonValue::String(s.clone()),
            JsonValue::Array(items) => {
                let copies = copy_values(items);
                proof {
                    lemma_array_view(*items);
                    lemma_array_view(copies);
                }
                JsonValue::Array(copies)
            },
            JsonValue::Object(members) => {
                let copies = copy_members(members);
                proof {
                    lemma_object_view(*members);
                    lemma_object_view(copies);
                }
                JsonValue::Object(copies)
            },
        }
    }
}

/// Copies a list of JSON values.
pub fn copy_values(items: &Vec<JsonValue>) -> (copies: Vec<JsonValue>)
    ensures
        values_view(copies@) == values_view(items@),
    decreases items,
{
    let mut copies: Vec<JsonValue> = Vec::new();
    let mut i: usize = 0;
    while i < items.len()
        invariant
            i <= items.len(),
            copies.len() == i,
            forall|k: int| 0 <= k < i ==> copies[k]@ == items[k]@,
        decreases items.len() - i,
    {
        copies.push(items[i].clone());
        i += 1;
    }
    copies
}

/// Copies a list of object members.
pub fn copy_members(members: &Vec<(String, JsonValue)>) -> (copies: Vec<(String, JsonValue)>)
    ensures
        members_view(copies@) == members_view(members@),
    decreases members,
{
    let mut copies: Vec<(String, JsonValue)> = Vec::new();
    let mut i: usize = 0;
    while i < members.len()
        invariant
            i <= members.len(),
            copies.len() == i,
            forall|k: int|
                0 <= k < i ==> copies[k].0@ == members[k].0@ && copies[k].1@ == members[k].1@,
        decreases members.len() - i,
    {
        let name = members[i].0.clone();
        let value = members[i].1.clone();
        copies.push((name, value));
        i += 1;
    }
    copies
}

/// The outside JSON value tree, as `serde_json` decodes it. Nothing is read
/// from it here but through [`open_value`].
#[verifier::external_type_specification]
#[verifier::external_body]
pub struct ExValue(serde_json::Value);

/// What `serde_json::from_str` makes of a text when asked for a
/// `serde_json::Value`: the tree of the value, or the message of its error.
pub uninterp spec fn json_decode(text: Seq<char>) -> Result<JsonView, Seq<char>>;

/// The tree that a `serde_json::Value` holds.
pub uninterp spec fn value_tree(value: serde_json::Value) -> JsonView;

/// The top node of a `serde_json::Value`: its variant, with the parts of a
/// scalar copied out and the parts of an array or an object borrowed.
enum Node<'a> {
    Null,
    Bool(bool),
    Number(JsonNumber),
    String(&'a str),
    Array(&'a Vec<serde_json::Value>),
    Object(Vec<(&'a String, &'a serde_json::Value)>),
}

/// The tree under a node, given the trees that its parts hold.
spec fn node_tree(node: Node) -> JsonView {
    match node {
        Node::Null => JsonView::Null,
        Node::Bool(b) => JsonView::Bool(b),
        Node::Number(n) => JsonView::Number(n@),
        Node::String(s) => JsonView::String(s@),
        Node::Array(items) => JsonView::Array(
            Seq::new(items@.len(), |i: int| value_tree(items@[i])),
        ),
        Node::Object(members) => JsonView::Object(
            Seq::new(members@.len(), |i: int| (members@[i].0@, value_tree(*members@[i].1))),
        ),
    }
}

/// Decodes a text with `serde_json::from_str`. The grammar is not restated:
/// the outcome is named [`json_decode`], and the tree of the value handed
/// back is the tree of that outcome. An error is handed back as its message.
#[verifier::external_body]
fn decode_text(text: &str) -> (decoded: Result<serde_json::Value, String>)
    ensures
        match decoded {
            Ok(value) => json_decode(text@) == Ok::<JsonView, Seq<char>>(value_tree(value)),
            Err(message) => json_decode(text@) == Err::<JsonView, Seq<char>>(message@),
        },
{
    match serde_json::from_str::<serde_json::Value>(text) {
        Ok(value) => Ok(value),
        Err(error) => Err(error.to_string()),
    }
}

/// Tells the variants of a `serde_json::Value` apart and hands out its
/// parts. A number gives what `Number::as_i64` and its `Display` give; an
/// object gives its members in the order in which `Map::iter` walks them,
/// and a `serde_json::Map` holds each name once.
#[verifier::external_body]
fn open_value<'a>(value: &'a serde_json::Value) -> (node: Node<'a>)
    ensures
        node_tree(node) == value_tree(*value),
        node matches Node::Object(members) ==> forall|i: int, j: int|
            0 <= i < j < members@.len() ==> (#[trigger] members@[i]).0@ != (
            #[trigger] members@[j]).0@,
{
    match value {
        serde_json::Value::Null => Node::Null,
        serde_json::Value::Bool(b) => Node::Bool(*b),
        serde_json::Value::Number(n) => Node::Number(
            JsonNumber { integer: n.as_i64(), text: n.to_string() },
        ),
        serde_json::Value::String(s) => Node::String(s.as_str()),
        serde_json::Value::Array(items) => Node::Array(items),
        serde_json::Value::Object(map) => Node::Object(map.iter().collect()),
    }
}

/// Rebuilds an outside value tree as a [`JsonValue`].
fn lift(value: &serde_json::Value) -> (lifted: JsonValue)
    ensures
        lifted@ == value_tree(*value),
        has_distinct_names(lifted@),
    decreases value_tree(*value),
{
    match open_value(value) {
        Node::Null => JsonValue::Null,
        Node::Bool(b) => JsonValue::Bool(b),
        Node::Number(n) => JsonValue::Number(n),
        Node::String(s) => JsonValue::String(s.to_owned()),
        Node::Array(items) => {
            let mut lifted: Vec<JsonValue> = Vec::new();
            let mut i: usize = 0;
            while i < items.len()
                invariant
                    i <= items.len(),
                    lifted.len() == i,
                    value_tree(*value) == JsonView::Array(
                        Seq::new(items@.len(), |k: int| value_tree(items@[k])),
                    ),
                    forall|k: int|
                        0 <= k < i ==> lifted[k]@ == value_tree(items@[k]) && has_distinct_names(
                            lifted[k]@,
                        ),
                decreases items.len() - i,
            {
                assert(value_tree(*value)->Array_0[i as int] == value_tree(items@[i as int]));
                lifted.push(lift(&items[i]));
                i += 1;
            }
            proof {
                lemma_array_view(lifted);
                let shape = values_view(lifted@);
                assert(shape =~= value_tree(*value)->Array_0);
                assert forall|k: int| 0 <= k < shape.len() implies has_distinct_names(
                    #[trigger] shape[k],
                ) by {
                    assert(shape[k] == lifted[k]@);
                }
            }
            JsonValue::Array(lifted)
        },
        Node::Object(members) => {
            let mut lifted: Vec<(String, JsonValue)> = Vec::new();
            let mut i: usize = 0;
            while i < members.len()
                invariant
                    i <= members.len(),
                    lifted.len() == i,
                    value_tree(*value) == JsonView::Object(
                        Seq::new(
                            members@.len(),
                            |k: int| (members@[k].0@, value_tree(*members@[k].1)),
                        ),
                    ),
                    forall|k: int|
                        0 <= k < i ==> lifted[k].0@ == members@[k].0@ && lifted[k].1@
                            == value_tree(*members@[k].1) && has_distinct_names(lifted[k].1@),
                    forall|a: int, b: int|
                        0 <= a < b < members@.len() ==> (#[trigger] members@[a]).0@ != (
                        #[trigger] members@[b]).0@,
                decreases members.len() - i,
            {
                assert(value_tree(*value)->Object_0[i as int].1 == value_tree(
                    *members@[i as int].1,
                ));
                let name = members[i].0.clone();
                let member = lift(members[i].1);
                lifted.push((name, member));
                i += 1;
            }
            proof {
                lemma_object_view(lifted);
                let shape = members_view(lifted@);
                assert(shape =~= value_tree(*value)->Object_0);
                assert forall|a: int, b: int| 0 <= a < b < shape.len() implies (
                #[trigger] shape[a]).0 != (#[trigger] shape[b]).0 by {
                    assert(members@[a].0@ != members@[b].0@);
                }
                assert forall|k: int| 0 <= k < shape.len() implies has_distinct_names(
                    (#[trigger] shape[k]).1,
                ) by {
                    assert(shape[k].1 == lifted[k].1@);
                }
            }
            JsonValue::Object(lifted)
        },
    }
}

/// The mathematical value of a decoding result.
pub open spec fn decoded_view(decoded: Result<JsonValue, String>) -> Result<JsonView, Seq<char>> {
    match decoded {
        Ok(value) => Ok(value@),
        Err(message) => Err(message@),
    }
}

/// Decodes a JSON text into a value tree, or into the decoder's message
/// where the text is no JSON. No object of a decoded tree has two members
/// of the same name.
pub fn decode(text: &str) -> (decoded: Result<JsonValue, String>)
    ensures
        decoded_view(decoded) == json_decode(text@),
        decoded matches Ok(value) ==> has_distinct_names(value@),
{
    match decode_text(text) {
        Ok(value) => Ok(lift(&value)),
        Err(message) => Err(message),
    }
}

} // verus!
