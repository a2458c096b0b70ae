//! JSON documents as the device protocol and the API exchange them.
//!
//! `Json` is the document that the library works on. `serde_json` reads and writes its bytes.
use crate::text::{precedes, same_text};
use serde_json::Error as JsonError;
use vstd::prelude::*;
use vstd::string::*;

verus! {

/// A JSON number: an integer as such, any other number by its decimal text.
#[derive(Debug, PartialEq)]
pub enum Number {
    Unsigned(u64),
    Negative(i64),
    Decimal(String),
}

/// A JSON document. The members of an object stand in the order of the list.
#[derive(Debug, PartialEq)]
pub enum Json {
    Null,
    Bool(bool),
    Number(Number),
    Text(String),
    Array(Vec<Json>),
    Object(Vec<Member>),
}

/// One member of a JSON object.
#[derive(Debug, PartialEq)]
pub struct Member {
    pub name: String,
    pub value: Json,
}

/// The mathematical value of a `Number`.
pub enum NumberModel {
    Unsigned(u64),
    Negative(i64),
    Decimal(Seq<char>),
}

/// The mathematical value of a `Json`.
pub enum Tree {
    Null,
    Bool(bool),
    Number(NumberModel),
    Text(Seq<char>),
    Array(Seq<Tree>),
    Object(Seq<(Seq<char>, Tree)>),
}

impl View for Number {
    type V = NumberModel;

    open spec fn view(&self) -> NumberModel {
        match *self {
            Number::Unsigned(value) => NumberModel::Unsigned(value),
            Number::Negative(value) => NumberModel::Negative(value),
            Number::Decimal(text) => NumberModel::Decimal(text@),
        }
    }
}

impl Json {
    /// The mathematical value of this document.
    pub open spec fn tree(self) -> Tree
        decreases self,
    {
        match self {
            Json::Null => Tree::Null,
            Json::Bool(value) => Tree::Bool(value),
            Json::Number(number) => Tree::Number(number@),
            Json::Text(text) => Tree::Text(text@),
            Json::Array(items) => Tree::Array(
                Seq::new(
                    items@.len(),
                    |i: int|
                        if 0 <= i < items@.len() {
                            items@[i].tree()
                        } else {
                            Tree::Null
                        },
                ),
            ),
            Json::Object(members) => Tree::Object(
                Seq::new(
                    members@.len(),
                    |i: int|
                        if 0 <= i < members@.len() {
                            (members@[i].name@, members@[i].value.tree())
                        } else {
                            (members@[i].name@, Tree::Null)
                        },
                ),
            ),
        }
    }
}

/// The first member of that name in a list of members.
pub open spec fn member_named(members: Seq<(Seq<char>, Tree)>, name: Seq<char>) -> Option<Tree>
    decreases members.len(),
{
    if members.len() == 0 {
        None
    } else if members[0].0 == name {
        Some(members[0].1)
    } else {
        member_named(members.drop_first(), name)
    }
}

/// The member of that name, where the document is an object that has one.
pub open spec fn tree_member(tree: Tree, name: Seq<char>) -> Option<Tree> {
    match tree {
        Tree::Object(members) => member_named(members, name),
        _ => None,
    }
}

/// The document as a signed integer, where it is one that 64 bits hold.
pub open spec fn tree_integer(tree: Tree) -> Option<i64> {
    match tree {
        Tree::Number(NumberModel::Unsigned(value)) => if value <= i64::MAX {
            Some(value as i64)
        } else {
            None
        },
        Tree::Number(NumberModel::Negative(value)) => Some(value),
        _ => None,
    }
}

/// The document as an unsigned integer, where it is one.
pub open spec fn tree_natural(tree: Tree) -> Option<u64> {
    match tree {
        Tree::Number(NumberModel::Unsigned(value)) => Some(value),
        _ => None,
    }
}

/// The document as a text, where it is one.
pub open spec fn tree_text(tree: Tree) -> Option<Seq<char>> {
    match tree {
        Tree::Text(text) => Some(text),
        _ => None,
    }
}

/// The document that is an unsigned integer.
pub open spec fn natural(value: int) -> Tree {
    Tree::Number(NumberModel::Unsigned(value as u64))
}

/// The document that is a signed integer.
pub open spec fn integer(value: int) -> Tree {
    if value < 0 {
        Tree::Number(NumberModel::Negative(value as i64))
    } else {
        natural(value)
    }
}

impl Json {
    /// The member of that name, where this is an object that has one.
    pub fn get(&self, name: &str) -> (result: Option<&Json>)
        ensures
            match result {
                Some(value) => tree_member(self.tree(), name@) == Some(value.tree()),
                None => tree_member(self.tree(), name@) is None,
            },
    {
        match self {
            Json::Object(members) => {
                let ghost all = self.tree()->Object_0;
                let mut index: usize = 0;
                proof {
                    assert(all.skip(0) =~= all);
                }
                while index < members.len()
                    invariant
                        index <= members@.len(),
                        all == self.tree()->Object_0,
                        self.tree() is Object,
                        *self == Json::Object(*members),
                        member_named(all, name@) == member_named(all.skip(index as int), name@),
                    decreases members@.len() - index,
                {
                    proof {
                        assert(all[index as int] == (
                            members@[index as int].name@,
                            members@[index as int].value.tree(),
                        ));
                        assert(all.skip(index as int).drop_first() =~= all.skip(index + 1));
                    }
                    if same_text(members[index].name.as_str(), name) {
                        return Some(&members[index].value);
                    }
                    index = index + 1;
                }
                None
            },
            _ => None,
        }
    }

    /// This document as a signed integer, where it is one that 64 bits hold.
    pub fn as_i64(&self) -> (result: Option<i64>)
        ensures
            result == tree_integer(self.tree()),
    {
        match self {
            Json::Number(Number::Unsigned(value)) => if *value <= i64::MAX as u64 {
                Some(*value as i64)
            } else {
                None
            },
            Json::Number(Number::Negative(value)) => Some(*value),
            _ => None,
        }
    }

    /// This document as an unsigned integer, where it is one.
    pub fn as_u64(&self) -> (result: Option<u64>)
        ensures
            result == tree_natural(self.tree()),
    {
        match self {
            Json::Number(Number::Unsigned(value)) => Some(*value),
            _ => None,
        }
    }

    /// This document as a text, where it is one.
    pub fn as_str(&self) -> (result: Option<&str>)
        ensures
            match result {
                Some(text) => tree_text(self.tree()) == Some(text@),
                None => tree_text(self.tree()) is None,
            },
    {
        match self {
            Json::Text(text) => Some(text.as_str()),
            _ => None,
        }
    }

    /// A copy of this document.
    pub fn duplicate(&self) -> (result: Json)
        ensures
            result.tree() == self.tree(),
        decreases self,
    {
        match self {
            Json::Null => Json::Null,
            Json::Bool(value) => Json::Bool(*value),
            Json::Number(Number::Unsigned(value)) => Json::Number(Number::Unsigned(*value)),
            Json::Number(Number::Negative(value)) => Json::Number(Number::Negative(*value)),
            Json::Number(Number::Decimal(text)) => Json::Number(Number::Decimal(text.clone())),
            Json::Text(text) => Json::Text(text.clone()),
            Json::Array(items) => {
                let mut copies: Vec<Json> = Vec::new();
                let mut index: usize = 0;
                while index < items.len()
                    invariant
                        index <= items@.len(),
                        *self == Json::Array(*items),
                        copies@.len() == index,
                        forall|i: int|
                            0 <= i < index ==> (#[trigger] copies@[i]).tree() == items@[i].tree(),
                    decreases items@.len() - index,
                {
                    assert(self->Array_0 == *items);
                    assert(decreases_to!(self => items@[index as int]));
                    copies.push(items[index].duplicate());
                    index = index + 1;
                }
                let result = Json::Array(copies);
                assert(result.tree()->Array_0 =~= self.tree()->Array_0);
                result
            },
            Json::Object(members) => {
                let mut copies: Vec<Member> = Vec::new();
                let mut index: usize = 0;
                while index < members.len()
                    invariant
                        index <= members@.len(),
                        *self == Json::Object(*members),
                        copies@.len() == index,
                        forall|i: int|
                            #![trigger copies@[i]]
                            0 <= i < index ==> copies@[i].name@ == members@[i].name@
                                && copies@[i].value.tree() == members@[i].value.tree(),
                    decreases members@.len() - index,
                {
                    assert(self->Object_0 == *members);
                    assert(decreases_to!(self => members@[index as int].value));
                    copies.push(
                        Member {
                            name: members[index].name.clone(),
                            value: members[index].value.duplicate(),
                        },
                    );
                    index = index + 1;
                }
                let result = Json::Object(copies);
                assert(result.tree()->Object_0 =~= self.tree()->Object_0);
                result
            },
        }
    }

    /// The text as a document.
    pub fn text(text: &str) -> (result: Json)
        ensures
            result.tree() == Tree::Text(text@),
    {
        Json::Text(text.to_owned())
    }

    /// The number as a document.
    pub fn unsigned(value: u64) -> (result: Json)
        ensures
            result.tree() == natural(value as int),
    {
        Json::Number(Number::Unsigned(value))
    }

    /// The number as a document.
    pub fn signed(value: i64) -> (result: Json)
        ensures
            result.tree() == integer(value as int),
    {
        if value < 0 {
            Json::Number(Number::Negative(value))
        } else {
            Json::Number(Number::Unsigned(value as u64))
        }
    }

    /// The object without members.
    pub fn empty() -> (result: Json)
        ensures
            result.tree() == Tree::Object(seq![]),
    {
        let result = Json::Object(Vec::new());
        assert(result.tree()->Object_0 =~= seq![]);
        result
    }

    /// This object with one more member at its end.
    pub fn with(self, name: &str, value: Json) -> (result: Json)
        requires
            self.tree() is Object,
        ensures
            result.tree() == Tree::Object(self.tree()->Object_0.push((name@, value.tree()))),
    {
        let ghost before = self.tree()->Object_0;
        let ghost value_tree = value.tree();
        match self {
            Json::Object(members) => {
                let ghost old_members = members@;
                let mut members = members;
                members.push(Member { name: name.to_owned(), value });
                let result = Json::Object(members);
                assert(result.tree()->Object_0 =~= before.push((name@, value_tree)));
                result
            },
            other => other,
        }
    }
}

impl Json {
    /// This ordered object with one more member put in: it replaces the member of its name, or
    /// else stands where the order of names puts it.
    pub fn put(self, name: &str, value: Json) -> (result: Json)
        requires
            self.tree() is Object,
        ensures
            result.tree() == Tree::Object(
                member_put(self.tree()->Object_0, name@, value.tree()),
            ),
    {
        let ghost all = self.tree()->Object_0;
        let ghost value_tree = value.tree();
        match self {
            Json::Object(members) => {
                let mut members = members;
                let mut index: usize = 0;
                proof {
                    assert(all.take(0) + member_put(all.skip(0), name@, value_tree) =~= member_put(
                        all,
                        name@,
                        value_tree,
                    )) by {
                        assert(all.skip(0) =~= all);
                    }
                }
                while index < members.len() && !same_text(members[index].name.as_str(), name)
                    && !precedes(name, members[index].name.as_str())
                    invariant
                        index <= members@.len(),
                        all == Json::Object(members).tree()->Object_0,
                        member_put(all, name@, value_tree) == all.take(index as int) + member_put(
                            all.skip(index as int),
                            name@,
                            value_tree,
                        ),
                    decreases members@.len() - index,
                {
                    proof {
                        let rest = all.skip(index as int);
                        assert(all[index as int].0 == members@[index as int].name@);
                        assert(rest[0] == all[index as int]);
                        assert(rest.drop_first() =~= all.skip(index + 1));
                        assert(all.take(index as int) + (seq![rest[0]] + member_put(
                            rest.drop_first(),
                            name@,
                            value_tree,
                        )) =~= all.take(index + 1) + member_put(
                            all.skip(index + 1),
                            name@,
                            value_tree,
                        ));
                    }
                    index = index + 1;
                }
                let ghost rest = all.skip(index as int);
                let ghost before = members@;
                let member = Member { name: name.to_owned(), value };
                if index < members.len() {
                    proof {
                        assert(rest[0].0 == members@[index as int].name@);
                    }
                    if same_text(members[index].name.as_str(), name) {
                        members.remove(index);
                    }
                }
                members.insert(index, member);
                let result = Json::Object(members);
                proof {
                    assert(result.tree()->Object_0 =~= all.take(index as int) + member_put(
                        rest,
                        name@,
                        value_tree,
                    ));
                }
                result
            },
            other => other,
        }
    }
}

/// A value of `serde_json`, which reads and writes documents.
#[verifier::external_type_specification]
#[verifier::external_body]
pub struct ExValue(serde_json::Value);

/// The error of `serde_json`.
#[verifier::external_type_specification]
#[verifier::external_body]
pub struct ExJsonError(JsonError);

/// The document that a `serde_json::Value` holds.
pub uninterp spec fn value_tree(value: serde_json::Value) -> Tree;

/// The number that `serde_json::Number::from_str` reads from a text.
pub uninterp spec fn number_read(text: Seq<char>) -> Option<NumberModel>;

/// The document that `serde_json::from_slice` reads from bytes.
pub uninterp spec fn document_read(bytes: Seq<u8>) -> Option<Tree>;

/// The bytes that `serde_json::to_vec` writes for a document.
pub uninterp spec fn document_written(tree: Tree) -> Seq<u8>;

/// The members of an ordered object after one more is put in: it replaces the member of its
/// name, or else stands where the order of names puts it.
pub open spec fn member_put(
    members: Seq<(Seq<char>, Tree)>,
    name: Seq<char>,
    value: Tree,
) -> Seq<(Seq<char>, Tree)>
    decreases members.len(),
{
    if members.len() == 0 {
        seq![(name, value)]
    } else if members[0].0 == name {
        seq![(name, value)] + members.drop_first()
    } else if crate::text::text_before(name, members[0].0) {
        seq![(name, value)] + members
    } else {
        seq![members[0]] + member_put(members.drop_first(), name, value)
    }
}

/// The members of the ordered object that a list of members makes up, put in one by one.
pub open spec fn members_put(members: Seq<(Seq<char>, Tree)>) -> Seq<(Seq<char>, Tree)>
    decreases members.len(),
{
    if members.len() == 0 {
        seq![]
    } else {
        member_put(members_put(members.drop_last()), members.last().0, members.last().1)
    }
}

/// The number as `serde_json` holds it, where it takes it.
pub open spec fn normal_number(number: NumberModel) -> Option<NumberModel> {
    match number {
        NumberModel::Unsigned(value) => Some(number),
        NumberModel::Negative(value) => if value < 0 {
            Some(number)
        } else {
            Some(NumberModel::Unsigned(value as u64))
        },
        NumberModel::Decimal(text) => number_read(text),
    }
}

/// The document as `serde_json` holds it, where it takes every number in it: the members of
/// each object in the order of their names, one of each name.
pub open spec fn normal(tree: Tree) -> Option<Tree>
    decreases tree,
{
    match tree {
        Tree::Number(number) => match normal_number(number) {
            Some(held) => Some(Tree::Number(held)),
            None => None,
        },
        Tree::Array(items) => match normal_items(items) {
            Some(held) => Some(Tree::Array(held)),
            None => None,
        },
        Tree::Object(members) => match normal_members(members) {
            Some(held) => Some(Tree::Object(held)),
            None => None,
        },
        other => Some(other),
    }
}

/// The items of an array as `serde_json` holds them.
pub open spec fn normal_items(items: Seq<Tree>) -> Option<Seq<Tree>>
    decreases items,
{
    if items.len() == 0 {
        Some(seq![])
    } else {
        match (normal_items(items.drop_last()), normal(items.last())) {
            (Some(front), Some(held)) => Some(front.push(held)),
            _ => None,
        }
    }
}

/// The members of an object as `serde_json` holds them.
pub open spec fn normal_members(members: Seq<(Seq<char>, Tree)>) -> Option<
    Seq<(Seq<char>, Tree)>,
>
    decreases members,
{
    if members.len() == 0 {
        Some(seq![])
    } else {
        match (normal_members(members.drop_last()), normal(members.last().1)) {
            (Some(front), Some(held)) => Some(member_put(front, members.last().0, held)),
            _ => None,
        }
    }
}

/// Whether names stand in strictly ascending order.
pub open spec fn names_ascend(members: Seq<(Seq<char>, Tree)>) -> bool {
    forall|i: int, j: int|
        0 <= i < j < members.len() ==> crate::text::text_before(#[trigger] members[i].0, #[trigger] members[j].0)
}

/// The name that makes `serde_json` read an object as the document in the text of that member,
/// where it is the first name of the object.
pub open spec fn raw_name() -> Seq<char> {
    "$serde_json::private::RawValue"@
}

/// Whether a document holds integers only, keeps the members of each object in the order of
/// their names, begins no object with the name that stands for a raw document, and nests no
/// deeper than so many levels.
pub open spec fn plain(tree: Tree, levels: nat) -> bool
    decreases tree,
{
    match tree {
        Tree::Number(NumberModel::Negative(value)) => value < 0,
        Tree::Number(NumberModel::Decimal(text)) => false,
        Tree::Array(items) => {
            &&& levels > 0
            &&& forall|i: int|
                0 <= i < items.len() ==> plain(#[trigger] items[i], (levels - 1) as nat)
        },
        Tree::Object(members) => {
            &&& levels > 0
            &&& names_ascend(members)
            &&& members.len() > 0 ==> members[0].0 != raw_name()
            &&& forall|i: int|
                0 <= i < members.len() ==> plain((#[trigger] members[i]).1, (levels - 1) as nat)
        },
        _ => true,
    }
}

/// The nesting that `serde_json` reads.
pub const READ_LEVELS: u64 = 127;

/// A document of `serde_json` opened by one level: the parts of an array or an object are
/// still values of `serde_json`.
pub(crate) enum Opened {
    Null,
    Bool(bool),
    Number(Number),
    Text(String),
    Array(Vec<serde_json::Value>),
    Object(Vec<(String, serde_json::Value)>),
}

/// The members of an opened object.
pub(crate) open spec fn opened_members(
    members: Seq<(String, serde_json::Value)>,
) -> Seq<(Seq<char>, Tree)> {
    members.map_values(|member: (String, serde_json::Value)| (member.0@, value_tree(member.1)))
}

/// The document that was opened.
pub(crate) open spec fn opened_tree(opened: Opened) -> Tree {
    match opened {
        Opened::Null => Tree::Null,
        Opened::Bool(value) => Tree::Bool(value),
        Opened::Number(number) => Tree::Number(number@),
        Opened::Text(text) => Tree::Text(text@),
        Opened::Array(items) => Tree::Array(
            items@.map_values(|value: serde_json::Value| value_tree(value)),
        ),
        Opened::Object(members) => Tree::Object(opened_members(members@)),
    }
}

/// Takes a `serde_json::Value` apart by one level: its variant, the repr of a number, the
/// items of an array, the entries of a `serde_json::Map` in the order of its iterator, which
/// is that of the names.
#[verifier::external_body]
fn open_value(value: serde_json::Value) -> (opened: Opened)
    ensures
        opened_tree(opened) == value_tree(value),
        opened matches Opened::Object(members) ==> names_ascend(opened_members(members@)),
{
    match value {
        serde_json::Value::Null => Opened::Null,
        serde_json::Value::Bool(value) => Opened::Bool(value),
        serde_json::Value::Number(number) => Opened::Number(match (number.as_u64(), number.as_i64()) {
            (Some(value), _) => Number::Unsigned(value),
            (None, Some(value)) => Number::Negative(value),
            (None, None) => Number::Decimal(number.to_string()),
        }),
        serde_json::Value::String(text) => Opened::Text(text),
        serde_json::Value::Array(items) => Opened::Array(items),
        serde_json::Value::Object(members) => Opened::Object(members.into_iter().collect()),
    }
}

/// Puts a `serde_json::Value` together from its parts. A number that stands as a decimal text
/// goes through `serde_json::Number::from_str`, which alone can fail. The members of an object
/// go one by one into a `serde_json::Map`, which keeps them in the order of their names and
/// replaces one of the same name.
#[verifier::external_body]
fn close_value(opened: Opened) -> (value: Result<serde_json::Value, JsonError>)
    ensures
        match opened {
            Opened::Number(Number::Decimal(text)) => match number_read(text@) {
                Some(held) => value is Ok && value_tree(value->Ok_0) == Tree::Number(held),
                None => value is Err,
            },
            Opened::Number(Number::Negative(number)) => value is Ok && value_tree(value->Ok_0)
                == integer(number as int),
            Opened::Object(members) => value is Ok && value_tree(value->Ok_0) == Tree::Object(
                members_put(opened_members(members@)),
            ),
            _ => value is Ok && value_tree(value->Ok_0) == opened_tree(opened),
        },
{
    Ok(match opened {
        Opened::Null => serde_json::Value::Null,
        Opened::Bool(value) => serde_json::Value::Bool(value),
        Opened::Number(Number::Unsigned(value)) => serde_json::Value::Number(value.into()),
        Opened::Number(Number::Negative(value)) => serde_json::Value::Number(value.into()),
        Opened::Number(Number::Decimal(text)) => serde_json::Value::Number(text.parse()?),
        Opened::Text(text) => serde_json::Value::String(text),
        Opened::Array(items) => serde_json::Value::Array(items),
        Opened::Object(members) => serde_json::Value::Object(members.into_iter().collect()),
    })
}

/// Calls `serde_json::from_slice` for a `serde_json::Value`: what it reads, and whether it
/// reads anything, depends on the bytes alone.
#[verifier::external_body]
fn parse_value(bytes: &[u8]) -> (value: Result<serde_json::Value, JsonError>)
    ensures
        match document_read(bytes@) {
            Some(tree) => value is Ok && value_tree(value->Ok_0) == tree,
            None => value is Err,
        },
{
    serde_json::from_slice(bytes)
}

/// Calls `serde_json::to_vec` on a `serde_json::Value`, which cannot fail on one. What it
/// writes depends on the document alone, and `serde_json::from_slice` reads it back where the
/// document holds integers only, begins no object with the name that stands for a raw document,
/// and nests no deeper than the reader goes. Nothing is claimed of how other documents are read back.
#[verifier::external_body]
fn print_value(value: &serde_json::Value) -> (bytes: Result<Vec<u8>, JsonError>)
    ensures
        bytes is Ok,
        bytes->Ok_0@ == document_written(value_tree(*value)),
        plain(value_tree(*value), READ_LEVELS as nat) ==> document_read(bytes->Ok_0@) == Some(
            value_tree(*value),
        ),
{
    serde_json::to_vec(value)
}

/// The document that a value of `serde_json` holds.
pub fn json_of(value: serde_json::Value) -> (json: Json)
    ensures
        json.tree() == value_tree(value),
    decreases value_tree(value),
{
    let ghost tree = value_tree(value);
    match open_value(value) {
        Opened::Null => Json::Null,
        Opened::Bool(value) => Json::Bool(value),
        Opened::Number(number) => Json::Number(number),
        Opened::Text(text) => Json::Text(text),
        Opened::Array(values) => {
            let mut values = values;
            let mut items: Vec<Json> = Vec::new();
            let ghost all = values@;
            while values.len() > 0
                invariant
                    tree == Tree::Array(
                        all.map_values(|value: serde_json::Value| value_tree(value)),
                    ),
                    tree == value_tree(value),
                    values@.len() + items@.len() == all.len(),
                    values@ == all.skip(items@.len() as int),
                    forall|i: int|
                        0 <= i < items@.len() ==> (#[trigger] items@[i]).tree() == value_tree(
                            all[i],
                        ),
                decreases values@.len(),
            {
                let part = values.remove(0);
                proof {
                    let k = items@.len() as int;
                    assert(tree->Array_0[k] == value_tree(part));
                    assert(decreases_to!(tree => tree->Array_0[k]));
                }
                items.push(json_of(part));
            }
            let json = Json::Array(items);
            assert(json.tree()->Array_0 =~= tree->Array_0);
            json
        },
        Opened::Object(values) => {
            let mut values = values;
            let mut members: Vec<Member> = Vec::new();
            let ghost all = values@;
            while values.len() > 0
                invariant
                    tree == Tree::Object(opened_members(all)),
                    tree == value_tree(value),
                    values@.len() + members@.len() == all.len(),
                    values@ == all.skip(members@.len() as int),
                    forall|i: int|
                        #![trigger members@[i]]
                        0 <= i < members@.len() ==> members@[i].value.tree() == value_tree(all[i].1)
                            && members@[i].name@ == all[i].0@,
                decreases values@.len(),
            {
                let (name, part) = values.remove(0);
                proof {
                    let k = members@.len() as int;
                    assert(tree->Object_0[k] == (name@, value_tree(part)));
                    assert(decreases_to!(tree => tree->Object_0[k].1));
                }
                members.push(Member { name, value: json_of(part) });
            }
            let json = Json::Object(members);
            assert(json.tree()->Object_0 =~= tree->Object_0);
            json
        },
    }
}

/// The value of `serde_json` that holds this document. It fails only where a decimal text in
/// it is no number.
pub fn value_of(json: &Json) -> (value: Result<serde_json::Value, JsonError>)
    ensures
        match normal(json.tree()) {
            Some(tree) => value is Ok && value_tree(value->Ok_0) == tree,
            None => value is Err,
        },
    decreases json,
{
    match json {
        Json::Null => close_value(Opened::Null),
        Json::Bool(value) => close_value(Opened::Bool(*value)),
        Json::Number(Number::Unsigned(value)) => close_value(
            Opened::Number(Number::Unsigned(*value)),
        ),
        Json::Number(Number::Negative(value)) => close_value(
            Opened::Number(Number::Negative(*value)),
        ),
        Json::Number(Number::Decimal(text)) => close_value(
            Opened::Number(Number::Decimal(text.clone())),
        ),
        Json::Text(text) => close_value(Opened::Text(text.clone())),
        Json::Array(items) => {
            let ghost trees = json.tree()->Array_0;
            let mut values: Vec<serde_json::Value> = Vec::new();
            let mut index: usize = 0;
            while index < items.len()
                invariant
                    index <= items@.len(),
                    *json == Json::Array(*items),
                    trees == json.tree()->Array_0,
                    values@.len() == index,
                    forall|i: int|
                        #![trigger values@[i]]
                        0 <= i < index ==> normal(trees[i]) == Some(value_tree(values@[i])),
                decreases items@.len() - index,
            {
                assert(decreases_to!(json => items@[index as int]));
                assert(trees[index as int] == items@[index as int].tree());
                match value_of(&items[index]) {
                    Ok(value) => values.push(value),
                    Err(error) => {
                        proof {
                            lemma_unreadable_item(trees, index as int);
                        }
                        return Err(error);
                    },
                }
                index = index + 1;
            }
            proof {
                let held = values@.map_values(|value: serde_json::Value| value_tree(value));
                assert forall|i: int| 0 <= i < trees.len() implies #[trigger] normal(trees[i])
                    == Some(held[i]) by {
                    assert(held[i] == value_tree(values@[i]));
                }
                lemma_normal_array(trees, held);
            }
            close_value(Opened::Array(values))
        },
        Json::Object(members) => {
            let ghost trees = json.tree()->Object_0;
            let mut values: Vec<(String, serde_json::Value)> = Vec::new();
            let mut index: usize = 0;
            while index < members.len()
                invariant
                    index <= members@.len(),
                    *json == Json::Object(*members),
                    trees == json.tree()->Object_0,
                    values@.len() == index,
                    forall|i: int|
                        #![trigger values@[i]]
                        0 <= i < index ==> normal(trees[i].1) == Some(value_tree(values@[i].1))
                            && trees[i].0 == values@[i].0@,
                decreases members@.len() - index,
            {
                assert(decreases_to!(json => members@[index as int].value));
                assert(trees[index as int] == (
                    members@[index as int].name@,
                    members@[index as int].value.tree(),
                ));
                match value_of(&members[index].value) {
                    Ok(value) => values.push((members[index].name.clone(), value)),
                    Err(error) => {
                        proof {
                            lemma_unreadable_member(trees, index as int);
                        }
                        return Err(error);
                    },
                }
                index = index + 1;
            }
            proof {
                let held = opened_members(values@);
                assert forall|i: int| 0 <= i < trees.len() implies (#[trigger] trees[i]).0
                    == held[i].0 && normal(trees[i].1) == Some(held[i].1) by {
                    assert(held[i] == (values@[i].0@, value_tree(values@[i].1)));
                }
                lemma_normal_object(trees, held);
            }
            close_value(Opened::Object(values))
        },
    }
}

proof fn lemma_unreadable_item(items: Seq<Tree>, index: int)
    requires
        0 <= index < items.len(),
        normal(items[index]) is None,
    ensures
        normal(Tree::Array(items)) is None,
        normal_items(items) is None,
    decreases items.len(),
{
    if index < items.len() - 1 {
        lemma_unreadable_item(items.drop_last(), index);
    }
}

proof fn lemma_unreadable_member(members: Seq<(Seq<char>, Tree)>, index: int)
    requires
        0 <= index < members.len(),
        normal(members[index].1) is None,
    ensures
        normal(Tree::Object(members)) is None,
        normal_members(members) is None,
    decreases members.len(),
{
    if index < members.len() - 1 {
        lemma_unreadable_member(members.drop_last(), index);
    }
}

proof fn lemma_normal_array(items: Seq<Tree>, held: Seq<Tree>)
    requires
        items.len() == held.len(),
        forall|i: int| 0 <= i < items.len() ==> normal(#[trigger] items[i]) == Some(held[i]),
    ensures
        normal(Tree::Array(items)) == Some(Tree::Array(held)),
        normal_items(items) == Some(held),
    decreases items.len(),
{
    if items.len() > 0 {
        assert(normal(items[items.len() - 1]) == Some(held[items.len() - 1]));
        lemma_normal_array(items.drop_last(), held.drop_last());
        assert(held.drop_last().push(held.last()) =~= held);
    } else {
        assert(held =~= seq![]);
    }
}

proof fn lemma_normal_object(members: Seq<(Seq<char>, Tree)>, held: Seq<(Seq<char>, Tree)>)
    requires
        members.len() == held.len(),
        forall|i: int|
            #![trigger members[i]]
            0 <= i < members.len() ==> members[i].0 == held[i].0 && normal(members[i].1) == Some(
                held[i].1,
            ),
    ensures
        normal(Tree::Object(members)) == Some(Tree::Object(members_put(held))),
        normal_members(members) == Some(members_put(held)),
    decreases members.len(),
{
    if members.len() > 0 {
        assert(normal(members[members.len() - 1].1) == Some(held[members.len() - 1].1));
        lemma_normal_object(members.drop_last(), held.drop_last());
    }
}

/// Reads a document from bytes.
pub fn read_json(bytes: &[u8]) -> (json: Result<Json, JsonError>)
    ensures
        match document_read(bytes@) {
            Some(tree) => json is Ok && json->Ok_0.tree() == tree,
            None => json is Err,
        },
{
    match parse_value(bytes) {
        Ok(value) => Ok(json_of(value)),
        Err(error) => Err(error),
    }
}

/// Writes a document as bytes.
pub fn write_json(json: &Json) -> (bytes: Result<Vec<u8>, JsonError>)
    ensures
        match normal(json.tree()) {
            Some(tree) => {
                &&& bytes is Ok
                &&& bytes->Ok_0@ == document_written(tree)
                &&& plain(tree, READ_LEVELS as nat) ==> document_read(bytes->Ok_0@) == Some(tree)
            },
            None => bytes is Err,
        },
{
    match value_of(json) {
        Ok(value) => print_value(&value),
        Err(error) => Err(error),
    }
}

proof fn lemma_put_last(members: Seq<(Seq<char>, Tree)>, name: Seq<char>, value: Tree)
    requires
        forall|i: int| 0 <= i < members.len() ==> crate::text::text_before((#[trigger] members[i]).0, name),
    ensures
        member_put(members, name, value) == members.push((name, value)),
    decreases members.len(),
{
    if members.len() > 0 {
        crate::text::lemma_text_order_asymmetric(members[0].0, name);
        assert forall|i: int| 0 <= i < members.drop_first().len() implies crate::text::text_before(
            (#[trigger] members.drop_first()[i]).0,
            name,
        ) by {
            assert(members.drop_first()[i] == members[i + 1]);
        }
        lemma_put_last(members.drop_first(), name, value);
        assert(seq![members[0]] + members.drop_first().push((name, value)) =~= members.push(
            (name, value),
        ));
    } else {
        assert(members.push((name, value)) =~= seq![(name, value)]);
    }
}

proof fn lemma_put_ordered(members: Seq<(Seq<char>, Tree)>)
    requires
        names_ascend(members),
    ensures
        members_put(members) == members,
    decreases members.len(),
{
    if members.len() > 0 {
        let front = members.drop_last();
        assert forall|i: int, j: int| 0 <= i < j < front.len() implies crate::text::text_before(
            #[trigger] front[i].0,
            #[trigger] front[j].0,
        ) by {
            assert(crate::text::text_before(members[i].0, members[j].0));
        }
        lemma_put_ordered(front);
        assert forall|i: int| 0 <= i < front.len() implies crate::text::text_before(
            (#[trigger] front[i]).0,
            members.last().0,
        ) by {
            assert(crate::text::text_before(members[i].0, members[members.len() - 1].0));
        }
        lemma_put_last(front, members.last().0, members.last().1);
        assert(front.push(members.last()) =~= members);
    } else {
        assert(members =~= seq![]);
    }
}

/// `serde_json` holds a plain document as it stands.
pub proof fn law_plain_documents_are_kept(tree: Tree, levels: nat)
    requires
        plain(tree, levels),
    ensures
        normal(tree) == Some(tree),
    decreases tree,
{
    match tree {
        Tree::Array(items) => {
            assert forall|i: int| 0 <= i < items.len() implies normal(#[trigger] items[i]) == Some(
                items[i],
            ) by {
                law_plain_documents_are_kept(items[i], (levels - 1) as nat);
            }
            lemma_normal_array(items, items);
        },
        Tree::Object(members) => {
            assert forall|i: int|
                #![trigger members[i]]
                0 <= i < members.len() implies members[i].0 == members[i].0 && normal(members[i].1)
                == Some(members[i].1) by {
                assert(decreases_to!(tree => members[i].1));
                law_plain_documents_are_kept(members[i].1, (levels - 1) as nat);
            }
            lemma_normal_object(members, members);
            lemma_put_ordered(members);
        },
        _ => {},
    }
}

/// A member is found under its name: of several of one name the first, and none where none has it.
pub proof fn law_members_are_found(
    members: Seq<(Seq<char>, Tree)>,
    name: Seq<char>,
    first: int,
)
    requires
        0 <= first <= members.len(),
        forall|i: int| 0 <= i < first ==> (#[trigger] members[i]).0 != name,
        first < members.len() ==> members[first].0 == name,
    ensures
        tree_member(Tree::Object(members), name) == (if first < members.len() {
            Some(members[first].1)
        } else {
            None
        }),
    decreases first,
{
    if first > 0 {
        let rest = members.drop_first();
        assert(members[0].0 != name);
        assert forall|i: int| 0 <= i < first - 1 implies (#[trigger] rest[i]).0 != name by {
            assert(rest[i] == members[i + 1]);
        }
        law_members_are_found(rest, name, first - 1);
    }
}

/// A whole number reads back from its document: one that is not negative as unsigned, and any that
/// sixty-three bits and a sign hold as signed.
pub proof fn law_whole_numbers_read_back(value: int)
    ensures
        0 <= value <= u64::MAX ==> tree_natural(natural(value)) == Some(value as u64),
        i64::MIN <= value <= i64::MAX ==> tree_integer(integer(value)) == Some(value as i64),
        i64::MIN <= value < 0 ==> tree_natural(integer(value)) is None,
        i64::MAX < value <= u64::MAX ==> tree_integer(natural(value)) is None,
{
}

/// A member that is put into an object is found there under its name, and every other member is
/// found as before.
pub proof fn law_members_are_put(
    members: Seq<(Seq<char>, Tree)>,
    name: Seq<char>,
    value: Tree,
    other: Seq<char>,
)
    requires
        other != name,
    ensures
        member_named(member_put(members, name, value), name) == Some(value),
        member_named(member_put(members, name, value), other) == member_named(members, other),
    decreases members.len(),
{
    let put = member_put(members, name, value);
    if members.len() == 0 {
        assert(put.drop_first() =~= members);
    } else if members[0].0 == name {
        assert(put.drop_first() =~= members.drop_first());
    } else if crate::text::text_before(name, members[0].0) {
        assert(put.drop_first() =~= members);
    } else {
        law_members_are_put(members.drop_first(), name, value, other);
        assert(put.drop_first() =~= member_put(members.drop_first(), name, value));
    }
}

/// Members that stand in the order of their names, one of each, stand so after one more is put in.
pub proof fn law_order_is_kept(members: Seq<(Seq<char>, Tree)>, name: Seq<char>, value: Tree)
    requires
        names_ascend(members),
    ensures
        names_ascend(member_put(members, name, value)),
        forall|i: int|
            0 <= i < member_put(members, name, value).len() ==> (#[trigger] member_put(
                members,
                name,
                value,
            )[i]).0 == name || exists|j: int|
                0 <= j < members.len() && members[j].0 == member_put(members, name, value)[i].0,
    decreases members.len(),
{
    let put = member_put(members, name, value);
    if members.len() > 0 {
        let rest = members.drop_first();
        let first = members[0].0;
        assert forall|i: int| 0 < i < members.len() implies crate::text::text_before(
            first,
            #[trigger] members[i].0,
        ) by {
            assert(crate::text::text_before(members[0].0, members[i].0));
        }
        if first == name {
            assert forall|i: int, j: int| 0 <= i < j < put.len() implies crate::text::text_before(
                #[trigger] put[i].0,
                #[trigger] put[j].0,
            ) by {
                assert(put[j].0 == members[j].0);
                assert(put[i].0 == members[i].0);
            }
            assert forall|i: int| 0 <= i < put.len() implies (#[trigger] put[i]).0 == name
                || exists|j: int| 0 <= j < members.len() && members[j].0 == put[i].0 by {
                assert(put[i].0 == members[i].0);
            }
        } else if crate::text::text_before(name, first) {
            assert forall|i: int, j: int| 0 <= i < j < put.len() implies crate::text::text_before(
                #[trigger] put[i].0,
                #[trigger] put[j].0,
            ) by {
                assert(put[j] == members[j - 1]);
                if i > 0 {
                    assert(put[i] == members[i - 1]);
                    assert(crate::text::text_before(members[i - 1].0, members[j - 1].0));
                } else if j > 1 {
                    crate::text::lemma_text_order_transitive(name, first, members[j - 1].0);
                }
            }
            assert forall|i: int| 0 <= i < put.len() implies (#[trigger] put[i]).0 == name
                || exists|j: int| 0 <= j < members.len() && members[j].0 == put[i].0 by {
                if i > 0 {
                    assert(put[i].0 == members[i - 1].0);
                }
            }
        } else {
            assert forall|i: int, j: int| 0 <= i < j < rest.len() implies crate::text::text_before(
                #[trigger] rest[i].0,
                #[trigger] rest[j].0,
            ) by {
                assert(crate::text::text_before(members[i + 1].0, members[j + 1].0));
            }
            law_order_is_kept(rest, name, value);
            let tail = member_put(rest, name, value);
            crate::text::lemma_text_order_total(first, name);
            assert forall|i: int| 0 <= i < tail.len() implies crate::text::text_before(
                first,
                #[trigger] tail[i].0,
            ) by {
                if tail[i].0 != name {
                    let j = choose|j: int| 0 <= j < rest.len() && rest[j].0 == tail[i].0;
                    assert(members[j + 1].0 == tail[i].0);
                }
            }
            assert forall|i: int, j: int| 0 <= i < j < put.len() implies crate::text::text_before(
                #[trigger] put[i].0,
                #[trigger] put[j].0,
            ) by {
                assert(put[j] == tail[j - 1]);
                if i > 0 {
                    assert(put[i] == tail[i - 1]);
                }
            }
            assert forall|i: int| 0 <= i < put.len() implies (#[trigger] put[i]).0 == name
                || exists|j: int| 0 <= j < members.len() && members[j].0 == put[i].0 by {
                if i > 0 {
                    assert(put[i] == tail[i - 1]);
                    if tail[i - 1].0 != name {
                        let j = choose|j: int| 0 <= j < rest.len() && rest[j].0 == tail[i - 1].0;
                        assert(members[j + 1].0 == put[i].0);
                    }
                } else {
                    assert(put[i].0 == members[0].0);
                }
            }
        }
    }
}

} // verus!
