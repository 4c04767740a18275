//! JSON documents as trees that can be read, built and walked.

use crate::text::{
    all_digits, decimal, decimal_is_short, decimal_text, is_digit, same, signed_decimal, signed_text,
    ten_to,
};
use vstd::prelude::*;

verus! {

/// A number that is not whole, held as the text that JSON writes for it.
///
/// The text is always one that `serde_json` wrote, so it is passed on without a change.
#[derive(Debug, Clone, PartialEq, Eq)]
pub struct Number {
    text: String,
}

impl View for Number {
    type V = Seq<char>;

    closed spec fn view(&self) -> Seq<char> {
        self.text@
    }
}

/// A JSON document.
///
/// Two documents are equal where they mean the same, whatever the order of their members.
#[derive(Debug)]
pub enum Json {
    /// The value `null`.
    Null,
    /// `true` or `false`.
    Bool(bool),
    /// A whole number that is not negative.
    Unsigned(u64),
    /// A negative whole number.
    Negative(i64),
    /// Any other number.
    Float(Number),
    /// A string.
    Text(String),
    /// A list.
    Array(Vec<Json>),
    /// Named members. Where a name occurs twice, the later member counts.
    Object(Vec<(String, Json)>),
}

/// What a JSON document means.
#[verifier::ext_equal]
pub enum Tree {
    Null,
    Bool(bool),
    Integer(int),
    Float(Seq<char>),
    Text(Seq<char>),
    Array(Seq<Tree>),
    Object(Map<Seq<char>, Tree>),
}

impl Json {
    /// What this document means.
    pub open spec fn tree(self) -> Tree
        decreases self,
    {
        match self {
            Json::Null => Tree::Null,
            Json::Bool(b) => Tree::Bool(b),
            Json::Unsigned(n) => Tree::Integer(n as int),
            Json::Negative(n) => Tree::Integer(n as int),
            Json::Float(number) => Tree::Float(number@),
            Json::Text(text) => Tree::Text(text@),
            Json::Array(items) => Tree::Array(trees(items@)),
            Json::Object(members) => Tree::Object(member_trees(members@)),
        }
    }
}

/// What each document of a list means.
pub open spec fn trees(items: Seq<Json>) -> Seq<Tree>
    decreases items,
{
    Seq::new(
        items.len(),
        |i: int|
            if 0 <= i < items.len() {
                items[i].tree()
            } else {
                Tree::Null
            },
    )
}

/// What named members mean together: a later member replaces an earlier one of its name.
pub open spec fn member_trees(members: Seq<(String, Json)>) -> Map<Seq<char>, Tree>
    decreases members,
{
    if members.len() == 0 {
        Map::empty()
    } else {
        member_trees(members.drop_last()).insert(members.last().0@, members.last().1.tree())
    }
}

impl DeepView for Json {
    type V = Tree;

    open spec fn deep_view(&self) -> Tree {
        self.tree()
    }
}

impl Tree {
    /// The number that this is, as JSON writes one that need not be whole.
    pub open spec fn as_number(self) -> Option<Seq<char>> {
        match self {
            Tree::Float(text) => Some(text),
            Tree::Integer(n) => number_text(signed_decimal(n)),
            _ => None,
        }
    }

    /// The member of this name, where this is an object that has one.
    pub open spec fn get(self, name: Seq<char>) -> Option<Tree> {
        match self {
            Tree::Object(members) => if members.contains_key(name) {
                Some(members[name])
            } else {
                None
            },
            _ => None,
        }
    }

    /// The text, where this is a string.
    pub open spec fn as_str(self) -> Option<Seq<char>> {
        match self {
            Tree::Text(text) => Some(text),
            _ => None,
        }
    }

    /// The number, where this is a whole number that 64 bits without a sign can hold.
    pub open spec fn as_u64(self) -> Option<u64> {
        match self {
            Tree::Integer(n) => if 0 <= n <= u64::MAX {
                Some(n as u64)
            } else {
                None
            },
            _ => None,
        }
    }

    /// The value, where this is `true` or `false`.
    pub open spec fn as_bool(self) -> Option<bool> {
        match self {
            Tree::Bool(b) => Some(b),
            _ => None,
        }
    }

    /// The items, where this is a list.
    pub open spec fn as_array(self) -> Option<Seq<Tree>> {
        match self {
            Tree::Array(items) => Some(items),
            _ => None,
        }
    }

    /// The text of the member of this name, where there is one and it is a string.
    pub open spec fn text_at(self, name: Seq<char>) -> Option<Seq<char>> {
        match self.get(name) {
            Some(member) => member.as_str(),
            None => None,
        }
    }

    /// The number of the member of this name, where there is one that [`Tree::as_u64`] reads.
    pub open spec fn u64_at(self, name: Seq<char>) -> Option<u64> {
        match self.get(name) {
            Some(member) => member.as_u64(),
            None => None,
        }
    }

    /// The items of the member of this name, where there is one and it is a list.
    pub open spec fn array_at(self, name: Seq<char>) -> Option<Seq<Tree>> {
        match self.get(name) {
            Some(member) => member.as_array(),
            None => None,
        }
    }

    /// This object with one member added or replaced.
    pub open spec fn with(self, name: Seq<char>, value: Tree) -> Tree {
        match self {
            Tree::Object(members) => Tree::Object(members.insert(name, value)),
            _ => Tree::Object(Map::empty().insert(name, value)),
        }
    }

    /// This object without the member of this name.
    pub open spec fn without(self, name: Seq<char>) -> Tree {
        match self {
            Tree::Object(members) => Tree::Object(members.remove(name)),
            other => other,
        }
    }

    /// An object without members.
    pub open spec fn empty_object() -> Tree {
        Tree::Object(Map::empty())
    }

    /// Whether this document holds whole numbers only and nests at most this deep.
    pub open spec fn fits(self, depth: nat) -> bool
        decreases depth,
    {
        match self {
            Tree::Float(_) => false,
            Tree::Array(items) => depth > 0 && forall|i: int|
                0 <= i < items.len() ==> (#[trigger] items[i]).fits((depth - 1) as nat),
            Tree::Object(members) => depth > 0 && forall|name: Seq<char>|
                members.contains_key(name) ==> (#[trigger] members[name]).fits(
                    (depth - 1) as nat,
                ),
            _ => true,
        }
    }
}

/// The deepest nesting that is read back from text.
pub const DEEPEST: usize = 127;

/// A member pushed behind the others replaces an earlier one of its name.
pub proof fn pushed_member(members: Seq<(String, Json)>, member: (String, Json))
    ensures
        member_trees(members.push(member)) == member_trees(members).insert(
            member.0@,
            member.1.tree(),
        ),
{
    assert(members.push(member).drop_last() == members);
}

/// Members mean the same once each of them is replaced by one of its name and meaning.
proof fn same_members(a: Seq<(String, Json)>, b: Seq<(String, Json)>)
    requires
        a.len() == b.len(),
        forall|i: int|
            0 <= i < a.len() ==> (#[trigger] a[i]).0@ == b[i].0@ && a[i].1.tree() == b[i].1.tree(),
    ensures
        member_trees(a) == member_trees(b),
    decreases a.len(),
{
    if a.len() > 0 {
        assert forall|i: int| 0 <= i < a.drop_last().len() implies (#[trigger] a.drop_last()[i]).0@
            == b.drop_last()[i].0@ && a.drop_last()[i].1.tree() == b.drop_last()[i].1.tree() by {
            assert(a.drop_last()[i] == a[i]);
        }
        same_members(a.drop_last(), b.drop_last());
        assert(a.last() == a[a.len() - 1]);
    }
}

/// Members hold a name exactly where one of them has it.
proof fn named_member(members: Seq<(String, Json)>, name: Seq<char>)
    ensures
        member_trees(members).contains_key(name) <==> exists|i: int|
            0 <= i < members.len() && (#[trigger] members[i]).0@ == name,
    decreases members.len(),
{
    if members.len() > 0 {
        named_member(members.drop_last(), name);
        if member_trees(members.drop_last()).contains_key(name) {
            let i = choose|i: int|
                0 <= i < members.drop_last().len() && (#[trigger] members.drop_last()[i]).0@
                    == name;
            assert(members[i].0@ == name);
        }
        assert(members.last() == members[members.len() - 1]);
        assert forall|i: int|
            0 <= i < members.len() && (#[trigger] members[i]).0@ == name implies member_trees(
            members,
        ).contains_key(name) by {
            if i < members.len() - 1 {
                assert(members.drop_last()[i].0@ == name);
            }
        }
    }
}

/// The place of the last member of this name.
fn find(members: &Vec<(String, Json)>, name: &str) -> (found: Option<usize>)
    ensures
        match found {
            Some(i) => {
                &&& i < members.len()
                &&& members[i as int].0@ == name@
                &&& member_trees(members@).contains_key(name@)
                &&& member_trees(members@)[name@] == members[i as int].1.tree()
            },
            None => !member_trees(members@).contains_key(name@),
        },
{
    let mut i: usize = members.len();
    assert(members@.take(i as int) == members@);
    while i > 0
        invariant
            i <= members.len(),
            member_trees(members@).contains_key(name@) == member_trees(
                members@.take(i as int),
            ).contains_key(name@),
            member_trees(members@).contains_key(name@) ==> member_trees(members@)[name@]
                == member_trees(members@.take(i as int))[name@],
        decreases i,
    {
        assert(members@.take(i as int).drop_last() == members@.take(i - 1));
        if same(members[i - 1].0.as_str(), name) {
            return Some(i - 1);
        }
        i -= 1;
    }
    None
}

impl Number {
    /// The same number.
    pub fn copied(&self) -> (copy: Number)
        ensures
            copy@ == self@,
    {
        Number { text: self.text.clone() }
    }

    /// The number as JSON writes it.
    pub fn as_str(&self) -> (text: &str)
        ensures
            text@ == self@,
    {
        self.text.as_str()
    }
}

impl Json {
    /// The member of this name, where this is an object that has one.
    pub fn get(&self, name: &str) -> (member: Option<&Json>)
        ensures
            member.deep_view() == self.tree().get(name@),
    {
        match self {
            Json::Object(members) => match find(members, name) {
                Some(i) => Some(&members[i].1),
                None => None,
            },
            _ => None,
        }
    }

    /// The text, where this is a string.
    pub fn as_str(&self) -> (text: Option<&str>)
        ensures
            text.deep_view() == self.tree().as_str(),
    {
        match self {
            Json::Text(text) => Some(text.as_str()),
            _ => None,
        }
    }

    /// The number, where this is a whole number that 64 bits without a sign can hold.
    pub fn as_u64(&self) -> (number: Option<u64>)
        ensures
            number == self.tree().as_u64(),
    {
        match self {
            Json::Unsigned(n) => Some(*n),
            Json::Negative(n) => if *n >= 0 {
                Some(*n as u64)
            } else {
                None
            },
            _ => None,
        }
    }

    /// The value, where this is `true` or `false`.
    pub fn as_bool(&self) -> (value: Option<bool>)
        ensures
            value == self.tree().as_bool(),
    {
        match self {
            Json::Bool(b) => Some(*b),
            _ => None,
        }
    }

    /// The items, where this is a list.
    pub fn as_array(&self) -> (items: Option<&Vec<Json>>)
        ensures
            items is Some <==> self.tree().as_array() is Some,
            items matches Some(items) ==> Some(trees(items@)) == self.tree().as_array(),
    {
        match self {
            Json::Array(items) => Some(items),
            _ => None,
        }
    }

    /// Whether this is `null`.
    pub fn is_null(&self) -> (yes: bool)
        ensures
            yes == (self.tree() is Null),
    {
        match self {
            Json::Null => true,
            _ => false,
        }
    }

    /// The text of the member of this name, where there is one and it is a string.
    pub fn text_at(&self, name: &str) -> (text: Option<&str>)
        ensures
            text.deep_view() == self.tree().text_at(name@),
    {
        match self.get(name) {
            Some(member) => member.as_str(),
            None => None,
        }
    }

    /// The number of the member of this name, where there is one that [`Json::as_u64`] reads.
    pub fn u64_at(&self, name: &str) -> (number: Option<u64>)
        ensures
            number == self.tree().u64_at(name@),
    {
        match self.get(name) {
            Some(member) => member.as_u64(),
            None => None,
        }
    }

    /// The items of the member of this name, where there is one and it is a list.
    pub fn array_at(&self, name: &str) -> (items: Option<&Vec<Json>>)
        ensures
            items is Some <==> self.tree().array_at(name@) is Some,
            items matches Some(items) ==> Some(trees(items@)) == self.tree().array_at(name@),
    {
        match self.get(name) {
            Some(member) => member.as_array(),
            None => None,
        }
    }

    /// An object without members.
    pub fn object() -> (json: Json)
        ensures
            json.tree() == Tree::empty_object(),
    {
        Json::Object(Vec::new())
    }

    /// A string.
    pub fn text(text: &str) -> (json: Json)
        ensures
            json.tree() == Tree::Text(text@),
    {
        Json::Text(text.to_owned())
    }

    /// This object with one member added or replaced. Anything but an object is replaced by
    /// an object with that one member.
    pub fn with(self, name: &str, value: Json) -> (json: Json)
        ensures
            json.tree() == self.tree().with(name@, value.tree()),
    {
        let mut members: Vec<(String, Json)> = match self {
            Json::Object(members) => members,
            _ => Vec::new(),
        };
        let ghost before = members@;
        members.push((name.to_owned(), value));
        proof {
            pushed_member(before, members@.last());
            assert(members@ == before.push(members@.last()));
        }
        Json::Object(members)
    }

    /// This object without the member of this name.
    pub fn without(self, name: &str) -> (json: Json)
        ensures
            json.tree() == self.tree().without(name@),
    {
        match self {
            Json::Object(members) => {
                let mut kept: Vec<(String, Json)> = Vec::new();
                let mut i: usize = 0;
                while i < members.len()
                    invariant
                        i <= members.len(),
                        member_trees(kept@) == member_trees(members@.take(i as int)).remove(name@),
                    decreases members.len() - i,
                {
                    assert(members@.take(i + 1).drop_last() == members@.take(i as int));
                    if !same(members[i].0.as_str(), name) {
                        let ghost before = kept@;
                        kept.push((members[i].0.clone(), members[i].1.copied()));
                        proof {
                            pushed_member(before, kept@.last());
                            assert(kept@ == before.push(kept@.last()));
                        }
                    }
                    i += 1;
                }
                assert(members@.take(i as int) == members@);
                Json::Object(kept)
            },
            other => other,
        }
    }

    /// Whether two documents mean the same.
    fn means(&self, other: &Json) -> (yes: bool)
        ensures
            yes == (self.tree() == other.tree()),
        decreases self,
    {
        match (self, other) {
            (Json::Null, Json::Null) => true,
            (Json::Bool(a), Json::Bool(b)) => *a == *b,
            (Json::Unsigned(a), Json::Unsigned(b)) => *a == *b,
            (Json::Negative(a), Json::Negative(b)) => *a == *b,
            (Json::Unsigned(a), Json::Negative(b)) => *a as i128 == *b as i128,
            (Json::Negative(a), Json::Unsigned(b)) => *a as i128 == *b as i128,
            (Json::Float(a), Json::Float(b)) => same(a.as_str(), b.as_str()),
            (Json::Text(a), Json::Text(b)) => same(a.as_str(), b.as_str()),
            (Json::Array(a), Json::Array(b)) => {
                if a.len() != b.len() {
                    assert(trees(a@).len() != trees(b@).len());
                    return false;
                }
                let mut i: usize = 0;
                while i < a.len()
                    invariant
                        i <= a.len(),
                        a.len() == b.len(),
                        forall|j: int| 0 <= j < i ==> (#[trigger] a[j]).tree() == b[j].tree(),
                        decreases_to!(self => a@),
                        self.tree() == Tree::Array(trees(a@)),
                        other.tree() == Tree::Array(trees(b@)),
                    decreases a.len() - i,
                {
                    if !a[i].means(&b[i]) {
                        assert(trees(a@)[i as int] != trees(b@)[i as int]);
                        return false;
                    }
                    i += 1;
                }
                assert(trees(a@) == trees(b@));
                true
            },
            (Json::Object(a), Json::Object(b)) => {
                let mut i: usize = 0;
                while i < a.len()
                    invariant
                        i <= a.len(),
                        decreases_to!(self => a@),
                        self.tree() == Tree::Object(member_trees(a@)),
                        other.tree() == Tree::Object(member_trees(b@)),
                        forall|j: int|
                            0 <= j < i ==> member_trees(b@).contains_key((#[trigger] a[j]).0@)
                                && member_trees(a@)[a[j].0@] == member_trees(b@)[a[j].0@],
                    decreases a.len() - i,
                {
                    proof {
                        named_member(a@, a[i as int].0@);
                    }
                    let own = find(a, a[i].0.as_str());
                    let theirs = find(b, a[i].0.as_str());
                    match (own, theirs) {
                        (Some(x), Some(y)) => {
                            assert(decreases_to!(a@ => a@[x as int]));
                            if !a[x].1.means(&b[y].1) {
                                return false;
                            }
                        },
                        _ => {
                            return false;
                        },
                    }
                    i += 1;
                }
                let mut k: usize = 0;
                while k < b.len()
                    invariant
                        k <= b.len(),
                        self.tree() == Tree::Object(member_trees(a@)),
                        other.tree() == Tree::Object(member_trees(b@)),
                        forall|j: int|
                            0 <= j < k ==> member_trees(a@).contains_key((#[trigger] b[j]).0@),
                    decreases b.len() - k,
                {
                    proof {
                        named_member(b@, b[k as int].0@);
                    }
                    if find(a, b[k].0.as_str()).is_none() {
                        return false;
                    }
                    k += 1;
                }
                assert(member_trees(a@) == member_trees(b@)) by {
                    assert forall|name: Seq<char>| #[trigger]
                        member_trees(a@).contains_key(name) == member_trees(b@).contains_key(
                            name,
                        ) && (member_trees(a@).contains_key(name) ==> member_trees(a@)[name]
                            == member_trees(b@)[name]) by {
                        named_member(a@, name);
                        named_member(b@, name);
                    }
                }
                true
            },
            _ => false,
        }
    }

    /// A document that means the same.
    fn copied(&self) -> (copy: Json)
        ensures
            copy.tree() == self.tree(),
        decreases self,
    {
        match self {
            Json::Null => Json::Null,
            Json::Bool(b) => Json::Bool(*b),
            Json::Unsigned(n) => Json::Unsigned(*n),
            Json::Negative(n) => Json::Negative(*n),
            Json::Float(number) => Json::Float(number.copied()),
            Json::Text(text) => Json::Text(text.clone()),
            Json::Array(items) => {
                let mut copies: Vec<Json> = Vec::new();
                let mut i: usize = 0;
                while i < items.len()
                    invariant
                        i <= items.len(),
                        copies.len() == i,
                        forall|j: int| 0 <= j < i ==> (#[trigger] copies[j]).tree() == items[j].tree(),
                        decreases_to!(self => items@),
                    decreases items.len() - i,
                {
                    copies.push(items[i].copied());
                    i += 1;
                }
                assert(trees(copies@) == trees(items@));
                Json::Array(copies)
            },
            Json::Object(members) => {
                let mut copies: Vec<(String, Json)> = Vec::new();
                let mut i: usize = 0;
                while i < members.len()
                    invariant
                        i <= members.len(),
                        copies.len() == i,
                        forall|j: int|
                            0 <= j < i ==> (#[trigger] copies[j]).0@ == members[j].0@
                                && copies[j].1.tree() == members[j].1.tree(),
                        decreases_to!(self => members@),
                    decreases members.len() - i,
                {
                    assert(decreases_to!(members@ => members@[i as int]));
                    copies.push((members[i].0.clone(), members[i].1.copied()));
                    i += 1;
                }
                proof {
                    same_members(copies@, members@);
                }
                Json::Object(copies)
            },
        }
    }
}

impl Clone for Json {
    /// A document that means the same.
    fn clone(&self) -> (copy: Json)
        ensures
            copy.tree() == self.tree(),
    {
        self.copied()
    }
}

/// A JSON value as `serde_json` holds it.
#[verifier::external_type_specification]
#[verifier::external_body]
pub struct ExValue(serde_json::Value);

/// What a value of `serde_json` holds.
pub uninterp spec fn held(value: serde_json::Value) -> Tree;

/// What `serde_json::from_str` reads from a text, or why it refuses the text.
pub uninterp spec fn json_parsed(text: Seq<char>) -> Result<Tree, Seq<char>>;

/// What `serde_json::from_slice` reads from bytes, or why it refuses them.
pub uninterp spec fn json_parsed_bytes(bytes: Seq<u8>) -> Result<Tree, Seq<char>>;

/// What `toml::from_str` reads from a text, or why it refuses the text.
pub uninterp spec fn toml_parsed(text: Seq<char>) -> Result<Tree, Seq<char>>;

/// The text that `serde_json` writes for a document.
pub uninterp spec fn json_text(tree: Tree) -> Seq<char>;

/// The text that `serde_json` writes for the number that a text gives, where it gives a finite
/// one.
pub uninterp spec fn number_text(text: Seq<char>) -> Option<Seq<char>>;

/// What `serde_json::Value::pointer` finds in a document at a JSON pointer.
pub uninterp spec fn pointed(tree: Tree, pointer: Seq<char>) -> Option<Tree>;

/// Whether a JSON pointer names one member and nothing inside it, with nothing escaped.
pub open spec fn names_a_member(pointer: Seq<char>) -> bool {
    pointer.len() > 0 && pointer[0] == '/' && forall|i: int|
        1 <= i < pointer.len() ==> (#[trigger] pointer[i]) != '/' && pointer[i] != '~'
}

/// What was found, taken by what it holds.
pub open spec fn finding(found: Option<serde_json::Value>) -> Option<Tree> {
    match found {
        Some(value) => Some(held(value)),
        None => None,
    }
}

/// Whether a text is an integer of at most twenty digits.
pub open spec fn is_short_integer(text: Seq<char>) -> bool {
    let digits = if text.len() > 0 && text[0] == '-' {
        text.skip(1)
    } else {
        text
    };
    1 <= digits.len() <= 20 && all_digits(digits)
}

/// Whether a text is read as this document. No document is written as an empty text.
pub open spec fn reads_as(text: Seq<char>, tree: Tree) -> bool {
    text.len() > 0 && json_parsed(text) == Ok::<Tree, Seq<char>>(tree)
}

/// What a reading gave, with the value taken by what it holds.
pub open spec fn reading(read: Result<serde_json::Value, String>) -> Result<Tree, Seq<char>> {
    match read {
        Ok(value) => Ok(held(value)),
        Err(why) => Err(why@),
    }
}

/// What a reading gave, with the document taken by what it means.
pub open spec fn meaning(read: Result<Json, String>) -> Result<Tree, Seq<char>> {
    match read {
        Ok(json) => Ok(json.tree()),
        Err(why) => Err(why@),
    }
}

/// Calls `serde_json::from_str`. What comes back depends on the text alone: the value it
/// reads, or the message of its error.
#[verifier::external_body]
fn value_from_text(text: &str) -> (read: Result<serde_json::Value, String>)
    ensures
        reading(read) == json_parsed(text@),
{
    serde_json::from_str(text).map_err(|e| e.to_string())
}

/// Calls `serde_json::from_slice`. What comes back depends on the bytes alone: the value it
/// reads, or the message of its error.
#[verifier::external_body]
fn value_from_bytes(bytes: &[u8]) -> (read: Result<serde_json::Value, String>)
    ensures
        reading(read) == json_parsed_bytes(bytes@),
{
    serde_json::from_slice(bytes).map_err(|e| e.to_string())
}

/// Calls `toml::from_str` for a value of `serde_json`. What comes back depends on the text
/// alone: the value it reads, or the message of its error.
#[verifier::external_body]
fn value_from_toml(text: &str) -> (read: Result<serde_json::Value, String>)
    ensures
        reading(read) == toml_parsed(text@),
{
    toml::from_str(text).map_err(|e| e.to_string())
}

/// Writes a value with its `Display`, which is the compact form of `serde_json::to_string`.
/// The text depends on what the value holds alone.
///
/// Text written for a document of whole numbers that nests no deeper than
/// [`DEEPEST`] is read back by `serde_json::from_str` as the same document. Nothing is said of
/// reading back other numbers, which that function reads with its best effort, nor of deeper
/// documents, which it refuses.
#[verifier::external_body]
fn text_from_value(value: &serde_json::Value) -> (text: String)
    ensures
        text@ == json_text(held(*value)),
        held(*value).fits(DEEPEST as nat) ==> reads_as(text@, held(*value)),
{
    value.to_string()
}

/// The document that a value of `serde_json` holds, variant by variant. A number that is not
/// whole becomes the text that `serde_json::Number` writes for it.
#[verifier::external_body]
fn json_from_value(value: serde_json::Value) -> (json: Json)
    ensures
        json.tree() == held(value),
{
    match value {
        serde_json::Value::Null => Json::Null,
        serde_json::Value::Bool(b) => Json::Bool(b),
        serde_json::Value::Number(n) => match (n.as_u64(), n.as_i64()) {
            (Some(n), _) => Json::Unsigned(n),
            (None, Some(n)) => Json::Negative(n),
            (None, None) => Json::Float(Number { text: n.to_string() }),
        },
        serde_json::Value::String(text) => Json::Text(text),
        serde_json::Value::Array(items) => Json::Array(items.into_iter().map(json_from_value).collect()),
        serde_json::Value::Object(members) => Json::Object(
            members.into_iter().map(|(name, value)| (name, json_from_value(value))).collect(),
        ),
    }
}

/// The value of `serde_json` that holds a document, variant by variant. The text of a
/// [`Number`] is one that `serde_json` wrote, and reading it with `str::parse` gives back the
/// number it was written for.
#[verifier::external_body]
fn value_from_json(json: &Json) -> (value: serde_json::Value)
    ensures
        held(value) == json.tree(),
{
    match json {
        Json::Null => serde_json::Value::Null,
        Json::Bool(b) => serde_json::Value::from(*b),
        Json::Unsigned(n) => serde_json::Value::from(*n),
        Json::Negative(n) => serde_json::Value::from(*n),
        Json::Float(number) => serde_json::Value::from(
            number.text.parse().ok().and_then(serde_json::Number::from_f64),
        ),
        Json::Text(text) => serde_json::Value::from(text.as_str()),
        Json::Array(items) => items.iter().map(value_from_json).collect(),
        Json::Object(members) => serde_json::Value::Object(
            members.iter().map(|(name, value)| (name.clone(), value_from_json(value))).collect(),
        ),
    }
}

/// The number that a text gives, read with `str::parse` and kept as
/// `serde_json::Number::from_f64` keeps it: nothing for a text that gives no finite number. An
/// integer of at most twenty digits gives one.
#[verifier::external_body]
fn number_from_text(text: &str) -> (number: Option<Number>)
    ensures
        number.deep_view() == number_text(text@),
        is_short_integer(text@) ==> number is Some,
{
    let number = serde_json::Number::from_f64(text.parse().ok()?)?;
    Some(Number { text: number.to_string() })
}

/// Looks a JSON pointer up with `Value::pointer` and copies what is there. What is found
/// depends on what the value holds and on the pointer alone.
///
/// The empty pointer finds the whole value, any other that does not start with a slash finds
/// nothing, and one that names a member finds that member of anything but an array.
#[verifier::external_body]
fn value_at(value: &serde_json::Value, pointer: &str) -> (found: Option<serde_json::Value>)
    ensures
        finding(found) == pointed(held(*value), pointer@),
        pointer@.len() == 0 ==> finding(found) == Some(held(*value)),
        pointer@.len() > 0 && pointer@[0] != '/' ==> finding(found) is None,
        names_a_member(pointer@) && !(held(*value) is Array) ==> finding(found) == held(*value).get(
            pointer@.skip(1),
        ),
{
    value.pointer(pointer).cloned()
}

impl DeepView for Number {
    type V = Seq<char>;

    open spec fn deep_view(&self) -> Seq<char> {
        self@
    }
}

impl Number {
    /// The number that a text gives in decimal, where it gives a finite one.
    pub fn parse(text: &str) -> (number: Option<Number>)
        ensures
            number.deep_view() == number_text(text@),
            is_short_integer(text@) ==> number is Some,
    {
        number_from_text(text)
    }
}

impl Json {
    /// Reads a document from text.
    pub fn parse(text: &str) -> (read: Result<Json, String>)
        ensures
            meaning(read) == json_parsed(text@),
    {
        match value_from_text(text) {
            Ok(value) => Ok(json_from_value(value)),
            Err(why) => Err(why),
        }
    }

    /// Reads a document from bytes.
    pub fn parse_bytes(bytes: &[u8]) -> (read: Result<Json, String>)
        ensures
            meaning(read) == json_parsed_bytes(bytes@),
    {
        match value_from_bytes(bytes) {
            Ok(value) => Ok(json_from_value(value)),
            Err(why) => Err(why),
        }
    }

    /// Reads a document from the text of a TOML file.
    pub fn parse_toml(text: &str) -> (read: Result<Json, String>)
        ensures
            meaning(read) == toml_parsed(text@),
    {
        match value_from_toml(text) {
            Ok(value) => Ok(json_from_value(value)),
            Err(why) => Err(why),
        }
    }

    /// Writes this document. Where it holds whole numbers only and nests no deeper than
    /// [`DEEPEST`], the text is read back as the same document.
    pub fn to_text(&self) -> (text: String)
        ensures
            text@ == json_text(self.tree()),
            self.tree().fits(DEEPEST as nat) ==> reads_as(text@, self.tree()),
    {
        text_from_value(&value_from_json(self))
    }
}

/// What is written for an integer of 64 bits is short.
proof fn signed_decimal_is_short(n: int)
    requires
        -0x1_0000_0000_0000_0000 < n < 0x1_0000_0000_0000_0000,
    ensures
        is_short_integer(signed_decimal(n)),
{
    assert(ten_to(20) == 100_000_000_000_000_000_000) by {
        reveal_with_fuel(ten_to, 21);
    }
    if n < 0 {
        decimal_is_short((-n) as nat, 20);
        assert(signed_decimal(n).skip(1) == decimal((-n) as nat));
    } else {
        decimal_is_short(n as nat, 20);
        assert(is_digit(decimal(n as nat)[0]));
    }
}

impl Json {
    /// The number that this is, where it is one.
    pub fn as_number(&self) -> (number: Option<Number>)
        ensures
            number.deep_view() == self.tree().as_number(),
            number is Some <==> self.tree() is Float || self.tree() is Integer,
    {
        match self {
            Json::Float(number) => Some(number.copied()),
            Json::Unsigned(n) => {
                let text = decimal_text(*n as u128);
                proof {
                    signed_decimal_is_short(*n as int);
                }
                Number::parse(text.as_str())
            },
            Json::Negative(n) => {
                let text = signed_text(*n);
                proof {
                    signed_decimal_is_short(*n as int);
                }
                Number::parse(text.as_str())
            },
            _ => None,
        }
    }

    /// What stands at a JSON pointer, where anything does. The empty pointer finds the whole
    /// document, any other that does not start with a slash finds nothing, and one that names
    /// a member finds that member of anything but an array.
    pub fn pointer(&self, pointer: &str) -> (found: Option<Json>)
        ensures
            found.deep_view() == pointed(self.tree(), pointer@),
            pointer@.len() == 0 ==> found.deep_view() == Some(self.tree()),
            pointer@.len() > 0 && pointer@[0] != '/' ==> found is None,
            names_a_member(pointer@) && !(self.tree() is Array) ==> found.deep_view()
                == self.tree().get(pointer@.skip(1)),
    {
        match value_at(&value_from_json(self), pointer) {
            Some(value) => Some(json_from_value(value)),
            None => None,
        }
    }
}

impl PartialEq for Json {
    fn eq(&self, other: &Json) -> (yes: bool) {
        self.means(other)
    }
}

impl vstd::std_specs::cmp::PartialEqSpecImpl for Json {
    open spec fn obeys_eq_spec() -> bool {
        true
    }

    open spec fn eq_spec(&self, other: &Json) -> bool {
        self.tree() == other.tree()
    }
}

/// A member that is set is found under its name and under no other, and one that is taken out is
/// found no more.
pub proof fn a_member_is_found_under_its_name(tree: Tree, name: Seq<char>, other: Seq<char>, value: Tree)
    requires
        other != name,
    ensures
        tree.with(name, value).get(name) == Some(value),
        tree is Object ==> tree.with(name, value).get(other) == tree.get(other),
        tree.without(name).get(name) is None,
        tree.without(name).get(other) == tree.get(other),
        Tree::empty_object().get(name) is None,
{
}

/// A document is read as what it holds and as nothing else.
pub proof fn a_document_is_read_as_what_it_holds(tree: Tree, n: int)
    ensures
        tree is Text <==> tree.as_str() is Some,
        tree is Text ==> tree.as_str() == Some(tree->Text_0),
        tree is Bool <==> tree.as_bool() is Some,
        tree is Bool ==> tree.as_bool() == Some(tree->Bool_0),
        tree is Array <==> tree.as_array() is Some,
        tree is Array ==> tree.as_array() == Some(tree->Array_0),
        0 <= n <= u64::MAX ==> Tree::Integer(n).as_u64() == Some(n as u64),
        n < 0 || n > u64::MAX ==> Tree::Integer(n).as_u64() is None,
        !(tree is Integer) ==> tree.as_u64() is None,
{
}

} // verus!
