//! JSON values as the protocol reads and builds them.

use vstd::prelude::*;
use crate::text::str_eq;

verus! {

/// A JSON value. An object keeps its members in the order they were given.
#[derive(Debug, PartialEq, Eq)]
pub enum Json {
    Null,
    Bool(bool),
    /// A number that fits a signed 64-bit integer.
    Int(i64),
    /// Any other number, kept as its JSON literal.
    Real(String),
    Str(String),
    Array(Vec<Json>),
    Object(Vec<Member>),
}

/// One member of an object.
#[derive(Debug, PartialEq, Eq)]
pub struct Member {
    pub name: String,
    pub value: Json,
}

/// The mathematical value of a [`Json`].
pub ghost enum JsonValue {
    Null,
    Bool(bool),
    Int(int),
    Real(Seq<char>),
    Str(Seq<char>),
    Array(Seq<JsonValue>),
    Object(Seq<MemberValue>),
}

/// The mathematical value of a [`Member`].
pub ghost struct MemberValue {
    pub name: Seq<char>,
    pub value: JsonValue,
}

impl View for Json {
    type V = JsonValue;

    open spec fn view(&self) -> JsonValue
        decreases self,
    {
        match self {
            Json::Null => JsonValue::Null,
            Json::Bool(b) => JsonValue::Bool(*b),
            Json::Int(n) => JsonValue::Int(*n as int),
            Json::Real(s) => JsonValue::Real(s@),
            Json::Str(s) => JsonValue::Str(s@),
            Json::Array(items) => JsonValue::Array(
                Seq::new(items@.len(), |i: int| if 0 <= i < items@.len() { items@[i]@ } else { JsonValue::Null }),
            ),
            Json::Object(members) => JsonValue::Object(
                Seq::new(
                    members@.len(),
                    |i: int| if 0 <= i < members@.len() { MemberValue { name: members@[i].name@, value: members@[i].value@ } } else { MemberValue { name: Seq::<char>::empty(), value: JsonValue::Null } },
                ),
            ),
        }
    }
}

/// The value of the first member of `members` named `key`, if there is one.
pub open spec fn lookup(members: Seq<MemberValue>, key: Seq<char>) -> Option<JsonValue>
    decreases members.len(),
{
    if members.len() == 0 {
        None
    } else if members[0].name == key {
        Some(members[0].value)
    } else {
        lookup(members.drop_first(), key)
    }
}

impl JsonValue {
    /// The member `key` of an object; `None` for anything else, and for an
    /// object without that member.
    pub open spec fn field(self, key: Seq<char>) -> Option<JsonValue> {
        match self {
            JsonValue::Object(members) => lookup(members, key),
            _ => None,
        }
    }

    /// The text of a string; `None` for anything else.
    pub open spec fn text(self) -> Option<Seq<char>> {
        match self {
            JsonValue::Str(s) => Some(s),
            _ => None,
        }
    }

    /// The text of the member `key`, where it is a string.
    pub open spec fn text_field(self, key: Seq<char>) -> Option<Seq<char>> {
        match self.field(key) {
            Some(v) => v.text(),
            None => None,
        }
    }
}

impl Json {
    /// The member `key` of an object.
    pub fn get(&self, key: &str) -> (r: Option<&Json>)
        ensures
            r.is_some() == self@.field(key@).is_some(),
            r matches Some(v) ==> Some(v@) == self@.field(key@),
    {
        match self {
            Json::Object(members) => {
                let mut i: usize = 0;
                proof {
                    let all = self@->Object_0;
                    assert(*self == Json::Object(*members));
                    assert(all.len() == members@.len());
                    assert(all.subrange(0, all.len() as int) =~= all);
                }
                while i < members.len()
                    invariant
                        i <= members@.len(),
                        self@ is Object,
                        self@->Object_0.len() == members@.len(),
                        lookup(self@->Object_0, key@) == lookup(
                            self@->Object_0.subrange(i as int, members@.len() as int),
                            key@,
                        ),
                        forall|k: int|
                            0 <= k < members@.len() ==> #[trigger] self@->Object_0[k] == (MemberValue { name: members@[k].name@, value: members@[k].value@ }),
                    decreases members@.len() - i,
                {
                    let ghost all = self@->Object_0;
                    proof {
                        assert(all.subrange(i as int, all.len() as int).drop_first() =~= all.subrange(i + 1, all.len() as int));
                    }
                    if str_eq(members[i].name.as_str(), key) {
                        return Some(&members[i].value);
                    }
                    i = i + 1;
                }
                None
            },
            _ => None,
        }
    }

    /// The text of a string value.
    pub fn as_str(&self) -> (r: Option<&str>)
        ensures
            r.is_some() == self@.text().is_some(),
            r matches Some(s) ==> Some(s@) == self@.text(),
    {
        match self {
            Json::Str(s) => Some(s.as_str()),
            _ => None,
        }
    }

    /// The text of the member `key`, where `self` is an object that has it
    /// as a string.
    pub fn get_str(&self, key: &str) -> (r: Option<&str>)
        ensures
            r.is_some() == self@.text_field(key@).is_some(),
            r matches Some(s) ==> Some(s@) == self@.text_field(key@),
    {
        match self.get(key) {
            Some(v) => v.as_str(),
            None => None,
        }
    }

    /// A copy of the value.
    pub fn duplicate(&self) -> (r: Json)
        ensures
            r@ == self@,
        decreases self,
    {
        match self {
            Json::Null => Json::Null,
            Json::Bool(b) => Json::Bool(*b),
            Json::Int(n) => Json::Int(*n),
            Json::Real(s) => Json::Real(s.clone()),
            Json::Str(s) => Json::Str(s.clone()),
            Json::Array(items) => {
                let mut out: Vec<Json> = Vec::new();
                let mut i: usize = 0;
                while i < items.len()
                    invariant
                        i <= items@.len(),
                        out@.len() == i,
                        self matches Json::Array(v) && v == items,
                        forall|k: int| 0 <= k < i ==> out@[k]@ == items@[k]@,
                    decreases items@.len() - i,
                {
                    out.push(items[i].duplicate());
                    i = i + 1;
                }
                let r = Json::Array(out);
                proof {
                    assert(r@->Array_0 =~= self@->Array_0);
                }
                r
            },
            Json::Object(members) => {
                let mut out: Vec<Member> = Vec::new();
                let mut i: usize = 0;
                while i < members.len()
                    invariant
                        i <= members@.len(),
                        out@.len() == i,
                        self matches Json::Object(v) && v == members,
                        forall|k: int| 0 <= k < i ==> out@[k].name@ == members@[k].name@ && out@[k].value@ == members@[k].value@,
                    decreases members@.len() - i,
                {
                    out.push(Member { name: members[i].name.clone(), value: members[i].value.duplicate() });
                    i = i + 1;
                }
                let r = Json::Object(out);
                proof {
                    assert(r@->Object_0 =~= self@->Object_0);
                }
                r
            },
        }
    }
}

/// The values of a run of members.
pub open spec fn members_value(s: Seq<Member>) -> Seq<MemberValue> {
    Seq::new(s.len(), |i: int| MemberValue { name: s[i].name@, value: s[i].value@ })
}

/// The values of a run of items.
pub open spec fn items_value(s: Seq<Json>) -> Seq<JsonValue> {
    Seq::new(s.len(), |i: int| s[i]@)
}

/// The value of an optional item.
pub open spec fn opt_value(o: Option<Json>) -> Option<JsonValue> {
    match o {
        Some(j) => Some(j@),
        None => None,
    }
}

/// One member of an object's value.
pub open spec fn entry(name: Seq<char>, value: JsonValue) -> MemberValue {
    MemberValue { name, value }
}

/// A string value holding `s`.
pub fn json_str(s: &str) -> (r: Json)
    ensures
        r@ == JsonValue::Str(s@),
{
    Json::Str(s.to_owned())
}

/// An object with the given members.
pub fn json_object(members: Vec<Member>) -> (r: Json)
    ensures
        r@ == JsonValue::Object(members_value(members@)),
{
    let ghost want = members_value(members@);
    let r = Json::Object(members);
    proof {
        assert(r@->Object_0 =~= want);
    }
    r
}

/// An array with the given items.
pub fn json_array(items: Vec<Json>) -> (r: Json)
    ensures
        r@ == JsonValue::Array(items_value(items@)),
{
    let ghost want = items_value(items@);
    let r = Json::Array(items);
    proof {
        assert(r@->Array_0 =~= want);
    }
    r
}

/// A list of members with nothing in it yet.
pub fn no_members() -> (r: Vec<Member>)
    ensures
        members_value(r@) == Seq::<MemberValue>::empty(),
{
    let r: Vec<Member> = Vec::new();
    proof {
        assert(members_value(r@) =~= Seq::<MemberValue>::empty());
    }
    r
}

/// Adds the member `name` with `value` at the end.
pub fn push_member(members: &mut Vec<Member>, name: &str, value: Json)
    ensures
        members_value(final(members)@) == members_value(old(members)@).push(entry(name@, value@)),
{
    members.push(Member { name: name.to_owned(), value });
    proof {
        assert(members_value(members@) =~= members_value(old(members)@).push(entry(name@, value@)));
    }
}

} // verus!
