//! JSON values, as far as requests are built and responses read here.

use vstd::prelude::*;

use crate::text::{lemma_views_push, same_text, views};

verus! {

/// A JSON value. The members of an object are in the order of the text.
#[derive(Debug)]
pub enum Json {
    Null,
    Bool(bool),
    /// An integer that fits.
    Int(i64),
    /// Any other number, as it is written.
    Number(String),
    Str(String),
    Array(Vec<Json>),
    Object(Vec<Member>),
}

/// One member of an object.
#[derive(Debug)]
pub struct Member {
    pub key: String,
    pub value: Json,
}

/// A value's model.
pub enum JsonView {
    Null,
    Bool(bool),
    Int(i64),
    Number(Seq<char>),
    Str(Seq<char>),
    Array(Seq<JsonView>),
    Object(Seq<MemberView>),
}

/// A member's model.
pub struct MemberView {
    pub key: Seq<char>,
    pub value: JsonView,
}

/// The model of a value.
pub open spec fn json_view(value: Json) -> JsonView
    decreases value,
{
    match value {
        Json::Null => JsonView::Null,
        Json::Bool(b) => JsonView::Bool(b),
        Json::Int(n) => JsonView::Int(n),
        Json::Number(s) => JsonView::Number(s@),
        Json::Str(s) => JsonView::Str(s@),
        Json::Array(items) => JsonView::Array(items_view(items@)),
        Json::Object(members) => JsonView::Object(members_view(members@)),
    }
}

/// The model of a list of values.
pub open spec fn items_view(items: Seq<Json>) -> Seq<JsonView>
    decreases items,
{
    if items.len() == 0 {
        Seq::empty()
    } else {
        items_view(items.subrange(0, items.len() - 1)).push(json_view(items[items.len() - 1]))
    }
}

/// The model of a list of members.
pub open spec fn members_view(members: Seq<Member>) -> Seq<MemberView>
    decreases members,
{
    if members.len() == 0 {
        Seq::empty()
    } else {
        let last = members[members.len() - 1];
        members_view(members.subrange(0, members.len() - 1)).push(
            MemberView { key: last.key@, value: json_view(last.value) },
        )
    }
}

impl View for Json {
    type V = JsonView;

    open spec fn view(&self) -> JsonView {
        json_view(*self)
    }
}

impl View for Member {
    type V = MemberView;

    open spec fn view(&self) -> MemberView {
        MemberView { key: self.key@, value: self.value@ }
    }
}

/// The model of a list is the list of models.
pub proof fn lemma_items_view(items: Seq<Json>)
    ensures
        items_view(items) == views(items),
    decreases items.len(),
{
    if items.len() > 0 {
        lemma_items_view(items.subrange(0, items.len() - 1));
    }
    assert(items_view(items) =~= views(items));
}

/// The model of a list of members is the list of their models.
pub proof fn lemma_members_view(members: Seq<Member>)
    ensures
        members_view(members) == views(members),
    decreases members.len(),
{
    if members.len() > 0 {
        lemma_members_view(members.subrange(0, members.len() - 1));
    }
    assert(members_view(members) =~= views(members));
}

/// The model of a member.
pub open spec fn member(key: Seq<char>, value: JsonView) -> MemberView {
    MemberView { key, value }
}

/// Where a key first occurs among the members from `from` on.
pub open spec fn member_at(members: Seq<MemberView>, key: Seq<char>, from: int) -> Option<int>
    decreases members.len() - from,
{
    if from < 0 || from >= members.len() {
        None
    } else if members[from].key == key {
        Some(from)
    } else {
        member_at(members, key, from + 1)
    }
}

/// The member of an object under a key; none in any other value.
pub open spec fn json_get(value: JsonView, key: Seq<char>) -> Option<JsonView> {
    match value {
        JsonView::Object(members) => match member_at(members, key, 0) {
            Some(i) => Some(members[i].value),
            None => None,
        },
        _ => None,
    }
}

/// The text under a key, where there is one.
pub open spec fn text_at(value: JsonView, key: Seq<char>) -> Option<Seq<char>> {
    match json_get(value, key) {
        Some(JsonView::Str(s)) => Some(s),
        _ => None,
    }
}

/// The integer under a key, where there is one.
pub open spec fn int_at(value: JsonView, key: Seq<char>) -> Option<i64> {
    match json_get(value, key) {
        Some(JsonView::Int(n)) => Some(n),
        _ => None,
    }
}

/// The list under a key, where there is one.
pub open spec fn array_at(value: JsonView, key: Seq<char>) -> Option<Seq<JsonView>> {
    match json_get(value, key) {
        Some(JsonView::Array(items)) => Some(items),
        _ => None,
    }
}

impl Json {
    /// A string value.
    pub fn str(s: &str) -> (value: Json)
        ensures
            value@ == JsonView::Str(s@),
    {
        Json::Str(String::from_str(s))
    }

    /// An array.
    pub fn array(items: Vec<Json>) -> (value: Json)
        ensures
            value@ == JsonView::Array(views(items@)),
    {
        proof {
            lemma_items_view(items@);
        }
        Json::Array(items)
    }

    /// An object.
    pub fn object(members: Vec<Member>) -> (value: Json)
        ensures
            value@ == JsonView::Object(views(members@)),
    {
        proof {
            lemma_members_view(members@);
        }
        Json::Object(members)
    }

    /// The member of an object under a key.
    pub fn get(&self, key: &str) -> (found: Option<&Json>)
        ensures
            found is Some <==> json_get(self@, key@) is Some,
            found matches Some(value) ==> json_get(self@, key@) == Some(value@),
    {
        match self {
            Json::Object(members) => {
                proof {
                    lemma_members_view(members@);
                }
                let ghost all = views(members@);
                let mut i: usize = 0;
                while i < members.len()
                    invariant
                        i <= members@.len(),
                        all == views(members@),
                        self@ == JsonView::Object(all),
                        member_at(all, key@, 0) == member_at(all, key@, i as int),
                    decreases members.len() - i,
                {
                    if same_text(members[i].key.as_str(), key) {
                        return Some(&members[i].value);
                    }
                    i = i + 1;
                }
                None
            },
            _ => None,
        }
    }

    /// The text under a key, where there is one.
    pub fn text_at(&self, key: &str) -> (found: Option<&str>)
        ensures
            found is Some <==> text_at(self@, key@) is Some,
            found matches Some(s) ==> text_at(self@, key@) == Some(s@),
    {
        match self.get(key) {
            Some(Json::Str(s)) => Some(s.as_str()),
            _ => None,
        }
    }

    /// The integer under a key, where there is one.
    pub fn int_at(&self, key: &str) -> (found: Option<i64>)
        ensures
            found == int_at(self@, key@),
    {
        match self.get(key) {
            Some(Json::Int(n)) => Some(*n),
            _ => None,
        }
    }

    /// The list under a key, where there is one.
    pub fn array_at(&self, key: &str) -> (found: Option<&Vec<Json>>)
        ensures
            found is Some <==> array_at(self@, key@) is Some,
            found matches Some(items) ==> array_at(self@, key@) == Some(views(items@)),
    {
        match self.get(key) {
            Some(Json::Array(items)) => {
                proof {
                    lemma_items_view(items@);
                }
                Some(items)
            },
            _ => None,
        }
    }
}

impl Member {
    /// One member of an object.
    pub fn new(key: &str, value: Json) -> (m: Member)
        ensures
            m@ == member(key@, value@),
    {
        Member { key: String::from_str(key), value }
    }
}

/// A copy of a value.
fn copy_json(value: &Json) -> (copy: Json)
    ensures
        copy@ == value@,
    decreases value,
{
    match value {
        Json::Null => Json::Null,
        Json::Bool(b) => Json::Bool(*b),
        Json::Int(n) => Json::Int(*n),
        Json::Number(s) => Json::Number(s.clone()),
        Json::Str(s) => Json::Str(s.clone()),
        Json::Array(items) => {
            let mut copy: Vec<Json> = Vec::new();
            let mut i: usize = 0;
            while i < items.len()
                invariant
                    *value == Json::Array(*items),
                    i <= items@.len(),
                    views(copy@) == views(items@).take(i as int),
                decreases items.len() - i,
            {
                proof {
                    assert(decreases_to!(*value => value->Array_0));
                    assert(decreases_to!(value->Array_0 => (value->Array_0)@));
                    assert(decreases_to!(items@ => items@[i as int]));
                }
                let item = copy_json(&items[i]);
                proof {
                    lemma_views_push(copy@, item);
                    assert(views(items@).take(i + 1) =~= views(items@).take(i as int).push(item@));
                }
                copy.push(item);
                i = i + 1;
            }
            proof {
                lemma_items_view(items@);
                assert(views(items@).take(i as int) =~= views(items@));
            }
            Json::array(copy)
        },
        Json::Object(members) => {
            let mut copy: Vec<Member> = Vec::new();
            let mut i: usize = 0;
            while i < members.len()
                invariant
                    *value == Json::Object(*members),
                    i <= members@.len(),
                    views(copy@) == views(members@).take(i as int),
                decreases members.len() - i,
            {
                proof {
                    assert(decreases_to!(*value => value->Object_0));
                    assert(decreases_to!(value->Object_0 => (value->Object_0)@));
                    assert(decreases_to!(members@ => members@[i as int]));
                    assert(decreases_to!(members@[i as int] => members@[i as int].value));
                }
                let item = Member {
                    key: members[i].key.clone(),
                    value: copy_json(&members[i].value),
                };
                proof {
                    lemma_views_push(copy@, item);
                    assert(views(members@).take(i + 1) =~= views(members@).take(i as int).push(
                        item@,
                    ));
                }
                copy.push(item);
                i = i + 1;
            }
            proof {
                lemma_members_view(members@);
                assert(views(members@).take(i as int) =~= views(members@));
            }
            Json::object(copy)
        },
    }
}

impl Clone for Json {
    fn clone(&self) -> (copy: Self)
        ensures
            copy@ == self@,
    {
        copy_json(self)
    }
}

/// A key is read from the first member that has it, at whatever place; members
/// before and behind it make no difference, and a key that no member has is not
/// found.
pub proof fn law_a_key_is_read_from_its_first_member(
    members: Seq<MemberView>,
    key: Seq<char>,
    i: int,
)
    ensures
        0 <= i < members.len() && members[i].key == key && (forall|k: int|
            0 <= k < i ==> (#[trigger] members[k]).key != key) ==> json_get(
            JsonView::Object(members),
            key,
        ) == Some(members[i].value),
        (forall|k: int| 0 <= k < members.len() ==> (#[trigger] members[k]).key != key) ==> json_get(
            JsonView::Object(members),
            key,
        ) is None,
{
    lemma_member_at(members, key, 0);
    if let Some(j) = member_at(members, key, 0) {
        assert(members[j].key == key);
        if j < i {
            assert(members[j].key == key);
        }
    }
}

proof fn lemma_member_at(members: Seq<MemberView>, key: Seq<char>, from: int)
    requires
        0 <= from,
    ensures
        match member_at(members, key, from) {
            Some(j) => from <= j < members.len() && members[j].key == key && forall|k: int|
                from <= k < j ==> (#[trigger] members[k]).key != key,
            None => forall|k: int|
                from <= k < members.len() ==> (#[trigger] members[k]).key != key,
        },
    decreases members.len() - from,
{
    if from < members.len() && members[from].key != key {
        lemma_member_at(members, key, from + 1);
    }
}

/// A text, an integer or a list is read under a key exactly where the value
/// there is one, and as it is.
pub proof fn law_values_are_read_by_their_kind(
    value: JsonView,
    key: Seq<char>,
    s: Seq<char>,
    n: i64,
    items: Seq<JsonView>,
)
    ensures
        text_at(value, key) == Some(s) <==> json_get(value, key) == Some(JsonView::Str(s)),
        int_at(value, key) == Some(n) <==> json_get(value, key) == Some(JsonView::Int(n)),
        array_at(value, key) == Some(items) <==> json_get(value, key) == Some(
            JsonView::Array(items),
        ),
        !(value is Object) ==> json_get(value, key) is None,
{
}

} // verus!
