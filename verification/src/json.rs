//! A JSON-shaped document: the tree of values from which a program is
//! decoded.

use vstd::prelude::*;
use vstd::string::*;

verus! {

/// A member of an object: a key and the value under it.
#[derive(Debug, PartialEq, Eq)]
pub struct Member {
    pub key: String,
    pub value: Json,
}

/// A document value.
///
/// A number holds its value when it is an integer in the signed 64-bit
/// range, and `None` when it is any other number. Where an object repeats a
/// key, the last member with that key counts.
#[derive(Debug, PartialEq, Eq)]
pub enum Json {
    Null,
    Bool(bool),
    Number(Option<i64>),
    Str(String),
    Array(Vec<Json>),
    Object(Vec<Member>),
}

/// The mathematical model of a [`Member`].
pub struct MemberModel {
    pub key: Seq<char>,
    pub value: JsonModel,
}

/// The mathematical model of a [`Json`] value.
pub enum JsonModel {
    Null,
    Bool(bool),
    Number(Option<int>),
    Str(Seq<char>),
    Array(Seq<JsonModel>),
    Object(Seq<MemberModel>),
}

/// The model of a document value.
pub open spec fn json_model(j: Json) -> JsonModel
    decreases j,
{
    match j {
        Json::Null => JsonModel::Null,
        Json::Bool(b) => JsonModel::Bool(b),
        Json::Number(n) => JsonModel::Number(
            match n {
                Some(v) => Some(v as int),
                None => None,
            },
        ),
        Json::Str(s) => JsonModel::Str(s@),
        Json::Array(items) => JsonModel::Array(json_models(items@)),
        Json::Object(members) => JsonModel::Object(member_models(members@)),
    }
}

/// The models of a list of document values, in order.
pub open spec fn json_models(js: Seq<Json>) -> Seq<JsonModel>
    decreases js,
{
    if js.len() == 0 {
        Seq::empty()
    } else {
        json_models(js.drop_last()).push(json_model(js.last()))
    }
}

/// The models of a list of members, in order.
pub open spec fn member_models(ms: Seq<Member>) -> Seq<MemberModel>
    decreases ms,
{
    if ms.len() == 0 {
        Seq::empty()
    } else {
        member_models(ms.drop_last()).push(
            MemberModel { key: ms.last().key@, value: json_model(ms.last().value) },
        )
    }
}

impl View for Json {
    type V = JsonModel;

    open spec fn view(&self) -> JsonModel {
        json_model(*self)
    }
}

impl View for Member {
    type V = MemberModel;

    open spec fn view(&self) -> MemberModel {
        MemberModel { key: self.key@, value: self.value@ }
    }
}

/// The list of models has the length of the list of values, and holds at
/// each place the model of the value at that place.
pub proof fn lemma_json_models(js: Seq<Json>)
    ensures
        json_models(js).len() == js.len(),
        forall|i: int| 0 <= i < js.len() ==> #[trigger] json_models(js)[i] == json_model(js[i]),
    decreases js.len(),
{
    if js.len() > 0 {
        lemma_json_models(js.drop_last());
    }
}

/// The list of models has the length of the list of members, and holds at
/// each place the model of the member at that place.
pub proof fn lemma_member_models(ms: Seq<Member>)
    ensures
        member_models(ms).len() == ms.len(),
        forall|i: int| 0 <= i < ms.len() ==> #[trigger] member_models(ms)[i] == ms[i]@,
    decreases ms.len(),
{
    if ms.len() > 0 {
        lemma_member_models(ms.drop_last());
    }
}

/// The place of the last member with the given key, or `-1` where no member
/// has it.
pub open spec fn find(ms: Seq<MemberModel>, key: Seq<char>) -> int
    decreases ms.len(),
{
    if ms.len() == 0 {
        -1
    } else if ms.last().key == key {
        ms.len() - 1
    } else {
        find(ms.drop_last(), key)
    }
}

impl JsonModel {
    /// The value under a key of an object; `None` where the key is absent
    /// or the value is no object.
    pub open spec fn field(self, key: Seq<char>) -> Option<JsonModel> {
        match self {
            JsonModel::Object(ms) => {
                let i = find(ms, key);
                if 0 <= i < ms.len() {
                    Some(ms[i].value)
                } else {
                    None
                }
            },
            _ => None,
        }
    }
}

/// A value under a key of an object is a smaller value than the object.
pub proof fn lemma_field_decreases(j: JsonModel, key: Seq<char>)
    ensures
        j.field(key) matches Some(v) ==> decreases_to!(j => v),
{
    if let JsonModel::Object(ms) = j {
        let i = find(ms, key);
        if 0 <= i < ms.len() {
            assert(decreases_to!(j => ms));
            assert(decreases_to!(ms => ms[i]));
            assert(decreases_to!(ms[i] => ms[i].value));
        }
    }
}

impl Json {
    /// The value under a key of an object.
    #[verifier::loop_isolation(false)]
    pub fn get(&self, key: &str) -> (found: Option<&Json>)
        ensures
            match found {
                Some(v) => self@.field(key@) == Some(v@),
                None => self@.field(key@) is None,
            },
    {
        match self {
            Json::Object(members) => {
                let wanted = key.to_owned();
                let ghost models = member_models(members@);
                proof {
                    lemma_member_models(members@);
                }
                let mut i: usize = members.len();
                while i > 0
                    invariant
                        i <= members.len(),
                        wanted@ == key@,
                        models == member_models(members@),
                        models.len() == members.len(),
                        forall|j: int|
                            0 <= j < members.len() ==> #[trigger] models[j] == members[j]@,
                        forall|j: int|
                            i <= j < members.len() ==> (#[trigger] models[j]).key != key@,
                    decreases i,
                {
                    i -= 1;
                    if members[i].key == wanted {
                        proof {
                            lemma_find_at(models, key@, i as int);
                        }
                        return Some(&members[i].value);
                    }
                }
                proof {
                    lemma_find_none(models, key@);
                }
                None
            },
            _ => None,
        }
    }
}

/// Where a member has the key and no later member has it, `find` returns its
/// place.
pub proof fn lemma_find_at(ms: Seq<MemberModel>, key: Seq<char>, i: int)
    requires
        0 <= i < ms.len(),
        ms[i].key == key,
        forall|j: int| i < j < ms.len() ==> (#[trigger] ms[j]).key != key,
    ensures
        find(ms, key) == i,
    decreases ms.len(),
{
    if i < ms.len() - 1 {
        assert(ms.last() == ms[ms.len() - 1]);
        lemma_find_at(ms.drop_last(), key, i);
    }
}

/// Where no member has the key, `find` returns `-1`.
pub proof fn lemma_find_none(ms: Seq<MemberModel>, key: Seq<char>)
    requires
        forall|j: int| 0 <= j < ms.len() ==> (#[trigger] ms[j]).key != key,
    ensures
        find(ms, key) == -1,
    decreases ms.len(),
{
    if ms.len() > 0 {
        assert(ms.last() == ms[ms.len() - 1]);
        lemma_find_none(ms.drop_last(), key);
    }
}

} // verus!
