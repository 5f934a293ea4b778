//! A JSON document as a plain tree. Numbers keep their literal text, which
//! this generator never interprets; object members keep document order.

use vstd::prelude::*;

use crate::chars::str_eq;

verus! {

/// An executable JSON value.
#[derive(Debug)]
pub enum Json {
    Null,
    Bool(bool),
    Number(String),
    Text(String),
    Arr(Vec<Json>),
    Obj(Vec<(String, Json)>),
}

/// The mathematical form of a JSON value.
pub enum JsonV {
    Null,
    Bool(bool),
    Number(Seq<char>),
    Text(Seq<char>),
    Arr(Seq<JsonV>),
    Obj(Seq<(Seq<char>, JsonV)>),
}

impl View for Json {
    type V = JsonV;

    open spec fn view(&self) -> JsonV
        decreases self,
    {
        match self {
            Json::Null => JsonV::Null,
            Json::Bool(b) => JsonV::Bool(*b),
            Json::Number(s) => JsonV::Number(s@),
            Json::Text(s) => JsonV::Text(s@),
            Json::Arr(items) => JsonV::Arr(arr_view(items@)),
            Json::Obj(members) => JsonV::Obj(members_view(members@)),
        }
    }
}

/// Views of the elements of an array.
pub open spec fn arr_view(items: Seq<Json>) -> Seq<JsonV>
    decreases items,
{
    if items.len() == 0 {
        Seq::empty()
    } else {
        seq![items[0]@] + arr_view(items.drop_first())
    }
}

/// Views of the members of an object.
pub open spec fn members_view(members: Seq<(String, Json)>) -> Seq<(Seq<char>, JsonV)>
    decreases members,
{
    if members.len() == 0 {
        Seq::empty()
    } else {
        seq![(members[0].0@, members[0].1@)] + members_view(members.drop_first())
    }
}

/// [`arr_view`] is the element-wise view.
pub proof fn lemma_arr_view(items: Seq<Json>)
    ensures
        arr_view(items).len() == items.len(),
        forall|i: int| 0 <= i < items.len() ==> arr_view(items)[i] == items[i]@,
    decreases items,
{
    if items.len() == 0 {
        assert(arr_view(items) == Seq::<JsonV>::empty());
    } else {
        assert(arr_view(items) == seq![items[0]@] + arr_view(items.drop_first()));
        lemma_arr_view(items.drop_first());
        assert forall|i: int| 0 <= i < items.len() implies arr_view(items)[i] == items[i]@ by {
            if i > 0 {
                assert(arr_view(items.drop_first())[i - 1] == items.drop_first()[i - 1]@);
            }
        }
    }
}

/// [`members_view`] is the member-wise view.
pub proof fn lemma_members_view(members: Seq<(String, Json)>)
    ensures
        members_view(members).len() == members.len(),
        forall|i: int|
            0 <= i < members.len() ==> members_view(members)[i] == (
            members[i].0@,
            members[i].1@,
            ),
    decreases members,
{
    if members.len() == 0 {
        assert(members_view(members) == Seq::<(Seq<char>, JsonV)>::empty());
    } else {
        assert(members_view(members) == seq![(members[0].0@, members[0].1@)] + members_view(
            members.drop_first(),
        ));
        lemma_members_view(members.drop_first());
        assert forall|i: int| 0 <= i < members.len() implies members_view(members)[i] == (
            members[i].0@,
            members[i].1@,
        ) by {
            if i > 0 {
                assert(members_view(members.drop_first())[i - 1] == (
                    members.drop_first()[i - 1].0@,
                    members.drop_first()[i - 1].1@,
                ));
            }
        }
    }
}

impl DeepView for Json {
    type V = JsonV;

    open spec fn deep_view(&self) -> JsonV {
        self.view()
    }
}

/// The value of the first member with the given name, if any.
pub open spec fn obj_lookup(members: Seq<(Seq<char>, JsonV)>, key: Seq<char>) -> Option<JsonV>
    decreases members.len(),
{
    if members.len() == 0 {
        None
    } else if members[0].0 == key {
        Some(members[0].1)
    } else {
        obj_lookup(members.drop_first(), key)
    }
}

/// Looks up a member of an object's member list by name.
pub fn obj_get<'a>(members: &'a Vec<(String, Json)>, key: &str) -> (r: Option<&'a Json>)
    ensures
        match r {
            Some(v) => obj_lookup(members_view(members@), key@) == Some(v@),
            None => obj_lookup(members_view(members@), key@) is None,
        },
{
    let ghost mv = members_view(members@);
    proof {
        lemma_members_view(members@);
        assert(mv.skip(0) =~= mv);
    }
    let n = members.len();
    let mut i: usize = 0;
    while i < n
        invariant
            n == members.len(),
            i <= n,
            mv == members_view(members@),
            mv.len() == n,
            forall|j: int|
                0 <= j < n ==> #[trigger] mv[j] == (members@[j].0@, members@[j].1@),
            obj_lookup(mv, key@) == obj_lookup(mv.skip(i as int), key@),
            forall|j: int| 0 <= j < i ==> (#[trigger] mv[j]).0 != key@,
        decreases n - i,
    {
        if str_eq(members[i].0.as_str(), key) {
            proof {
                let ms = mv.skip(i as int);
                assert(ms[0] == mv[i as int]);
                assert(ms[0].0 == key@);
            }
            return Some(&members[i].1);
        }
        proof {
            let ms = mv.skip(i as int);
            assert(ms[0] == mv[i as int]);
            assert(ms.drop_first() =~= mv.skip(i + 1));
        }
        i = i + 1;
    }
    proof {
        assert(mv.skip(n as int) =~= Seq::<(Seq<char>, JsonV)>::empty());
    }
    None
}

} // verus!
