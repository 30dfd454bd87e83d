//! What reading and building JSON values promises.
use vstd::prelude::*;
use crate::json;
use crate::json::JsonView;

verus! {

/// An object gives the value of the first of its members that bears the name, and nothing
/// where none does; no other value has members.
pub proof fn members_are_found(members: Seq<(Seq<char>, JsonView)>, key: Seq<char>, i: int)
    requires
        0 <= i < members.len(),
        members[i].0 == key,
        forall|j: int| 0 <= j < i ==> (#[trigger] members[j]).0 != key,
    ensures
        JsonView::Object(members).get(key) == Some(members[i].1),
        JsonView::Object(members).at(key) == members[i].1,
        members[i].1 matches JsonView::Str(s) ==> JsonView::Object(members).str_at(key) == Some(s),
    decreases i,
{
    if i > 0 {
        let rest = members.skip(1);
        assert(members[0].0 != key);
        assert forall|j: int| 0 <= j < i - 1 implies (#[trigger] rest[j]).0 != key by {
            assert(rest[j] == members[j + 1]);
        }
        members_are_found(rest, key, i - 1);
    }
}

/// An object without a member of the name gives nothing.
pub proof fn missing_members_are_null(members: Seq<(Seq<char>, JsonView)>, key: Seq<char>)
    requires
        forall|j: int| 0 <= j < members.len() ==> (#[trigger] members[j]).0 != key,
    ensures
        JsonView::Object(members).get(key) is None,
        JsonView::Object(members).at(key) == JsonView::Null,
        JsonView::Object(members).str_at(key) is None,
        JsonView::Object(members).filled(key) is None,
    decreases members.len(),
{
    if members.len() > 0 {
        assert(members[0].0 != key);
        let rest = members.skip(1);
        assert forall|j: int| 0 <= j < rest.len() implies (#[trigger] rest[j]).0 != key by {
            assert(rest[j] == members[j + 1]);
        }
        missing_members_are_null(rest, key);
    }
}

/// A value is read as what it is, and as nothing else.
pub proof fn values_are_read_as_they_are(s: Seq<char>, b: bool, a: Seq<JsonView>, n: u64)
    ensures
        JsonView::Str(s).as_str() == Some(s),
        JsonView::Str(s).as_bool() is None,
        JsonView::Str(s).as_u64() is None,
        JsonView::Str(s).as_array() is None,
        JsonView::Bool(b).as_bool() == Some(b),
        JsonView::Bool(b).as_str() is None,
        JsonView::Array(a).as_array() == Some(a),
        JsonView::Array(a).as_str() is None,
        JsonView::of_u64(n).as_u64() == Some(n),
        n <= i64::MAX ==> JsonView::of_u64(n).as_i64() == Some(n as i64),
        JsonView::Null.as_str() is None,
        JsonView::Null.as_array() is None,
        JsonView::Null.as_bool() is None,
{
}

/// The texts of a list are those of its items, in order: an item with a text adds it, and
/// any other adds nothing.
pub proof fn texts_are_gathered(items: Seq<JsonView>, item: JsonView, key: Seq<char>)
    ensures
        json::texts_at(Seq::empty(), key).len() == 0,
        item.at(key) matches JsonView::Str(s) ==> json::texts_at(items.push(item), key)
            == json::texts_at(items, key).push(s),
        !(item.at(key) is Str) ==> json::texts_at(items.push(item), key) == json::texts_at(
            items,
            key,
        ),
        json::texts(Seq::empty()).len() == 0,
        item matches JsonView::Str(s) ==> json::texts(items.push(item)) == json::texts(items).push(
            s,
        ),
        !(item is Str) ==> json::texts(items.push(item)) == json::texts(items),
{
    assert(items.push(item).drop_last() =~= items);
}

} // verus!
