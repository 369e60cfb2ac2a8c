//! What this crate has from `serde_json`: the value type, the few calls that
//! read or change one, and the parser that makes one from text.
//!
//! A value is opaque here. What is read of it has a name: the members of an
//! object, the text of a string, the truth of a boolean.

use serde_json::Value;
use vstd::prelude::*;
use vstd::string::*;

verus! {

/// `serde_json::Value`: a JSON value of any shape.
#[verifier::external_type_specification]
#[verifier::external_body]
pub struct ExValue(serde_json::Value);

/// The members of a value that is an object, by name; `None` for any other value.
pub uninterp spec fn json_members(value: serde_json::Value) -> Option<
    Map<Seq<char>, serde_json::Value>,
>;

/// The truth of a value that is a boolean, as `Value::as_bool` reads it.
pub uninterp spec fn json_flag(value: serde_json::Value) -> Option<bool>;

/// The text of a value that is a string, as `Value::as_str` reads it.
pub uninterp spec fn json_string(value: serde_json::Value) -> Option<Seq<char>>;

/// The string value that holds a text.
pub uninterp spec fn string_json(text: Seq<char>) -> serde_json::Value;

/// What `serde_json::from_str` makes of a text: a value, or why there is none, in
/// words.
pub uninterp spec fn parsed_json(text: Seq<char>) -> Result<serde_json::Value, Seq<char>>;

/// `<serde_json::Value as Clone>::clone`: the derived clone. It copies the
/// whole value.
pub assume_specification[ <serde_json::Value as Clone>::clone ](value: &serde_json::Value) -> (copy:
    serde_json::Value)
    ensures
        copy == *value,
;

/// `serde_json::Value::as_bool`: the truth of a boolean, `None` for any other
/// value.
pub assume_specification[ serde_json::Value::as_bool ](value: &serde_json::Value) -> (flag: Option<
    bool,
>)
    ensures
        flag == json_flag(*value),
;

/// `serde_json::Value::as_str`: the text of a string, `None` for any other value.
pub assume_specification[ serde_json::Value::as_str ](value: &serde_json::Value) -> (read: Option<
    &str,
>)
    ensures
        match read {
            Some(content) => json_string(*value) == Some(content@),
            None => json_string(*value) is None,
        },
;

/// `serde_json::Value::get` with a text: the member of that name of an object,
/// and `None` where the object has none or the value is no object.
#[verifier::external_body]
pub(crate) fn get_member<'a>(value: &'a serde_json::Value, name: &str) -> (member: Option<
    &'a serde_json::Value,
>)
    ensures
        match json_members(*value) {
            Some(members) if members.contains_key(name@) => member == Some(&members[name@]),
            _ => member is None,
        },
{
    value.get(name)
}

/// `serde_json::Map::insert` on the members of an object: sets the member of
/// that name and leaves the others. A value that is no object, of which
/// `Value::as_object_mut` gives nothing, stays as it is.
#[verifier::external_body]
pub(crate) fn insert_member(
    value: &mut serde_json::Value,
    name: &str,
    member: serde_json::Value,
)
    ensures
        match json_members(*old(value)) {
            Some(members) => json_members(*final(value)) == Some(members.insert(name@, member)),
            None => *final(value) == *old(value),
        },
{
    if let Some(members) = value.as_object_mut() {
        members.insert(name.to_string(), member);
    }
}

/// `serde_json::Map::keys` on the members of an object: the names of all members,
/// and none for a value that is no object.
#[verifier::external_body]
pub(crate) fn member_names(value: &serde_json::Value) -> (names: Vec<String>)
    ensures
        match json_members(*value) {
            Some(members) => forall|name: Seq<char>| #[trigger]
                members.contains_key(name) <==> exists|i: int|
                    0 <= i < names@.len() && (#[trigger] names@[i])@ == name,
            None => names@.len() == 0,
        },
{
    match value.as_object() {
        Some(members) => members.keys().cloned().collect(),
        None => Vec::new(),
    }
}

/// `serde_json::Value::from` for a text: the string value that holds it.
#[verifier::external_body]
pub(crate) fn text_value(text: &str) -> (value: serde_json::Value)
    ensures
        value == string_json(text@),
        json_string(value) == Some(text@),
{
    Value::from(text)
}

/// `serde_json::from_str::<Value>`: the JSON value that a text spells, or the
/// error that says why it spells none, as its `Display` words it. An error made
/// from a text holds no I/O failure, so its words depend on the text alone, as the
/// value does; which texts parse, and to what, is left to the name.
#[verifier::external_body]
pub(crate) fn parse_json(text: &str) -> (outcome: Result<serde_json::Value, String>)
    ensures
        match outcome {
            Ok(value) => parsed_json(text@) == Ok::<serde_json::Value, Seq<char>>(value),
            Err(words) => parsed_json(text@) == Err::<serde_json::Value, Seq<char>>(words@),
        },
{
    match serde_json::from_str::<Value>(text) {
        Ok(value) => Ok(value),
        Err(error) => Err(error.to_string()),
    }
}

/// The boolean member of an object that has this name.
pub open spec fn flag_member(value: serde_json::Value, name: Seq<char>) -> Option<bool> {
    match json_members(value) {
        Some(members) if members.contains_key(name) => json_flag(members[name]),
        _ => None,
    }
}

/// The string member of an object that has this name.
pub open spec fn text_member(value: serde_json::Value, name: Seq<char>) -> Option<Seq<char>> {
    match json_members(value) {
        Some(members) if members.contains_key(name) => json_string(members[name]),
        _ => None,
    }
}

/// The boolean member of this name, `None` where there is none.
pub fn flag_of(value: &Value, name: &str) -> (flag: Option<bool>)
    ensures
        flag == flag_member(*value, name@),
{
    match get_member(value, name) {
        Some(member) => member.as_bool(),
        None => None,
    }
}

/// The string member of this name, `None` where there is none.
pub fn text_of<'a>(value: &'a Value, name: &str) -> (text: Option<&'a str>)
    ensures
        match text {
            Some(text) => text_member(*value, name@) == Some(text@),
            None => text_member(*value, name@) is None,
        },
{
    match get_member(value, name) {
        Some(member) => member.as_str(),
        None => None,
    }
}

/// The members of an object with its model set.
pub open spec fn with_model(members: Map<Seq<char>, Value>, model: Seq<char>) -> Map<
    Seq<char>,
    Value,
> {
    members.insert("model"@, string_json(model))
}

/// Sets the model that a request body asks for. A body that is no object stays
/// as it is.
pub fn set_json_model(body: &mut Value, model: &str)
    ensures
        match json_members(*old(body)) {
            Some(members) => json_members(*final(body)) == Some(with_model(members, model@))
                && text_member(*final(body), "model"@) == Some(model@),
            None => *final(body) == *old(body),
        },
{
    insert_member(body, "model", text_value(model));
}

/// Members with more members filled in where they have none of the name.
pub open spec fn filled(members: Map<Seq<char>, Value>, extra: Map<Seq<char>, Value>) -> Map<
    Seq<char>,
    Value,
> {
    extra.union_prefer_right(members)
}

/// The members of a target's extra body, none where it has no extra body or one
/// that is no object.
pub open spec fn extra_members(extra_body: Option<Value>) -> Map<Seq<char>, Value> {
    match extra_body {
        Some(extra) => match json_members(extra) {
            Some(members) => members,
            None => Map::empty(),
        },
        None => Map::empty(),
    }
}

/// Fills a target's extra body into a request body. On a conflict the caller
/// wins: a member that the body already has stays as it is. A body that is no
/// object stays as it is.
pub fn merge_target_extra_body(body: &mut Value, extra_body: &Option<Value>)
    ensures
        match json_members(*old(body)) {
            Some(members) => json_members(*final(body)) == Some(
                filled(members, extra_members(*extra_body)),
            ),
            None => *final(body) == *old(body),
        },
{
    let ghost start = json_members(*body);
    let ghost whole = *body;
    let extra = match extra_body {
        Some(extra) => extra,
        None => {
            proof {
                if let Some(members) = start {
                    assert(filled(members, Map::empty()) =~= members);
                }
            }
            return;
        },
    };
    let names = member_names(extra);
    let ghost added = extra_members(*extra_body);
    let mut i: usize = 0;
    while i < names.len()
        invariant
            i <= names@.len(),
            json_members(*extra) is None ==> names@.len() == 0,
            json_members(*extra) matches Some(members) ==> added == members && forall|
                name: Seq<char>,
            | #[trigger]
                members.contains_key(name) <==> exists|j: int|
                    0 <= j < names@.len() && (#[trigger] names@[j])@ == name,
            start == json_members(whole),
            start is None ==> *body == whole,
            start matches Some(members) ==> json_members(*body) matches Some(now) && forall|
                name: Seq<char>,
            |
                {
                    &&& #[trigger] now.contains_key(name) <==> members.contains_key(name) || exists|
                        j: int,
                    |
                        0 <= j < i && (#[trigger] names@[j])@ == name
                    &&& now.contains_key(name) ==> now[name] == if members.contains_key(name) {
                        members[name]
                    } else {
                        added[name]
                    }
                },
        decreases names@.len() - i,
    {
        let name = names[i].as_str();
        let ghost before = json_members(*body);
        proof {
            assert(names@[i as int]@ == name@);
        }
        if let Some(member) = get_member(extra, name) {
            if get_member(body, name).is_none() {
                insert_member(body, name, member.clone());
            }
        }
        i += 1;
        proof {
            if let Some(members) = start {
                let now = json_members(*body)->0;
                assert forall|other: Seq<char>|
                    {
                        &&& #[trigger] now.contains_key(other) <==> members.contains_key(other)
                            || exists|j: int| 0 <= j < i && (#[trigger] names@[j])@ == other
                        &&& now.contains_key(other) ==> now[other] == if members.contains_key(
                            other,
                        ) {
                            members[other]
                        } else {
                            added[other]
                        }
                    } by {
                    assert(before->0.contains_key(other) || !before->0.contains_key(other));
                    if other == name@ {
                        assert(names@[i - 1]@ == other);
                    }
                }
            }
        }
    }
    proof {
        if let Some(members) = start {
            assert(json_members(*body)->0 =~= filled(members, added));
        }
    }
}

/// The model that is set is the model that is read back.
pub proof fn law_model_is_set(
    members: Map<Seq<char>, Value>,
    extra: Map<Seq<char>, Value>,
    model: Seq<char>,
)
    ensures
        filled(with_model(members, model), extra).contains_key("model"@),
        filled(with_model(members, model), extra)["model"@] == string_json(model),
{
}

/// The caller wins: what the body says besides the model stays as it is, what it
/// leaves out is filled in from the target, and nothing else appears.
pub proof fn law_caller_wins(
    members: Map<Seq<char>, Value>,
    extra: Map<Seq<char>, Value>,
    model: Seq<char>,
    name: Seq<char>,
)
    requires
        name != "model"@,
    ensures
        ({
            let out = filled(with_model(members, model), extra);
            &&& members.contains_key(name) ==> out.contains_key(name) && out[name] == members[name]
            &&& !members.contains_key(name) && extra.contains_key(name) ==> out.contains_key(name)
                && out[name] == extra[name]
            &&& !members.contains_key(name) && !extra.contains_key(name) ==> !out.contains_key(name)
        }),
{
}

/// What is read of a member is what stands under its name: a flag or a text where
/// the value is an object that has it, and nothing where it lacks it or is no object.
pub proof fn law_members_are_read(
    value: Value,
    members: Map<Seq<char>, Value>,
    name: Seq<char>,
)
    ensures
        json_members(value) is None ==> flag_member(value, name) is None && text_member(
            value,
            name,
        ) is None,
        json_members(value) == Some(members) && !members.contains_key(name) ==> flag_member(
            value,
            name,
        ) is None && text_member(value, name) is None,
        json_members(value) == Some(members) && members.contains_key(name) ==> flag_member(
            value,
            name,
        ) == json_flag(members[name]) && text_member(value, name) == json_string(members[name]),
{
}

/// Setting the model sets that member and no other.
pub proof fn law_only_the_model_is_set(
    members: Map<Seq<char>, Value>,
    model: Seq<char>,
    name: Seq<char>,
)
    ensures
        with_model(members, model).contains_key("model"@),
        with_model(members, model)["model"@] == string_json(model),
        name != "model"@ ==> (with_model(members, model).contains_key(name)
            <==> members.contains_key(name)),
        name != "model"@ && members.contains_key(name) ==> with_model(members, model)[name]
            == members[name],
{
}

/// Filling in keeps every member that is there and adds every one that is not;
/// filling in twice is filling in once.
pub proof fn law_filling(
    members: Map<Seq<char>, Value>,
    extra: Map<Seq<char>, Value>,
    name: Seq<char>,
)
    ensures
        filled(members, extra).contains_key(name) <==> members.contains_key(name)
            || extra.contains_key(name),
        members.contains_key(name) ==> filled(members, extra)[name] == members[name],
        !members.contains_key(name) && extra.contains_key(name) ==> filled(members, extra)[name]
            == extra[name],
        filled(filled(members, extra), extra) == filled(members, extra),
{
    assert(filled(filled(members, extra), extra) =~= filled(members, extra));
}

/// What a target's extra body adds: the members of an object, and nothing of any
/// other value.
pub proof fn law_extra_members(extra: Value, members: Map<Seq<char>, Value>, name: Seq<char>)
    ensures
        !extra_members(None).contains_key(name),
        json_members(extra) is None ==> !extra_members(Some(extra)).contains_key(name),
        json_members(extra) == Some(members) ==> extra_members(Some(extra)) == members,
{
}

} // verus!
