//! The JSON text of records.
//!
//! A record is written as one object: the key first, under `id`, then one
//! member per column, in the order of the columns, with no white space. A
//! list of records is written as an array of such objects. String escaping
//! is left to `serde_json`; the framing around the strings is built here,
//! from texts that are JSON already.

use crate::decimal::{append_decimal, decimal_text};
use crate::entity::{Entity, Record, RecordView};
use vstd::prelude::*;
use vstd::string::StringExecFns;

verus! {

/// The JSON string literal that `serde_json::to_string` writes for the text
/// `s`: the text between double quotes, with its escapes.
pub uninterp spec fn json_string(s: Seq<char>) -> Seq<char>;

/// Whether `s` holds none of the characters that `serde_json` escapes in a
/// string: the double quote, the backslash, and the controls below U+0020.
pub open spec fn is_plain(s: Seq<char>) -> bool {
    forall|i: int|
        0 <= i < s.len() ==> (#[trigger] s[i]) as u32 >= 0x20 && s[i] != '"' && s[i] != '\\'
}

/// Calls `serde_json::to_string` on a string slice. The contract names the
/// result, and says what it is for a text without a character to escape: the
/// text as it is, between double quotes. What the escapes look like is not
/// written out here. The contract also claims that the call succeeds: of
/// the two causes of failure that `serde_json` documents, a failing
/// `Serialize` impl and a map with keys that are no strings, neither can
/// arise for a `str`, and the text is written into memory.
#[verifier::external_body]
fn quote(s: &str) -> (r: String)
    ensures
        r@ == json_string(s@),
        is_plain(s@) ==> r@ == seq!['"'] + s@ + seq!['"'],
{
    serde_json::to_string(s).unwrap_or_default()
}

/// The JSON text of a string.
pub fn string_json(text: &str) -> (json: String)
    ensures
        json@ == json_string(text@),
        is_plain(text@) ==> json_string(text@) == seq!['"'] + text@ + seq!['"'],
{
    quote(text)
}

/// The first `n` of `items`, with a comma between each two.
pub open spec fn joined(items: Seq<Seq<char>>, n: nat) -> Seq<char>
    decreases n,
{
    if n == 0 {
        Seq::empty()
    } else if n == 1 {
        items[0]
    } else {
        joined(items, (n - 1) as nat) + ","@ + items[n - 1]
    }
}

/// The JSON array of `items`, each of them a JSON text.
pub open spec fn array_text(items: Seq<Seq<char>>) -> Seq<char> {
    "["@ + joined(items, items.len()) + "]"@
}

/// One member of a JSON object: its key, a JSON string, and its value, a
/// JSON text.
pub open spec fn member_text(member: (Seq<char>, Seq<char>)) -> Seq<char> {
    member.0 + ":"@ + member.1
}

/// The JSON object of `members`, in their order.
pub open spec fn object_text(members: Seq<(Seq<char>, Seq<char>)>) -> Seq<char> {
    "{"@ + joined(members.map_values(|m: (Seq<char>, Seq<char>)| member_text(m)), members.len())
        + "}"@
}

/// The JSON text of a key: the number, or `null` for a record without one.
pub open spec fn json_id(id: Option<i32>) -> Seq<char> {
    match id {
        Some(n) => decimal_text(n as int),
        None => "null"@,
    }
}

/// The members of the JSON object of a record of `entity`: `id` with the
/// key, then each column with its value.
pub open spec fn record_members(entity: Entity, record: RecordView) -> Seq<
    (Seq<char>, Seq<char>),
> {
    seq![(json_string("id"@), json_id(record.id))] + Seq::new(
        entity.columns().len(),
        |i: int| (json_string(entity.columns()[i]), json_string(record.values[i])),
    )
}

/// The JSON text of a record of `entity`.
pub open spec fn json_record(entity: Entity, record: RecordView) -> Seq<char> {
    object_text(record_members(entity, record))
}

/// The JSON text of a list of records of `entity`.
pub open spec fn json_list(entity: Entity, rows: Seq<RecordView>) -> Seq<char> {
    array_text(Seq::new(rows.len(), |i: int| json_record(entity, rows[i])))
}

/// Whether every record of `rows` has one value for each column of `entity`.
pub open spec fn all_fit(entity: Entity, rows: Seq<RecordView>) -> bool {
    forall|i: int| 0 <= i < rows.len() ==> (#[trigger] rows[i]).fits(entity)
}

/// The payload of a login that matched: a message and the name of the
/// matching row.
pub open spec fn login_success(name: Seq<char>) -> Seq<char> {
    object_text(
        seq![
            (json_string("message"@), json_string("Login successful"@)),
            (json_string("name"@), json_string(name)),
        ],
    )
}

/// The payload of a login that matched nothing.
pub open spec fn login_failure() -> Seq<char> {
    object_text(seq![(json_string("message"@), json_string("Invalid credentials"@))])
}

/// Joins JSON texts with commas.
pub fn join(items: &Vec<String>) -> (text: String)
    ensures
        text@ == joined(items.deep_view(), items.len() as nat),
{
    let ghost views = items.deep_view();
    let mut text = String::new();
    let mut i: usize = 0;
    while i < items.len()
        invariant
            i <= items.len(),
            views == items.deep_view(),
            text@ == joined(views, i as nat),
        decreases items.len() - i,
    {
        if i > 0 {
            text.append(",");
        }
        text.append(items[i].as_str());
        assert(views[i as int] == items@[i as int]@);
        assert(text@ =~= joined(views, (i + 1) as nat));
        i += 1;
    }
    text
}

/// Frames JSON texts as a JSON array.
pub fn json_array(items: &Vec<String>) -> (text: String)
    ensures
        text@ == array_text(items.deep_view()),
{
    let mut text = String::from_str("[");
    text.append(join(items).as_str());
    text.append("]");
    text
}

/// Frames members as a JSON object. Each member is a key, which is a JSON
/// string already, and a value, which is a JSON text already.
pub fn json_object(members: &Vec<(String, String)>) -> (text: String)
    ensures
        text@ == object_text(members.deep_view()),
{
    let ghost views = members.deep_view();
    let mut items: Vec<String> = Vec::new();
    let mut i: usize = 0;
    while i < members.len()
        invariant
            i <= members.len(),
            items.len() == i,
            views == members.deep_view(),
            forall|j: int| 0 <= j < i ==> (#[trigger] items@[j])@ == member_text(views[j]),
        decreases members.len() - i,
    {
        let mut item = members[i].0.clone();
        item.append(":");
        item.append(members[i].1.as_str());
        assert(views[i as int] == (members@[i as int].0@, members@[i as int].1@));
        items.push(item);
        i += 1;
    }
    assert(items.deep_view() =~= views.map_values(|m: (Seq<char>, Seq<char>)| member_text(m)));
    let mut text = String::from_str("{");
    text.append(join(&items).as_str());
    text.append("}");
    text
}

/// The JSON text of one record.
pub fn record_json(entity: Entity, record: &Record) -> (text: String)
    requires
        record@.fits(entity),
    ensures
        text@ == json_record(entity, record@),
{
    let mut key = String::new();
    match record.id {
        Some(n) => append_decimal(&mut key, n),
        None => key.append("null"),
    }
    assert(key@ =~= json_id(record.id));
    let mut members: Vec<(String, String)> = Vec::new();
    members.push((quote("id"), key));
    let count = entity.column_count();
    let mut i: usize = 0;
    while i < count
        invariant
            i <= count == entity.columns().len() == record.values.len(),
            members.len() == i + 1,
            members@[0].0@ == json_string("id"@),
            members@[0].1@ == json_id(record.id),
            forall|j: int|
                0 <= j < i ==> {
                    &&& (#[trigger] members@[j + 1]).0@ == json_string(entity.columns()[j])
                    &&& members@[j + 1].1@ == json_string(record.values@[j]@)
                },
        decreases count - i,
    {
        members.push((quote(entity.column_name(i)), quote(record.values[i].as_str())));
        i += 1;
    }
    assert(members.deep_view() =~= record_members(entity, record@)) by {
        assert forall|k: int| 0 <= k < members.len() implies members.deep_view()[k]
            == record_members(entity, record@)[k] by {
            if k > 0 {
                assert(members@[(k - 1) + 1] == members@[k]);
            }
        }
    }
    json_object(&members)
}

/// Tells whether every record of `rows` has one value for each column of
/// `entity`.
pub fn rows_fit(entity: Entity, rows: &Vec<Record>) -> (b: bool)
    ensures
        b == all_fit(entity, rows.deep_view()),
{
    let mut i: usize = 0;
    while i < rows.len()
        invariant
            i <= rows.len(),
            forall|j: int| 0 <= j < i ==> (#[trigger] rows.deep_view()[j]).fits(entity),
        decreases rows.len() - i,
    {
        assert(rows.deep_view()[i as int] == rows@[i as int]@);
        if !rows[i].fits(entity) {
            return false;
        }
        i += 1;
    }
    true
}

/// The JSON text of a list of records.
pub fn list_json(entity: Entity, rows: &Vec<Record>) -> (text: String)
    requires
        all_fit(entity, rows.deep_view()),
    ensures
        text@ == json_list(entity, rows.deep_view()),
{
    let ghost views = rows.deep_view();
    let mut items: Vec<String> = Vec::new();
    let mut i: usize = 0;
    while i < rows.len()
        invariant
            i <= rows.len(),
            items.len() == i,
            views == rows.deep_view(),
            all_fit(entity, views),
            forall|j: int| 0 <= j < i ==> (#[trigger] items@[j])@ == json_record(entity, views[j]),
        decreases rows.len() - i,
    {
        assert(views[i as int] == rows@[i as int]@);
        assert(views[i as int].fits(entity));
        items.push(record_json(entity, &rows[i]));
        i += 1;
    }
    assert(items.deep_view() =~= Seq::new(views.len(), |i: int| json_record(entity, views[i])));
    json_array(&items)
}

/// The payload of a login that matched the row with this name.
pub fn login_success_json(name: &str) -> (text: String)
    ensures
        text@ == login_success(name@),
{
    let mut members: Vec<(String, String)> = Vec::new();
    members.push((quote("message"), quote("Login successful")));
    members.push((quote("name"), quote(name)));
    assert(members.deep_view() =~= seq![
        (json_string("message"@), json_string("Login successful"@)),
        (json_string("name"@), json_string(name@)),
    ]);
    json_object(&members)
}

/// The payload of a login that matched nothing.
pub fn login_failure_json() -> (text: String)
    ensures
        text@ == login_failure(),
{
    let mut members: Vec<(String, String)> = Vec::new();
    members.push((quote("message"), quote("Invalid credentials")));
    assert(members.deep_view() =~= seq![
        (json_string("message"@), json_string("Invalid credentials"@)),
    ]);
    json_object(&members)
}

} // verus!
