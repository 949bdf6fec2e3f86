//! A JSON document as a tree of plain values.

use vstd::prelude::*;
use vstd::string::*;

use crate::text;

verus! {

/// A JSON value. Numbers keep their text; objects keep their members in order,
/// each name once.
#[derive(Debug)]
pub enum Json {
    Null,
    Bool(bool),
    Number(String),
    Text(String),
    Array(Vec<Json>),
    Object(Vec<(String, Json)>),
}

pub open spec fn has_member(members: Seq<(String, Json)>, name: Seq<char>) -> bool {
    exists|i: int| 0 <= i < members.len() && (#[trigger] members[i]).0@ == name
}

/// An object without members.
pub open spec fn is_empty_object(value: Json) -> bool {
    value matches Json::Object(members) && members@.len() == 0
}

/// The first member of that name.
pub open spec fn is_first_member(members: Seq<(String, Json)>, name: Seq<char>, i: int) -> bool {
    &&& 0 <= i < members.len()
    &&& members[i].0@ == name
    &&& forall|j: int| 0 <= j < i ==> (#[trigger] members[j]).0@ != name
}

/// What `value[name]` reads: the member, or null where there is none.
pub open spec fn member(value: Json, name: Seq<char>) -> Json {
    match value {
        Json::Object(members) => if has_member(members@, name) {
            members@[choose|i: int| is_first_member(members@, name, i)].1
        } else {
            Json::Null
        },
        _ => Json::Null,
    }
}

/// The value has a member of that name, whatever it holds.
pub open spec fn has(value: Json, name: Seq<char>) -> bool {
    value matches Json::Object(members) && has_member(members@, name)
}

pub open spec fn as_text(value: Json) -> Option<Seq<char>> {
    match value {
        Json::Text(s) => Some(s@),
        _ => None,
    }
}

pub fn find_member(members: &Vec<(String, Json)>, name: &str) -> (r: Option<usize>)
    ensures
        match r {
            Some(i) => is_first_member(members@, name@, i as int) && has_member(
                members@,
                name@,
            ),
            None => !has_member(members@, name@),
        },
{
    let mut i: usize = 0;
    while i < members.len()
        invariant
            i <= members@.len(),
            forall|j: int| 0 <= j < i ==> (#[trigger] members@[j]).0@ != name@,
        decreases members@.len() - i,
    {
        if text::str_eq(members[i].0.as_str(), name) {
            return Some(i);
        }
        i += 1;
    }
    None
}

impl Json {
    /// The member of that name, where there is one.
    pub fn get(&self, name: &str) -> (r: Option<&Json>)
        ensures
            r is Some == has(*self, name@),
            r matches Some(v) ==> *v == member(*self, name@),
    {
        match self {
            Json::Object(members) => match find_member(members, name) {
                Some(i) => {
                    proof {
                        let k = choose|k: int| is_first_member(members@, name@, k);
                        assert(is_first_member(members@, name@, k));
                        if k < i {
                            assert(members@[k].0@ != name@);
                        } else if i < k {
                            assert(members@[i as int].0@ != name@);
                        }
                    }
                    Some(&members[i].1)
                },
                None => None,
            },
            _ => None,
        }
    }

    /// The text of a string value.
    pub fn as_str(&self) -> (r: Option<&str>)
        ensures
            match r {
                Some(s) => as_text(*self) == Some(s@),
                None => as_text(*self) is None,
            },
    {
        match self {
            Json::Text(s) => Some(s.as_str()),
            _ => None,
        }
    }

    /// The text of a string member.
    pub fn text_member(&self, name: &str) -> (r: Option<&str>)
        ensures
            match r {
                Some(s) => as_text(member(*self, name@)) == Some(s@),
                None => as_text(member(*self, name@)) is None,
            },
    {
        match self.get(name) {
            Some(v) => v.as_str(),
            None => None,
        }
    }

    /// Takes the member of that name out; null where there is none.
    pub fn into_member(self, name: &str) -> (r: Json)
        ensures
            r == member(self, name@),
    {
        match self {
            Json::Object(members) => {
                let mut members = members;
                match find_member(&members, name) {
                    Some(i) => {
                        proof {
                            let k = choose|k: int| is_first_member(members@, name@, k);
                            assert(is_first_member(members@, name@, k));
                            if k < i {
                                assert(members@[k].0@ != name@);
                            } else if i < k {
                                assert(members@[i as int].0@ != name@);
                            }
                        }
                        members.remove(i).1
                    },
                    None => Json::Null,
                }
            },
            _ => Json::Null,
        }
    }

    pub fn is_null(&self) -> (r: bool)
        ensures
            r == (*self is Null),
    {
        matches!(self, Json::Null)
    }
}

// ---------------------------------------------------------------------------
// Rows of an object

pub open spec fn is_field(row: (String, Json), name: Seq<char>, value: Json) -> bool {
    row.0@ == name && row.1 == value
}

pub open spec fn is_text_field(row: (String, Json), name: Seq<char>, value: Seq<char>) -> bool {
    row.0@ == name && as_text(row.1) == Some(value)
}

pub open spec fn is_number(value: Json, n: nat) -> bool {
    value matches Json::Number(s) && s@ == text::dec(n)
}

pub open spec fn is_number_field(row: (String, Json), name: Seq<char>, n: nat) -> bool {
    row.0@ == name && is_number(row.1, n)
}

/// A row that holds a text, or null.
pub open spec fn is_opt_text_field(
    row: (String, Json),
    name: Seq<char>,
    value: Option<Seq<char>>,
) -> bool {
    row.0@ == name && match value {
        Some(s) => as_text(row.1) == Some(s),
        None => row.1 is Null,
    }
}

pub(crate) fn field_of(name: &str, value: Json) -> (r: (String, Json))
    ensures
        is_field(r, name@, value),
        row_view(r) == (name@, json_view(value)),
{
    (name.to_string(), value)
}

pub(crate) fn text_field(name: &str, value: &str) -> (r: (String, Json))
    ensures
        is_text_field(r, name@, value@),
        row_view(r) == (name@, JsonView::Text(value@)),
{
    (name.to_string(), Json::Text(value.to_string()))
}

pub(crate) fn number_field(name: &str, n: u64) -> (r: (String, Json))
    ensures
        is_number_field(r, name@, n as nat),
        row_view(r) == (name@, JsonView::Number(text::dec(n as nat))),
{
    (name.to_string(), Json::Number(text::dec_string(n)))
}

pub(crate) fn opt_text_field(name: &str, value: &Option<String>) -> (r: (String, Json))
    ensures
        is_opt_text_field(r, name@, text::opt_view(*value)),
        row_view(r) == (name@, opt_text_view(text::opt_view(*value))),
{
    match value {
        Some(s) => (name.to_string(), Json::Text(s.clone())),
        None => (name.to_string(), Json::Null),
    }
}

// ---------------------------------------------------------------------------
// Members by name

/// The first member of that name.
pub open spec fn field(members: Seq<(String, Json)>, name: Seq<char>) -> Option<Json>
    decreases members.len(),
{
    if members.len() == 0 {
        None
    } else if members[0].0@ == name {
        Some(members[0].1)
    } else {
        field(members.skip(1), name)
    }
}

/// What a value holds under a name.
pub open spec fn member_at(value: Json, name: Seq<char>) -> Option<Json> {
    match value {
        Json::Object(members) => field(members@, name),
        _ => None,
    }
}

proof fn lemma_field_at(members: Seq<(String, Json)>, name: Seq<char>, i: int)
    requires
        is_first_member(members, name, i),
    ensures
        field(members, name) == Some(members[i].1),
    decreases i,
{
    if i > 0 {
        assert(members[0].0@ != name);
        let rest = members.skip(1);
        assert forall|j: int| 0 <= j < i - 1 implies (#[trigger] rest[j]).0@ != name by {
            assert(rest[j] == members[j + 1]);
        }
        lemma_field_at(rest, name, i - 1);
    }
}

proof fn lemma_field_absent(members: Seq<(String, Json)>, name: Seq<char>)
    requires
        !has_member(members, name),
    ensures
        field(members, name) is None,
    decreases members.len(),
{
    if members.len() > 0 {
        assert(members[0].0@ != name);
        let rest = members.skip(1);
        if has_member(rest, name) {
            let j = choose|j: int| 0 <= j < rest.len() && (#[trigger] rest[j]).0@ == name;
            assert(members[j + 1].0@ == name);
        }
        lemma_field_absent(rest, name);
    }
}

/// A member under another name is the same after a change under this one.
proof fn lemma_field_update(
    members: Seq<(String, Json)>,
    i: int,
    row: (String, Json),
    name: Seq<char>,
)
    requires
        0 <= i < members.len(),
        row.0@ == members[i].0@,
        members[i].0@ != name,
    ensures
        field(members.update(i, row), name) == field(members, name),
    decreases members.len(),
{
    if i > 0 {
        assert(members.update(i, row).skip(1) =~= members.skip(1).update(i - 1, row));
        if members[0].0@ != name {
            lemma_field_update(members.skip(1), i - 1, row, name);
        }
    } else {
        assert(members.update(0, row).skip(1) =~= members.skip(1));
    }
}

proof fn lemma_field_push(members: Seq<(String, Json)>, row: (String, Json), name: Seq<char>)
    ensures
        field(members.push(row), name) == match field(members, name) {
            Some(v) => Some(v),
            None => if row.0@ == name {
                Some(row.1)
            } else {
                None
            },
        },
    decreases members.len(),
{
    if members.len() > 0 {
        assert(members.push(row).skip(1) =~= members.skip(1).push(row));
        lemma_field_push(members.skip(1), row, name);
    } else {
        assert(members.push(row).skip(1) =~= members);
        assert(members.push(row)[0] == row);
    }
}

/// Puts a value under a name, in place of the one that is there.
pub fn put_member(members: &mut Vec<(String, Json)>, name: String, value: Json)
    ensures
        forall|n: Seq<char>| #[trigger]
            field(final(members)@, n) == if n == name@ {
                Some(value)
            } else {
                field(old(members)@, n)
            },
        forall|depth: nat| #[trigger]
            members_shallow(old(members)@, depth) && shallow(value, depth) ==> members_shallow(
                final(members)@,
                depth,
            ),
{
    let ghost before = members@;
    match find_member(members, name.as_str()) {
        Some(i) => {
            let row = (name, value);
            members.set(i, row);
            proof {
                assert forall|n: Seq<char>| #[trigger]
                    field(members@, n) == if n == name@ {
                        Some(value)
                    } else {
                        field(before, n)
                    } by {
                    if n == name@ {
                        assert(is_first_member(members@, n, i as int));
                        lemma_field_at(members@, n, i as int);
                    } else {
                        lemma_field_update(before, i as int, row, n);
                    }
                }
            }
        },
        None => {
            members.push((name, value));
            proof {
                assert forall|n: Seq<char>| #[trigger]
                    field(members@, n) == if n == name@ {
                        Some(value)
                    } else {
                        field(before, n)
                    } by {
                    lemma_field_push(before, (name, value), n);
                    if n == name@ {
                        lemma_field_absent(before, n);
                    }
                }
            }
        },
    }
}

/// Takes out what is under a name, and leaves a null in its place.
pub fn take_member(members: &mut Vec<(String, Json)>, name: &str) -> (r: Option<Json>)
    ensures
        r == field(old(members)@, name@),
        forall|n: Seq<char>| n != name@ ==> #[trigger] field(final(members)@, n) == field(
            old(members)@,
            n,
        ),
        field(final(members)@, name@) == match field(old(members)@, name@) {
            Some(_) => Some(Json::Null),
            None => None,
        },
        forall|depth: nat| #[trigger]
            members_shallow(old(members)@, depth) ==> members_shallow(final(members)@, depth) && (
            r matches Some(value) ==> shallow(value, depth)),
{
    let ghost before = members@;
    match find_member(members, name) {
        Some(i) => {
            let (key, value) = members.remove(i);
            members.insert(i, (key, Json::Null));
            proof {
                assert(members@ =~= before.update(i as int, (key, Json::Null)));
                lemma_field_at(before, name@, i as int);
                assert(is_first_member(members@, name@, i as int));
                lemma_field_at(members@, name@, i as int);
                assert forall|n: Seq<char>| n != name@ implies #[trigger] field(members@, n)
                    == field(before, n) by {
                    lemma_field_update(before, i as int, (key, Json::Null), n);
                }
            }
            Some(value)
        },
        None => {
            proof {
                lemma_field_absent(before, name@);
            }
            None
        },
    }
}

/// What is under a name, and where it is null or missing.
pub fn field_is_null(members: &Vec<(String, Json)>, name: &str) -> (r: bool)
    ensures
        r == match field(members@, name@) {
            Some(v) => v is Null,
            None => true,
        },
{
    match find_member(members, name) {
        Some(i) => {
            proof {
                lemma_field_at(members@, name@, i as int);
            }
            members[i].1.is_null()
        },
        None => {
            proof {
                lemma_field_absent(members@, name@);
            }
            true
        },
    }
}

/// The two ways to read a member agree.
pub proof fn lemma_member_at(value: Json, name: Seq<char>)
    ensures
        member_at(value, name) is Some == has(value, name),
        member_at(value, name) matches Some(v) ==> v == member(value, name),
{
    match value {
        Json::Object(members) => {
            if has_member(members@, name) {
                lemma_first_member_exists(members@, name);
                let i = choose|i: int| is_first_member(members@, name, i);
                lemma_field_at(members@, name, i);
            } else {
                lemma_field_absent(members@, name);
            }
        },
        _ => {},
    }
}

proof fn lemma_first_member_exists(members: Seq<(String, Json)>, name: Seq<char>)
    requires
        has_member(members, name),
    ensures
        exists|i: int| is_first_member(members, name, i),
    decreases members.len(),
{
    if members[0].0@ == name {
        assert(is_first_member(members, name, 0));
    } else {
        let k = choose|k: int| 0 <= k < members.len() && (#[trigger] members[k]).0@ == name;
        let rest = members.skip(1);
        assert(rest[k - 1].0@ == name);
        lemma_first_member_exists(rest, name);
        let i = choose|i: int| is_first_member(rest, name, i);
        assert forall|j: int| 0 <= j < i + 1 implies (#[trigger] members[j]).0@ != name by {
            if j > 0 {
                assert(rest[j - 1] == members[j]);
            }
        }
        assert(is_first_member(members, name, i + 1));
    }
}

// ---------------------------------------------------------------------------
// What a value holds

/// What a value holds, down to its texts.
pub enum JsonView {
    Null,
    Bool(bool),
    Number(Seq<char>),
    Text(Seq<char>),
    Array(Seq<JsonView>),
    Object(Seq<(Seq<char>, JsonView)>),
}

pub open spec fn json_view(value: Json) -> JsonView
    decreases value,
{
    match value {
        Json::Null => JsonView::Null,
        Json::Bool(b) => JsonView::Bool(b),
        Json::Number(s) => JsonView::Number(s@),
        Json::Text(s) => JsonView::Text(s@),
        Json::Array(items) => JsonView::Array(
            Seq::new(
                items@.len(),
                |i: int|
                    if 0 <= i < items@.len() {
                        json_view(items@[i])
                    } else {
                        JsonView::Null
                    },
            ),
        ),
        Json::Object(members) => JsonView::Object(
            Seq::new(
                members@.len(),
                |i: int|
                    if 0 <= i < members@.len() {
                        (members@[i].0@, json_view(members@[i].1))
                    } else {
                        (Seq::empty(), JsonView::Null)
                    },
            ),
        ),
    }
}

pub open spec fn row_view(row: (String, Json)) -> (Seq<char>, JsonView) {
    (row.0@, json_view(row.1))
}

/// A text, or null.
pub open spec fn opt_text_view(value: Option<Seq<char>>) -> JsonView {
    match value {
        Some(s) => JsonView::Text(s),
        None => JsonView::Null,
    }
}

/// An object holds what its members hold.
pub proof fn lemma_object_view(value: Json, view: Seq<(Seq<char>, JsonView)>)
    requires
        value matches Json::Object(members) && members@.len() == view.len() && forall|i: int|
            0 <= i < members@.len() ==> row_view(#[trigger] members@[i]) == view[i],
    ensures
        json_view(value) == JsonView::Object(view),
{
    match value {
        Json::Object(members) => {
            let shown = json_view(value)->Object_0;
            assert forall|i: int| 0 <= i < view.len() implies shown[i] == view[i] by {
                assert(row_view(members@[i]) == view[i]);
            }
            assert(shown =~= view);
        },
        _ => {},
    }
}

/// An array holds what its items hold.
pub proof fn lemma_array_view(value: Json, view: Seq<JsonView>)
    requires
        value matches Json::Array(items) && items@.len() == view.len() && forall|i: int|
            0 <= i < items@.len() ==> json_view(#[trigger] items@[i]) == view[i],
    ensures
        json_view(value) == JsonView::Array(view),
{
    match value {
        Json::Array(items) => {
            let shown = json_view(value)->Array_0;
            assert forall|i: int| 0 <= i < view.len() implies shown[i] == view[i] by {
                assert(json_view(items@[i]) == view[i]);
            }
            assert(shown =~= view);
        },
        _ => {},
    }
}

/// Arrays and objects stand inside one another in the value at most `n` levels
/// deep.
pub open spec fn shallow(value: Json, n: nat) -> bool
    decreases n,
{
    match value {
        Json::Array(items) => if n == 0 {
            false
        } else {
            forall|i: int| 0 <= i < items@.len() ==> shallow(#[trigger] items@[i], (n - 1) as nat)
        },
        Json::Object(members) => if n == 0 {
            false
        } else {
            forall|i: int|
                0 <= i < members@.len() ==> shallow((#[trigger] members@[i]).1, (n - 1) as nat)
        },
        _ => true,
    }
}

/// So it is in every member.
pub open spec fn members_shallow(members: Seq<(String, Json)>, n: nat) -> bool {
    forall|i: int| 0 <= i < members.len() ==> shallow((#[trigger] members[i]).1, n)
}

/// How deep a document may be nested that is read.
pub const MAX_READ_DEPTH: usize = 128;

/// How deep a value may be nested that is written.
pub const MAX_WRITE_DEPTH: usize = 160;

/// A value that is nested no deeper than `n` levels is nested no deeper than `m`.
pub proof fn lemma_shallower(value: Json, n: nat, m: nat)
    requires
        shallow(value, n),
        n <= m,
    ensures
        shallow(value, m),
    decreases n,
{
    match value {
        Json::Array(items) => {
            assert forall|i: int| 0 <= i < items@.len() implies shallow(
                #[trigger] items@[i],
                (m - 1) as nat,
            ) by {
                lemma_shallower(items@[i], (n - 1) as nat, (m - 1) as nat);
            }
        },
        Json::Object(members) => {
            assert forall|i: int| 0 <= i < members@.len() implies shallow(
                (#[trigger] members@[i]).1,
                (m - 1) as nat,
            ) by {
                lemma_shallower(members@[i].1, (n - 1) as nat, (m - 1) as nat);
            }
        },
        _ => {},
    }
}

/// A member is nested no deeper than the value that it stands in.
pub proof fn lemma_member_shallow(value: Json, name: Seq<char>, n: nat)
    requires
        shallow(value, n),
    ensures
        shallow(member(value, name), n),
{
    match value {
        Json::Object(members) => {
            if has_member(members@, name) {
                lemma_first_member_exists(members@, name);
                let i = choose|i: int| is_first_member(members@, name, i);
                assert(shallow(members@[i].1, (n - 1) as nat));
                lemma_shallower(members@[i].1, (n - 1) as nat, n);
            }
        },
        _ => {},
    }
}

/// Whether a value is nested no deeper than `n` levels.
pub fn is_shallow(value: &Json, n: usize) -> (r: bool)
    ensures
        r == shallow(*value, n as nat),
    decreases n,
{
    let ghost depth: nat = n as nat;
    match value {
        Json::Array(items) => {
            if n == 0 {
                return false;
            }
            let mut i: usize = 0;
            while i < items.len()
                invariant
                    i <= items@.len(),
                    n > 0,
                    depth == n,
                    shallow(*value, depth) == forall|k: int|
                        0 <= k < items@.len() ==> shallow(#[trigger] items@[k], (n - 1) as nat),
                    forall|k: int| 0 <= k < i ==> shallow(#[trigger] items@[k], (n - 1) as nat),
                decreases items@.len() - i,
            {
                if !is_shallow(&items[i], n - 1) {
                    assert(!shallow(items@[i as int], (n - 1) as nat));
                    return false;
                }
                i += 1;
            }
            true
        },
        Json::Object(members) => {
            if n == 0 {
                return false;
            }
            let mut i: usize = 0;
            while i < members.len()
                invariant
                    i <= members@.len(),
                    n > 0,
                    depth == n,
                    shallow(*value, depth) == forall|k: int|
                        0 <= k < members@.len() ==> shallow(
                            (#[trigger] members@[k]).1,
                            (n - 1) as nat,
                        ),
                    forall|k: int|
                        0 <= k < i ==> shallow((#[trigger] members@[k]).1, (n - 1) as nat),
                decreases members@.len() - i,
            {
                if !is_shallow(&members[i].1, n - 1) {
                    assert(!shallow(members@[i as int].1, (n - 1) as nat));
                    return false;
                }
                i += 1;
            }
            true
        },
        _ => true,
    }
}

// ---------------------------------------------------------------------------
// Values as text

/// What `serde_json` makes of a text: the value that it reads, or its error. An
/// object's members come in the order in which it walks them.
pub uninterp spec fn json_document(text: Seq<char>) -> Result<JsonView, Seq<char>>;

/// The text that `serde_json` writes for a value.
pub uninterp spec fn json_text(value: JsonView) -> Seq<char>;

pub open spec fn document_view(r: Result<Json, String>) -> Result<JsonView, Seq<char>> {
    match r {
        Ok(value) => Ok(json_view(value)),
        Err(e) => Err(e@),
    }
}

/// `serde_json::Value`, on its way into a value of this library or out of one.
#[verifier::external_type_specification]
#[verifier::external_body]
pub struct ExValue(serde_json::Value);

/// A `serde_json::Value` as a value of this library, variant for variant; a number
/// by its text. Nothing is claimed of it here: `read_json` names what comes out.
#[verifier::external_body]
fn from_value(value: serde_json::Value) -> Json {
    match value {
        serde_json::Value::Null => Json::Null,
        serde_json::Value::Bool(b) => Json::Bool(b),
        serde_json::Value::Number(n) => Json::Number(n.to_string()),
        serde_json::Value::String(s) => Json::Text(s),
        serde_json::Value::Array(items) => Json::Array(items.into_iter().map(from_value).collect()),
        serde_json::Value::Object(members) => Json::Object(
            members.into_iter().map(|(name, value)| (name, from_value(value))).collect(),
        ),
    }
}

/// A value of this library as a `serde_json::Value`, variant for variant; a number as
/// `serde_json::Number` reads its text, null where it does not. It calls itself for
/// every level of nesting. Nothing is claimed of it here: what is made of the result
/// is named where that happens.
#[verifier::external_body]
pub(crate) fn to_value(value: &Json) -> serde_json::Value
    requires
        shallow(*value, MAX_WRITE_DEPTH as nat),
{
    match value {
        Json::Null => serde_json::Value::Null,
        Json::Bool(b) => serde_json::Value::Bool(*b),
        Json::Number(n) => n.parse().map_or(serde_json::Value::Null, serde_json::Value::Number),
        Json::Text(s) => serde_json::Value::String(s.clone()),
        Json::Array(items) => serde_json::Value::Array(items.iter().map(to_value).collect()),
        Json::Object(members) => serde_json::Value::Object(
            members.iter().map(|(name, value)| (name.clone(), to_value(value))).collect(),
        ),
    }
}

/// `serde_json::from_str` reads a text as a `serde_json::Value`. The contract names
/// the value, or the error's text, and says how deep a document can be that it
/// reads.
#[verifier::external_body]
pub(crate) fn read_json(text: &str) -> (r: Result<Json, String>)
    ensures
        document_view(r) == json_document(text@),
        r matches Ok(value) ==> shallow(value, MAX_READ_DEPTH as nat),
{
    match serde_json::from_str::<serde_json::Value>(text) {
        Ok(value) => Ok(from_value(value)),
        Err(err) => Err(err.to_string()),
    }
}

/// `serde_json::Value`'s `Display` writes a value in its shortest form. The contract
/// names the text.
#[verifier::external_body]
pub(crate) fn write_json(value: &Json) -> (r: String)
    requires
        shallow(*value, MAX_WRITE_DEPTH as nat),
    ensures
        r@ == json_text(json_view(*value)),
{
    to_value(value).to_string()
}

} // verus!
