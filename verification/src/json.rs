//! JSON documents as plain values.
use crate::text::{numeral, same};
use vstd::prelude::*;

verus! {

/// A JSON document.
#[derive(Debug)]
pub enum Json {
    Null,
    Bool(bool),
    /// A number, in its JSON text.
    Number(String),
    Text(String),
    List(Vec<Json>),
    Object(Vec<Member>),
}

/// One member of an object.
#[derive(Debug)]
pub struct Member {
    pub name: String,
    pub value: Json,
}

/// What a document says.
pub enum JsonView {
    Null,
    Bool(bool),
    Number(Seq<char>),
    Text(Seq<char>),
    List(Seq<JsonView>),
    Object(Seq<(Seq<char>, JsonView)>),
}

impl Json {
    pub open spec fn view(&self) -> JsonView
        decreases self,
    {
        match self {
            Json::Null => JsonView::Null,
            Json::Bool(b) => JsonView::Bool(*b),
            Json::Number(t) => JsonView::Number(t@),
            Json::Text(t) => JsonView::Text(t@),
            Json::List(items) => JsonView::List(
                Seq::new(
                    items@.len(),
                    |i: int|
                        if 0 <= i < items@.len() {
                            items@[i].view()
                        } else {
                            JsonView::Null
                        },
                ),
            ),
            Json::Object(members) => JsonView::Object(
                Seq::new(
                    members@.len(),
                    |i: int|
                        if 0 <= i < members@.len() {
                            (members@[i].name@, members@[i].value.view())
                        } else {
                            (Seq::empty(), JsonView::Null)
                        },
                ),
            ),
        }
    }
}

/// What a document says, where there is one.
pub open spec fn json_view(value: Option<Json>) -> Option<JsonView> {
    match value {
        Some(value) => Some(value.view()),
        None => None,
    }
}

// ---------------------------------------------------------------------------
// Reading

/// The value of the first member of that name.
pub open spec fn member(members: Seq<(Seq<char>, JsonView)>, name: Seq<char>) -> Option<JsonView>
    decreases members.len(),
{
    if members.len() == 0 {
        None
    } else if members[0].0 == name {
        Some(members[0].1)
    } else {
        member(members.drop_first(), name)
    }
}

impl JsonView {
    /// The member of that name, of an object that has one.
    pub open spec fn get(self, name: Seq<char>) -> Option<JsonView> {
        match self {
            JsonView::Object(members) => member(members, name),
            _ => None,
        }
    }

    /// The item at `i`, of a list that has one.
    pub open spec fn at(self, i: int) -> Option<JsonView> {
        match self {
            JsonView::List(items) => if 0 <= i < items.len() {
                Some(items[i])
            } else {
                None
            },
            _ => None,
        }
    }

    pub open spec fn text(self) -> Option<Seq<char>> {
        match self {
            JsonView::Text(text) => Some(text),
            _ => None,
        }
    }

    pub open spec fn boolean(self) -> Option<bool> {
        match self {
            JsonView::Bool(value) => Some(value),
            _ => None,
        }
    }

    pub open spec fn list(self) -> Option<Seq<JsonView>> {
        match self {
            JsonView::List(items) => Some(items),
            _ => None,
        }
    }
}

/// The member of that name, where the document is there at all.
pub open spec fn get_in(value: Option<JsonView>, name: Seq<char>) -> Option<JsonView> {
    match value {
        Some(value) => value.get(name),
        None => None,
    }
}

/// The item at `i`, where the document is there at all.
pub open spec fn at_in(value: Option<JsonView>, i: int) -> Option<JsonView> {
    match value {
        Some(value) => value.at(i),
        None => None,
    }
}

pub open spec fn text_in(value: Option<JsonView>) -> Option<Seq<char>> {
    match value {
        Some(value) => value.text(),
        None => None,
    }
}

pub open spec fn boolean_in(value: Option<JsonView>) -> Option<bool> {
    match value {
        Some(value) => value.boolean(),
        None => None,
    }
}

/// A borrowed document's view.
pub open spec fn lent(value: Option<&Json>) -> Option<JsonView> {
    match value {
        Some(value) => Some(value.view()),
        None => None,
    }
}

/// A borrowed text's view.
pub open spec fn lent_text(value: Option<&String>) -> Option<Seq<char>> {
    match value {
        Some(value) => Some(value@),
        None => None,
    }
}

impl Json {
    /// The member of that name, of an object that has one.
    pub fn get(&self, name: &str) -> (res: Option<&Json>)
        ensures
            lent(res) == self@.get(name@),
    {
        match self {
            Json::Object(members) => {
                let ghost all = self@->Object_0;
                let mut i: usize = 0;
                assert(all.skip(0) =~= all);
                while i < members.len()
                    invariant
                        i <= members.len(),
                        self@ == JsonView::Object(all),
                        *self == Json::Object(*members),
                        all.len() == members.len(),
                        member(all, name@) == member(all.skip(i as int), name@),
                    decreases members.len() - i,
                {
                    assert(all[i as int] == (members@[i as int].name@, members@[i as int].value@));
                    assert(all.skip(i as int).drop_first() =~= all.skip(i + 1));
                    if same(members[i].name.as_str(), name) {
                        return Some(&members[i].value);
                    }
                    i = i + 1;
                }
                None
            },
            _ => None,
        }
    }

    /// The item at `i`, of a list that has one.
    pub fn at(&self, i: usize) -> (res: Option<&Json>)
        ensures
            lent(res) == self@.at(i as int),
    {
        match self {
            Json::List(items) => if i < items.len() {
                Some(&items[i])
            } else {
                None
            },
            _ => None,
        }
    }

    pub fn text(&self) -> (res: Option<&String>)
        ensures
            lent_text(res) == self@.text(),
    {
        match self {
            Json::Text(text) => Some(text),
            _ => None,
        }
    }

    pub fn boolean(&self) -> (res: Option<bool>)
        ensures
            res == self@.boolean(),
    {
        match self {
            Json::Bool(value) => Some(*value),
            _ => None,
        }
    }
}

/// The member of that name, where the document is there at all.
pub fn get_of<'a>(value: Option<&'a Json>, name: &str) -> (res: Option<&'a Json>)
    ensures
        lent(res) == get_in(lent(value), name@),
{
    match value {
        Some(value) => value.get(name),
        None => None,
    }
}

pub fn text_of<'a>(value: Option<&'a Json>) -> (res: Option<&'a String>)
    ensures
        lent_text(res) == text_in(lent(value)),
{
    match value {
        Some(value) => value.text(),
        None => None,
    }
}

pub fn boolean_of(value: Option<&Json>) -> (res: Option<bool>)
    ensures
        res == boolean_in(lent(value)),
{
    match value {
        Some(value) => value.boolean(),
        None => None,
    }
}

// ---------------------------------------------------------------------------
// Building

impl JsonView {
    /// An object without members.
    #[verifier::opaque]
    pub open spec fn object() -> JsonView {
        JsonView::Object(Seq::empty())
    }

    /// The object with one more member.
    #[verifier::opaque]
    pub open spec fn with(self, name: Seq<char>, value: JsonView) -> JsonView {
        match self {
            JsonView::Object(members) => JsonView::Object(members.push((name, value))),
            other => other,
        }
    }

    /// A list without items.
    #[verifier::opaque]
    pub open spec fn empty() -> JsonView {
        JsonView::List(Seq::empty())
    }

    /// The list with one more item.
    #[verifier::opaque]
    pub open spec fn and(self, item: JsonView) -> JsonView {
        match self {
            JsonView::List(items) => JsonView::List(items.push(item)),
            other => other,
        }
    }

    #[verifier::opaque]
    pub open spec fn number(n: nat) -> JsonView {
        JsonView::Number(numeral(n))
    }
}

/// A text, or null.
pub open spec fn text_or_null(value: Option<Seq<char>>) -> JsonView {
    match value {
        Some(text) => JsonView::Text(text),
        None => JsonView::Null,
    }
}

/// The document, or null.
pub open spec fn or_null(value: Option<JsonView>) -> JsonView {
    match value {
        Some(value) => value,
        None => JsonView::Null,
    }
}

impl Json {
    pub fn object() -> (res: Json)
        ensures
            res@ == JsonView::object(),
    {
        proof {
            reveal(JsonView::object);
        }
        let res = Json::Object(Vec::new());
        assert(res@->Object_0 =~= Seq::empty());
        res
    }

    /// The object with one more member.
    pub fn with(self, name: &str, value: Json) -> (res: Json)
        ensures
            res@ == self@.with(name@, value@),
    {
        proof {
            reveal(JsonView::with);
        }
        let ghost before = self@;
        match self {
            Json::Object(members) => {
                let ghost old_members = members@;
                let mut members = members;
                members.push(Member { name: name.to_owned(), value });
                let res = Json::Object(members);
                proof {
                    let all = before->Object_0;
                    assert forall|i: int| 0 <= i < all.len() implies res@->Object_0[i] == all[i] by {
                        assert(members@[i] == old_members[i]);
                    }
                    assert(res@->Object_0 =~= all.push((name@, value@)));
                }
                res
            },
            other => other,
        }
    }

    pub fn empty() -> (res: Json)
        ensures
            res@ == JsonView::empty(),
    {
        proof {
            reveal(JsonView::empty);
        }
        let res = Json::List(Vec::new());
        assert(res@->List_0 =~= Seq::empty());
        res
    }

    /// The list with one more item.
    pub fn and(self, item: Json) -> (res: Json)
        ensures
            res@ == self@.and(item@),
    {
        proof {
            reveal(JsonView::and);
        }
        let ghost before = self@;
        match self {
            Json::List(items) => {
                let ghost old_items = items@;
                let mut items = items;
                items.push(item);
                let res = Json::List(items);
                proof {
                    let all = before->List_0;
                    assert forall|i: int| 0 <= i < all.len() implies res@->List_0[i] == all[i] by {
                        assert(items@[i] == old_items[i]);
                    }
                    assert(res@->List_0 =~= all.push(item@));
                }
                res
            },
            other => other,
        }
    }

    pub fn string(text: &str) -> (res: Json)
        ensures
            res@ == JsonView::Text(text@),
    {
        Json::Text(text.to_owned())
    }

    pub fn number(n: u64) -> (res: Json)
        ensures
            res@ == JsonView::number(n as nat),
    {
        proof {
            reveal(JsonView::number);
        }
        Json::Number(crate::text::decimal(n))
    }

    /// The text, or null.
    pub fn optional(text: &Option<String>) -> (res: Json)
        ensures
            res@ == text_or_null(
                match text {
                    Some(text) => Some(text@),
                    None => None,
                },
            ),
    {
        match text {
            Some(text) => Json::Text(text.clone()),
            None => Json::Null,
        }
    }

    /// The document, or null.
    pub fn or_null(value: &Option<Json>) -> (res: Json)
        ensures
            res@ == or_null(json_view(*value)),
    {
        match value {
            Some(value) => value.clone(),
            None => Json::Null,
        }
    }
}

// ---------------------------------------------------------------------------
// Copies and comparison

impl Json {
    /// A copy of the document.
    pub fn copy(&self) -> (res: Json)
        ensures
            res@ == self@,
        decreases self,
    {
        match self {
            Json::Null => Json::Null,
            Json::Bool(b) => Json::Bool(*b),
            Json::Number(t) => Json::Number(t.clone()),
            Json::Text(t) => Json::Text(t.clone()),
            Json::List(items) => {
                let mut out: Vec<Json> = Vec::new();
                let mut i: usize = 0;
                while i < items.len()
                    invariant
                        i <= items.len(),
                        out.len() == i,
                        *self == Json::List(*items),
                        forall|j: int| 0 <= j < i ==> (#[trigger] out@[j]).view() == items@[j].view(),
                    decreases items.len() - i,
                {
                    assert(decreases_to!(*self => self->List_0@[i as int]));
                    let item = items[i].copy();
                    out.push(item);
                    i = i + 1;
                }
                let res = Json::List(out);
                assert(res@->List_0 =~= self@->List_0);
                res
            },
            Json::Object(members) => {
                let mut out: Vec<Member> = Vec::new();
                let mut i: usize = 0;
                while i < members.len()
                    invariant
                        i <= members.len(),
                        out.len() == i,
                        *self == Json::Object(*members),
                        forall|j: int|
                            0 <= j < i ==> (#[trigger] out@[j]).name@ == members@[j].name@
                                && out@[j].value.view() == members@[j].value.view(),
                    decreases members.len() - i,
                {
                    assert(decreases_to!(*self => self->Object_0@[i as int].value));
                    let value = members[i].value.copy();
                    out.push(Member { name: members[i].name.clone(), value });
                    i = i + 1;
                }
                let res = Json::Object(out);
                assert(res@->Object_0 =~= self@->Object_0);
                res
            },
        }
    }
}

impl Clone for Json {
    fn clone(&self) -> (res: Json)
        ensures
            res@ == self@,
    {
        self.copy()
    }
}

/// A copy of the document, where there is one.
pub fn copied(value: &Option<Json>) -> (res: Option<Json>)
    ensures
        json_view(res) == json_view(*value),
{
    match value {
        Some(value) => Some(value.clone()),
        None => None,
    }
}

/// Whether two documents say the same.
pub fn same_json(a: &Json, b: &Json) -> (res: bool)
    ensures
        res == (a@ == b@),
    decreases a,
{
    match (a, b) {
        (Json::Null, Json::Null) => true,
        (Json::Bool(x), Json::Bool(y)) => *x == *y,
        (Json::Number(x), Json::Number(y)) => same(x.as_str(), y.as_str()),
        (Json::Text(x), Json::Text(y)) => same(x.as_str(), y.as_str()),
        (Json::List(x), Json::List(y)) => {
            let ghost left = a@->List_0;
            let ghost right = b@->List_0;
            assert(left.len() == x.len() && right.len() == y.len());
            if x.len() != y.len() {
                return false;
            }
            let mut i: usize = 0;
            while i < x.len()
                invariant
                    i <= x.len(),
                    x.len() == y.len(),
                    *a == Json::List(*x),
                    *b == Json::List(*y),
                    a@ == JsonView::List(left),
                    b@ == JsonView::List(right),
                    left.len() == x.len(),
                    right.len() == y.len(),
                    forall|j: int| 0 <= j < i ==> left[j] == right[j],
                decreases x.len() - i,
            {
                assert(left[i as int] == x@[i as int]@);
                assert(right[i as int] == y@[i as int]@);
                if !same_json(&x[i], &y[i]) {
                    return false;
                }
                i = i + 1;
            }
            assert(left =~= right);
            true
        },
        (Json::Object(x), Json::Object(y)) => {
            let ghost left = a@->Object_0;
            let ghost right = b@->Object_0;
            assert(left.len() == x.len() && right.len() == y.len());
            if x.len() != y.len() {
                return false;
            }
            let mut i: usize = 0;
            while i < x.len()
                invariant
                    i <= x.len(),
                    x.len() == y.len(),
                    *a == Json::Object(*x),
                    *b == Json::Object(*y),
                    a@ == JsonView::Object(left),
                    b@ == JsonView::Object(right),
                    left.len() == x.len(),
                    right.len() == y.len(),
                    forall|j: int| 0 <= j < i ==> left[j] == right[j],
                decreases x.len() - i,
            {
                assert(left[i as int] == (x@[i as int].name@, x@[i as int].value@));
                assert(right[i as int] == (y@[i as int].name@, y@[i as int].value@));
                if !same(x[i].name.as_str(), y[i].name.as_str()) {
                    return false;
                }
                if !same_json(&x[i].value, &y[i].value) {
                    return false;
                }
                i = i + 1;
            }
            assert(left =~= right);
            true
        },
        _ => false,
    }
}

// ---------------------------------------------------------------------------
// Text

/// A document as `serde_json` holds it.
#[verifier::external_type_specification]
#[verifier::external_body]
pub struct ExJsonTree(serde_json::Value);

/// What a `serde_json` document holds.
pub uninterp spec fn contents(tree: serde_json::Value) -> JsonView;

/// The document that a JSON text in bytes says, or why it is none.
pub uninterp spec fn json_of(bytes: Seq<u8>) -> Result<JsonView, Seq<char>>;

/// What a document becomes in `serde_json`'s maps: members in the order of their names.
pub uninterp spec fn filed(value: JsonView) -> JsonView;

/// The compact JSON text of a document.
pub uninterp spec fn rendered(value: JsonView) -> Seq<char>;

/// `serde_json::from_slice` into a document: what the bytes say, or the words of the parser's error
/// where they are not JSON; either is a function of the bytes, named `json_of`.
#[verifier::external_body]
fn parse_tree(bytes: &[u8]) -> (res: Result<serde_json::Value, String>)
    ensures
        (match res {
            Ok(tree) => Ok(contents(tree)),
            Err(words) => Err(words@),
        }) == json_of(bytes@),
{
    serde_json::from_slice(bytes).map_err(|error| error.to_string())
}

/// The variants and fields of a `serde_json::Value`, one for one, a number by its text
/// (`serde_json::Number::to_string`).
#[verifier::external_body]
fn plain(tree: serde_json::Value) -> (res: Json)
    ensures
        res@ == contents(tree),
{
    match tree {
        serde_json::Value::Null => Json::Null,
        serde_json::Value::Bool(b) => Json::Bool(b),
        serde_json::Value::Number(n) => Json::Number(n.to_string()),
        serde_json::Value::String(s) => Json::Text(s),
        serde_json::Value::Array(items) => Json::List(items.into_iter().map(plain).collect()),
        serde_json::Value::Object(members) => Json::Object(
            members.into_iter().map(|m| Member { name: m.0, value: plain(m.1) }).collect(),
        ),
    }
}

/// The document's variants and fields as a `serde_json::Value`, a number read from its text by
/// `serde_json::from_str`. `serde_json::Map` keeps the members by name. What the value holds then
/// is a function of the document, named `filed`.
#[verifier::external_body]
fn tree(value: &Json) -> (res: serde_json::Value)
    ensures
        contents(res) == filed(value@),
{
    match value {
        Json::Null => serde_json::Value::Null,
        Json::Bool(b) => serde_json::Value::Bool(*b),
        Json::Number(t) => serde_json::from_str(t).unwrap_or_default(),
        Json::Text(t) => serde_json::Value::String(t.clone()),
        Json::List(items) => serde_json::Value::Array(items.iter().map(tree).collect()),
        Json::Object(members) => serde_json::Value::Object(
            members.iter().map(|m| (m.name.clone(), tree(&m.value))).collect(),
        ),
    }
}

/// `serde_json::Value::to_string`: the compact text, a function of what the document holds, named
/// `rendered`.
#[verifier::external_body]
fn compact(tree: &serde_json::Value) -> (res: String)
    ensures
        res@ == rendered(contents(*tree)),
{
    tree.to_string()
}

/// A document that was read, or why there is none.
pub open spec fn json_read(res: Result<Json, String>) -> Result<JsonView, Seq<char>> {
    match res {
        Ok(value) => Ok(value.view()),
        Err(words) => Err(words@),
    }
}

/// The document that JSON text in bytes says, or why it is none.
pub fn parse(bytes: &[u8]) -> (res: Result<Json, String>)
    ensures
        json_read(res) == json_of(bytes@),
{
    match parse_tree(bytes) {
        Ok(tree) => Ok(plain(tree)),
        Err(words) => Err(words),
    }
}

/// The compact JSON text of a document, its members in the order of their names.
pub fn render(value: &Json) -> (res: String)
    ensures
        res@ == rendered(filed(value@)),
{
    compact(&tree(value))
}

/// An object that was given a member has it from then on, unless it had one of that name before;
/// its other members stay.
pub proof fn law_members(value: JsonView, name: Seq<char>, given: JsonView, other: Seq<char>)
    requires
        value is Object,
    ensures
        value.with(name, given) is Object,
        value.with(name, given).get(other) == (if value.get(other) is Some {
            value.get(other)
        } else if name == other {
            Some(given)
        } else {
            None
        }),
{
    reveal(JsonView::with);
    lemma_member_push(value->Object_0, (name, given), other);
}

proof fn lemma_member_push(
    members: Seq<(Seq<char>, JsonView)>,
    last: (Seq<char>, JsonView),
    name: Seq<char>,
)
    ensures
        member(members.push(last), name) == (if member(members, name) is Some {
            member(members, name)
        } else if last.0 == name {
            Some(last.1)
        } else {
            None
        }),
    decreases members.len(),
{
    if members.len() == 0 {
        assert(members.push(last).drop_first() =~= Seq::<(Seq<char>, JsonView)>::empty());
        assert(member(members.push(last).drop_first(), name) is None);
    } else {
        assert(members.push(last).drop_first() =~= members.drop_first().push(last));
        lemma_member_push(members.drop_first(), last, name);
    }
}

/// A list that was given an item holds it behind the items that it held.
pub proof fn law_items(value: JsonView, item: JsonView)
    requires
        value is List,
    ensures
        value.and(item) is List,
        value.and(item)->List_0 == value->List_0.push(item),
{
    reveal(JsonView::and);
}

/// What documents hold that are made of members and items.
pub proof fn lemma_documents()
    ensures
        JsonView::object() is Object,
        forall|name: Seq<char>| (#[trigger] JsonView::object().get(name)) is None,
        forall|value: JsonView, name: Seq<char>, given: JsonView|
            value is Object ==> (#[trigger] value.with(name, given)) is Object,
        forall|value: JsonView, name: Seq<char>, given: JsonView, other: Seq<char>|
            value is Object ==> #[trigger] value.with(name, given).get(other) == (if value.get(
                other,
            ) is Some {
                value.get(other)
            } else if name == other {
                Some(given)
            } else {
                None
            }),
        JsonView::empty() == JsonView::List(Seq::<JsonView>::empty()),
        forall|value: JsonView, item: JsonView|
            value is List ==> #[trigger] value.and(item) == JsonView::List(
                value->List_0.push(item),
            ),
{
    reveal(JsonView::object);
    reveal(JsonView::empty);
    assert forall|value: JsonView, name: Seq<char>, given: JsonView| value is Object implies (
    #[trigger] value.with(name, given)) is Object by {
        law_members(value, name, given, name);
    }
    assert forall|value: JsonView, name: Seq<char>, given: JsonView, other: Seq<char>|
        value is Object implies #[trigger] value.with(name, given).get(other) == (if value.get(
        other,
    ) is Some {
        value.get(other)
    } else if name == other {
        Some(given)
    } else {
        None
    }) by {
        law_members(value, name, given, other);
    }
    assert forall|value: JsonView, item: JsonView| value is List implies #[trigger] value.and(item)
        == JsonView::List(value->List_0.push(item)) by {
        law_items(value, item);
    }
}

/// A number in a document is a row of decimal digits that means the number.
pub proof fn law_number(n: nat)
    ensures
        JsonView::number(n) is Number,
        JsonView::number(n)->Number_0.len() > 0,
        crate::text::digits(JsonView::number(n)->Number_0),
        crate::text::value_of(JsonView::number(n)->Number_0) == n,
{
    reveal(JsonView::number);
    crate::text::lemma_numeral_value(n);
}

} // verus!
