//! JSON values: what tools take and return, and the compact text they are
//! sent in.

use vstd::prelude::*;
use crate::text::{decimal_text, digit_char, push_decimal, same_text};

verus! {

/// A JSON value. The members of an object stand in the order in which they
/// are written; where a name occurs twice, the later member counts.
#[derive(Debug, PartialEq, Eq)]
pub enum Json {
    Null,
    Bool(bool),
    /// A whole number of zero or more.
    Unsigned(u64),
    /// A whole number below zero.
    Signed(i64),
    /// A number with a fraction or an exponent, as it is written.
    Float(String),
    Str(String),
    Array(Vec<Json>),
    Object(Vec<(String, Json)>),
}

/// What a [`Json`] stands for.
#[verifier::ext_equal]
pub ghost enum JsonView {
    Null,
    Bool(bool),
    Unsigned(u64),
    Signed(i64),
    Float(Seq<char>),
    Str(Seq<char>),
    Array(Seq<JsonView>),
    Object(Seq<(Seq<char>, JsonView)>),
}

/// The values of a sequence of JSON values.
pub open spec fn items_view(s: Seq<Json>) -> Seq<JsonView>
    decreases s,
{
    if s.len() == 0 {
        Seq::empty()
    } else {
        items_view(s.drop_last()).push(json_view(s.last()))
    }
}

/// The members of a sequence of named JSON values.
pub open spec fn members_view(s: Seq<(String, Json)>) -> Seq<(Seq<char>, JsonView)>
    decreases s,
{
    if s.len() == 0 {
        Seq::empty()
    } else {
        members_view(s.drop_last()).push((s.last().0@, json_view(s.last().1)))
    }
}

pub open spec fn json_view(j: Json) -> JsonView
    decreases j,
{
    match j {
        Json::Null => JsonView::Null,
        Json::Bool(b) => JsonView::Bool(b),
        Json::Unsigned(n) => JsonView::Unsigned(n),
        Json::Signed(n) => JsonView::Signed(n),
        Json::Float(s) => JsonView::Float(s@),
        Json::Str(s) => JsonView::Str(s@),
        Json::Array(v) => JsonView::Array(items_view(v@)),
        Json::Object(v) => JsonView::Object(members_view(v@)),
    }
}

impl View for Json {
    type V = JsonView;

    open spec fn view(&self) -> JsonView {
        json_view(*self)
    }
}

pub proof fn lemma_items_view(s: Seq<Json>)
    ensures
        items_view(s).len() == s.len(),
        forall|i: int| 0 <= i < s.len() ==> #[trigger] items_view(s)[i] == s[i]@,
    decreases s.len(),
{
    if s.len() > 0 {
        lemma_items_view(s.drop_last());
        assert forall|i: int| 0 <= i < s.len() implies #[trigger] items_view(s)[i] == s[i]@ by {
            if i < s.len() - 1 {
                assert(items_view(s.drop_last())[i] == s.drop_last()[i]@);
            }
        }
    }
}

pub proof fn lemma_members_view(s: Seq<(String, Json)>)
    ensures
        members_view(s).len() == s.len(),
        forall|i: int|
            0 <= i < s.len() ==> #[trigger] members_view(s)[i] == (s[i].0@, s[i].1@),
    decreases s.len(),
{
    if s.len() > 0 {
        lemma_members_view(s.drop_last());
        assert forall|i: int| 0 <= i < s.len() implies #[trigger] members_view(s)[i] == (
            s[i].0@,
            s[i].1@,
        ) by {
            if i < s.len() - 1 {
                assert(members_view(s.drop_last())[i] == (
                    s.drop_last()[i].0@,
                    s.drop_last()[i].1@,
                ));
            }
        }
    }
}

// ---------------------------------------------------------------------------
// Reading
// ---------------------------------------------------------------------------

/// The value of the last member called `key`.
pub open spec fn member(m: Seq<(Seq<char>, JsonView)>, key: Seq<char>) -> Option<JsonView>
    decreases m.len(),
{
    if m.len() == 0 {
        None
    } else if m.last().0 == key {
        Some(m.last().1)
    } else {
        member(m.drop_last(), key)
    }
}

impl JsonView {
    /// The value of the member `key`, where this is an object that has one.
    pub open spec fn get(self, key: Seq<char>) -> Option<JsonView> {
        match self {
            JsonView::Object(m) => member(m, key),
            _ => None,
        }
    }

    /// The text, where this is a string.
    pub open spec fn str(self) -> Option<Seq<char>> {
        match self {
            JsonView::Str(s) => Some(s),
            _ => None,
        }
    }

    /// The text of the member `key`, where this is an object and that member
    /// is a string.
    pub open spec fn get_str(self, key: Seq<char>) -> Option<Seq<char>> {
        match self.get(key) {
            Some(v) => v.str(),
            None => None,
        }
    }

    /// The flag `key`, where this is an object and that member is a boolean.
    pub open spec fn get_bool(self, key: Seq<char>) -> Option<bool> {
        match self.get(key) {
            Some(JsonView::Bool(b)) => Some(b),
            _ => None,
        }
    }

    /// The number `key`, where this is an object and that member is a whole
    /// number of zero or more.
    pub open spec fn get_u64(self, key: Seq<char>) -> Option<u64> {
        match self.get(key) {
            Some(JsonView::Unsigned(n)) => Some(n),
            _ => None,
        }
    }

    /// The items of the member `key`, where this is an object and that member
    /// is an array.
    pub open spec fn get_array(self, key: Seq<char>) -> Option<Seq<JsonView>> {
        match self.get(key) {
            Some(JsonView::Array(v)) => Some(v),
            _ => None,
        }
    }
}

/// What stands under a name is what the last member of that name says.
pub proof fn law_a_member_is_found_by_its_name(m: Seq<(Seq<char>, JsonView)>, i: int)
    requires
        0 <= i < m.len(),
        forall|j: int| i < j < m.len() ==> (#[trigger] m[j]).0 != m[i].0,
    ensures
        JsonView::Object(m).get(m[i].0) == Some(m[i].1),
    decreases m.len(),
{
    if i < m.len() - 1 {
        let rest = m.drop_last();
        assert(m[m.len() - 1].0 != m[i].0);
        assert forall|j: int| i < j < rest.len() implies (#[trigger] rest[j]).0 != rest[i].0 by {
            assert(m[j].0 != m[i].0);
        }
        law_a_member_is_found_by_its_name(rest, i);
    }
}

/// Under a name that no member has there is nothing, and nothing but an object
/// has members.
pub proof fn law_no_member_no_value(j: JsonView, key: Seq<char>)
    requires
        j matches JsonView::Object(m) ==> forall|i: int|
            0 <= i < m.len() ==> (#[trigger] m[i]).0 != key,
    ensures
        j.get(key) is None,
        j.get_str(key) is None,
        j.get_bool(key) is None,
        j.get_u64(key) is None,
        j.get_array(key) is None,
    decreases (match j {
        JsonView::Object(m) => m.len(),
        _ => 0,
    }),
{
    if let JsonView::Object(m) = j {
        if m.len() > 0 {
            let rest = m.drop_last();
            assert(m[m.len() - 1].0 != key);
            assert forall|i: int| 0 <= i < rest.len() implies (#[trigger] rest[i]).0 != key by {
                assert(m[i].0 != key);
            }
            law_no_member_no_value(JsonView::Object(rest), key);
        }
    }
}

/// A member is read as what it is, and as nothing else.
pub proof fn law_values_are_read_by_their_kind(j: JsonView, key: Seq<char>)
    ensures
        forall|s: Seq<char>|
            j.get_str(key) == Some(s) <==> #[trigger] j.get(key) == Some(JsonView::Str(s)),
        forall|b: bool|
            j.get_bool(key) == Some(b) <==> #[trigger] j.get(key) == Some(JsonView::Bool(b)),
        forall|n: u64|
            j.get_u64(key) == Some(n) <==> #[trigger] j.get(key) == Some(JsonView::Unsigned(n)),
        forall|v: Seq<JsonView>|
            j.get_array(key) == Some(v) <==> #[trigger] j.get(key) == Some(JsonView::Array(v)),
{
}

/// An optional string by its text.
pub open spec fn opt_text(s: Option<&String>) -> Option<Seq<char>> {
    match s {
        Some(t) => Some(t@),
        None => None,
    }
}

impl Json {
    /// The member `key`, where this is an object that has one.
    pub fn get(&self, key: &str) -> (r: Option<&Json>)
        ensures
            match r {
                Some(v) => self@.get(key@) == Some(v@),
                None => self@.get(key@) is None,
            },
    {
        match self {
            Json::Object(m) => {
                let mut i: usize = m.len();
                proof {
                    assert(m@.take(m@.len() as int) == m@);
                }
                while i > 0
                    invariant
                        i <= m@.len(),
                        self@ == JsonView::Object(members_view(m@)),
                        member(members_view(m@), key@) == member(
                            members_view(m@.take(i as int)),
                            key@,
                        ),
                    decreases i,
                {
                    proof {
                        assert(m@.take(i as int).drop_last() == m@.take(i - 1));
                        lemma_members_view(m@.take(i - 1));
                        assert(members_view(m@.take(i as int)).drop_last() == members_view(
                            m@.take(i - 1),
                        ));
                        assert(members_view(m@.take(i as int)).last() == (
                            m@[i - 1].0@,
                            m@[i - 1].1@,
                        ));
                    }
                    i = i - 1;
                    if same_text(m[i].0.as_str(), key) {
                        return Some(&m[i].1);
                    }
                }
                None
            },
            _ => None,
        }
    }

    /// The text, where this is a string.
    pub fn as_str(&self) -> (r: Option<&String>)
        ensures
            opt_text(r) == self@.str(),
    {
        match self {
            Json::Str(s) => Some(s),
            _ => None,
        }
    }

    /// The text of the member `key`, where it is a string.
    pub fn get_str(&self, key: &str) -> (r: Option<&String>)
        ensures
            opt_text(r) == self@.get_str(key@),
    {
        match self.get(key) {
            Some(v) => v.as_str(),
            None => None,
        }
    }

    /// The flag `key`, where it is a boolean.
    pub fn get_bool(&self, key: &str) -> (r: Option<bool>)
        ensures
            r == self@.get_bool(key@),
    {
        match self.get(key) {
            Some(Json::Bool(b)) => Some(*b),
            _ => None,
        }
    }

    /// The number `key`, where it is a whole number of zero or more.
    pub fn get_u64(&self, key: &str) -> (r: Option<u64>)
        ensures
            r == self@.get_u64(key@),
    {
        match self.get(key) {
            Some(Json::Unsigned(n)) => Some(*n),
            _ => None,
        }
    }

    /// The items of the member `key`, where it is an array.
    pub fn get_array(&self, key: &str) -> (r: Option<&Vec<Json>>)
        ensures
            match r {
                Some(v) => self@.get_array(key@) == Some(items_view(v@)),
                None => self@.get_array(key@) is None,
            },
    {
        match self.get(key) {
            Some(Json::Array(v)) => Some(v),
            _ => None,
        }
    }

    /// An object without members.
    pub fn no_members() -> (r: Vec<(String, Json)>)
        ensures
            members_view(r@) == Seq::<(Seq<char>, JsonView)>::empty(),
    {
        Vec::new()
    }

    /// Adds a member to those of an object.
    pub fn push_member(members: &mut Vec<(String, Json)>, name: &str, value: Json)
        ensures
            members_view(final(members)@) == members_view(old(members)@).push((name@, value@)),
    {
        members.push((name.to_owned(), value));
        assert(members@.drop_last() == old(members)@);
    }

    /// Adds an item to those of an array.
    pub fn push_item(items: &mut Vec<Json>, value: Json)
        ensures
            items_view(final(items)@) == items_view(old(items)@).push(value@),
    {
        items.push(value);
        assert(items@.drop_last() == old(items)@);
    }

    /// A string value.
    pub fn string(s: &str) -> (r: Json)
        ensures
            r@ == JsonView::Str(s@),
    {
        Json::Str(s.to_owned())
    }

    /// The same value once more.
    pub fn copy(&self) -> (r: Json)
        ensures
            r@ == self@,
        decreases self,
    {
        match self {
            Json::Null => Json::Null,
            Json::Bool(b) => Json::Bool(*b),
            Json::Unsigned(n) => Json::Unsigned(*n),
            Json::Signed(n) => Json::Signed(*n),
            Json::Float(s) => Json::Float(s.clone()),
            Json::Str(s) => Json::Str(s.clone()),
            Json::Array(v) => {
                let mut out: Vec<Json> = Vec::new();
                let mut i: usize = 0;
                while i < v.len()
                    invariant
                        i <= v@.len(),
                        items_view(out@) == items_view(v@.take(i as int)),
                        decreases_to!(self => v@),
                    decreases v@.len() - i,
                {
                    assert(decreases_to!(v@ => v@[i as int]));
                    let item: Json = v[i].copy();
                    let ghost before = out@;
                    out.push(item);
                    proof {
                        assert(out@.drop_last() == before);
                        assert(v@.take(i + 1).drop_last() == v@.take(i as int));
                    }
                    i = i + 1;
                }
                assert(v@.take(i as int) == v@);
                Json::Array(out)
            },
            Json::Object(m) => {
                let mut out: Vec<(String, Json)> = Vec::new();
                let mut i: usize = 0;
                while i < m.len()
                    invariant
                        i <= m@.len(),
                        members_view(out@) == members_view(m@.take(i as int)),
                        decreases_to!(self => m@),
                    decreases m@.len() - i,
                {
                    assert(decreases_to!(m@ => m@[i as int]));
                    assert(decreases_to!(m@[i as int] => m@[i as int].1));
                    let item: Json = m[i].1.copy();
                    let name: String = m[i].0.clone();
                    let ghost before = out@;
                    out.push((name, item));
                    proof {
                        assert(out@.drop_last() == before);
                        assert(m@.take(i + 1).drop_last() == m@.take(i as int));
                    }
                    i = i + 1;
                }
                assert(m@.take(i as int) == m@);
                Json::Object(out)
            },
        }
    }
}

// ---------------------------------------------------------------------------
// Writing
// ---------------------------------------------------------------------------

/// How one character stands inside a quoted string.
pub open spec fn escaped_char(c: char) -> Seq<char> {
    let u = c as u32;
    if c == '"' || c == '\\' {
        seq!['\\', c]
    } else if u == 0x8 {
        seq!['\\', 'b']
    } else if u == 0x9 {
        seq!['\\', 't']
    } else if u == 0xA {
        seq!['\\', 'n']
    } else if u == 0xC {
        seq!['\\', 'f']
    } else if u == 0xD {
        seq!['\\', 'r']
    } else if u < 0x20 {
        seq!['\\', 'u', '0', '0', digit_char(u as int / 16), digit_char(u as int % 16)]
    } else {
        seq![c]
    }
}

/// The characters of `s`, each as it stands inside a quoted string.
pub open spec fn escaped(s: Seq<char>) -> Seq<char>
    decreases s.len(),
{
    if s.len() == 0 {
        Seq::empty()
    } else {
        escaped(s.drop_last()) + escaped_char(s.last())
    }
}

/// `s` as a JSON string.
pub open spec fn quoted(s: Seq<char>) -> Seq<char> {
    seq!['"'] + escaped(s) + seq!['"']
}

/// `items`, each already written, with commas between them.
pub open spec fn listed(items: Seq<JsonView>) -> Seq<char>
    decreases items,
{
    if items.len() == 0 {
        Seq::empty()
    } else if items.len() == 1 {
        json_text(items[0])
    } else {
        listed(items.drop_last()) + seq![','] + json_text(items.last())
    }
}

/// The members of an object with commas between them.
pub open spec fn listed_members(m: Seq<(Seq<char>, JsonView)>) -> Seq<char>
    decreases m,
{
    if m.len() == 0 {
        Seq::empty()
    } else if m.len() == 1 {
        quoted(m[0].0) + seq![':'] + json_text(m[0].1)
    } else {
        listed_members(m.drop_last()) + seq![','] + quoted(m.last().0) + seq![':'] + json_text(
            m.last().1,
        )
    }
}

/// The compact text of a JSON value: no white space outside strings.
pub open spec fn json_text(j: JsonView) -> Seq<char>
    decreases j,
{
    match j {
        JsonView::Null => seq!['n', 'u', 'l', 'l'],
        JsonView::Bool(b) => if b {
            seq!['t', 'r', 'u', 'e']
        } else {
            seq!['f', 'a', 'l', 's', 'e']
        },
        JsonView::Unsigned(n) => decimal_text(n as nat),
        JsonView::Signed(n) => if n < 0 {
            seq!['-'] + decimal_text((-n) as nat)
        } else {
            decimal_text(n as nat)
        },
        JsonView::Float(s) => s,
        JsonView::Str(s) => quoted(s),
        JsonView::Array(v) => seq!['['] + listed(v) + seq![']'],
        JsonView::Object(m) => seq!['{'] + listed_members(m) + seq!['}'],
    }
}

/// `serde_json`'s text of the string value `s` (`Value::from(&str)`, then
/// `Value`'s `Display`): `s` in quotation marks, with `"`, `\` and the control
/// characters below U+0020 escaped as [`escaped_char`] says.
#[verifier::external_body]
fn quote(s: &str) -> (r: String)
    ensures
        r@ == quoted(s@),
{
    serde_json::Value::from(s).to_string()
}

fn push_text(j: &Json, out: &mut String)
    ensures
        final(out)@ == old(out)@ + json_text(j@),
    decreases j,
{
    let ghost start = out@;
    match j {
        Json::Null => {
            proof {
                reveal_strlit("null");
            }
            out.push_str("null");
            assert("null"@ =~= seq!['n', 'u', 'l', 'l']);
        },
        Json::Bool(b) => {
            proof {
                reveal_strlit("true");
                reveal_strlit("false");
            }
            if *b {
                out.push_str("true");
                assert("true"@ =~= seq!['t', 'r', 'u', 'e']);
            } else {
                out.push_str("false");
                assert("false"@ =~= seq!['f', 'a', 'l', 's', 'e']);
            }
        },
        Json::Unsigned(n) => {
            push_decimal(out, *n);
        },
        Json::Signed(n) => {
            if *n < 0 {
                out.push('-');
                let m: u64 = (-(*n as i128)) as u64;
                push_decimal(out, m);
                assert(out@ =~= start + (seq!['-'] + decimal_text(m as nat)));
            } else {
                push_decimal(out, *n as u64);
            }
        },
        Json::Float(s) => {
            out.push_str(s.as_str());
        },
        Json::Str(s) => {
            let q: String = quote(s.as_str());
            out.push_str(q.as_str());
        },
        Json::Array(v) => {
            out.push('[');
            let mut i: usize = 0;
            while i < v.len()
                invariant
                    i <= v@.len(),
                    out@ == start + seq!['['] + listed(items_view(v@.take(i as int))),
                    decreases_to!(j => v@),
                decreases v@.len() - i,
            {
                let ghost done = items_view(v@.take(i as int));
                proof {
                    assert(decreases_to!(v@ => v@[i as int]));
                    lemma_items_view(v@.take(i as int));
                    assert(v@.take(i + 1).drop_last() == v@.take(i as int));
                    assert(items_view(v@.take(i + 1)) == done.push(v@[i as int]@));
                    assert(items_view(v@.take(i + 1)).drop_last() == done);
                }
                if i > 0 {
                    out.push(',');
                }
                push_text(&v[i], out);
                assert(out@ =~= start + seq!['['] + listed(items_view(v@.take(i + 1))));
                i = i + 1;
            }
            assert(v@.take(i as int) == v@);
            out.push(']');
            assert(out@ =~= start + (seq!['['] + listed(items_view(v@)) + seq![']']));
        },
        Json::Object(m) => {
            out.push('{');
            let mut i: usize = 0;
            while i < m.len()
                invariant
                    i <= m@.len(),
                    out@ == start + seq!['{'] + listed_members(members_view(m@.take(i as int))),
                    decreases_to!(j => m@),
                decreases m@.len() - i,
            {
                let ghost done = members_view(m@.take(i as int));
                proof {
                    assert(decreases_to!(m@ => m@[i as int]));
                    assert(decreases_to!(m@[i as int] => m@[i as int].1));
                    lemma_members_view(m@.take(i as int));
                    assert(m@.take(i + 1).drop_last() == m@.take(i as int));
                    assert(members_view(m@.take(i + 1)) == done.push(
                        (m@[i as int].0@, m@[i as int].1@),
                    ));
                    assert(members_view(m@.take(i + 1)).drop_last() == done);
                }
                if i > 0 {
                    out.push(',');
                }
                let q: String = quote(m[i].0.as_str());
                out.push_str(q.as_str());
                out.push(':');
                push_text(&m[i].1, out);
                assert(out@ =~= start + seq!['{'] + listed_members(members_view(m@.take(i + 1))));
                i = i + 1;
            }
            assert(m@.take(i as int) == m@);
            out.push('}');
            assert(out@ =~= start + (seq!['{'] + listed_members(members_view(m@)) + seq!['}']));
        },
    }
}

impl Json {
    /// The compact text of this value.
    pub fn to_text(&self) -> (r: String)
        ensures
            r@ == json_text(self@),
    {
        let mut out: String = String::new();
        push_text(self, &mut out);
        assert(out@ =~= json_text(self@));
        out
    }
}

/// An array is written as its items, in their order, with commas between them;
/// an object as its members, each with its name in front.
pub proof fn law_how_items_are_written(v: Seq<JsonView>, m: Seq<(Seq<char>, JsonView)>)
    ensures
        json_text(JsonView::Array(v)) == seq!['['] + crate::text::joined(
            v.map_values(|j: JsonView| json_text(j)),
            seq![','],
        ) + seq![']'],
        json_text(JsonView::Object(m)) == seq!['{'] + crate::text::joined(
            m.map_values(|e: (Seq<char>, JsonView)| quoted(e.0) + seq![':'] + json_text(e.1)),
            seq![','],
        ) + seq!['}'],
{
    lemma_listed(v);
    lemma_listed_members(m);
}

proof fn lemma_listed(v: Seq<JsonView>)
    ensures
        listed(v) == crate::text::joined(v.map_values(|j: JsonView| json_text(j)), seq![',']),
    decreases v.len(),
{
    let texts = v.map_values(|j: JsonView| json_text(j));
    if v.len() > 1 {
        lemma_listed(v.drop_last());
        assert(v.drop_last().map_values(|j: JsonView| json_text(j)) =~= texts.drop_last());
    }
}

proof fn lemma_listed_members(m: Seq<(Seq<char>, JsonView)>)
    ensures
        listed_members(m) == crate::text::joined(
            m.map_values(|e: (Seq<char>, JsonView)| quoted(e.0) + seq![':'] + json_text(e.1)),
            seq![','],
        ),
    decreases m.len(),
{
    let write = |e: (Seq<char>, JsonView)| quoted(e.0) + seq![':'] + json_text(e.1);
    let texts = m.map_values(write);
    if m.len() > 1 {
        let rest = m.drop_last();
        lemma_listed_members(rest);
        assert(rest.map_values(write) =~= texts.drop_last());
        assert(listed_members(m) =~= listed_members(rest) + seq![','] + write(m.last()));
    }
}

/// Plain values are written as JSON has them.
pub proof fn law_how_plain_values_are_written(n: u64, m: i64, s: Seq<char>)
    ensures
        json_text(JsonView::Null) == "null"@,
        json_text(JsonView::Bool(true)) == "true"@,
        json_text(JsonView::Bool(false)) == "false"@,
        json_text(JsonView::Unsigned(n)) == decimal_text(n as nat),
        m >= 0 ==> json_text(JsonView::Signed(m)) == decimal_text(m as nat),
        m < 0 ==> json_text(JsonView::Signed(m)) == "-"@ + decimal_text((-m) as nat),
        json_text(JsonView::Float(s)) == s,
        json_text(JsonView::Str(s)) == "\""@ + escaped(s) + "\""@,
{
    reveal_strlit("null");
    reveal_strlit("true");
    reveal_strlit("false");
    reveal_strlit("-");
    reveal_strlit("\"");
    assert(json_text(JsonView::Null) =~= "null"@);
    assert(json_text(JsonView::Bool(true)) =~= "true"@);
    assert(json_text(JsonView::Bool(false)) =~= "false"@);
    assert(seq!['-'] =~= "-"@);
    assert(seq!['"'] =~= "\""@);
}

/// A value is known by what it stands for: values that stand for the same are of
/// one kind, and alike item by item and member by member.
pub proof fn law_values_are_told_apart(a: Json, b: Json)
    requires
        a@ == b@,
    ensures
        match (a, b) {
            (Json::Null, Json::Null) => true,
            (Json::Bool(x), Json::Bool(y)) => x == y,
            (Json::Unsigned(x), Json::Unsigned(y)) => x == y,
            (Json::Signed(x), Json::Signed(y)) => x == y,
            (Json::Float(x), Json::Float(y)) => x@ == y@,
            (Json::Str(x), Json::Str(y)) => x@ == y@,
            (Json::Array(x), Json::Array(y)) => x@.len() == y@.len() && forall|i: int|
                0 <= i < x@.len() ==> (#[trigger] x@[i])@ == y@[i]@,
            (Json::Object(x), Json::Object(y)) => x@.len() == y@.len() && forall|i: int|
                0 <= i < x@.len() ==> (#[trigger] x@[i]).0@ == y@[i].0@ && x@[i].1@ == y@[i].1@,
            _ => false,
        },
{
    match (a, b) {
        (Json::Array(x), Json::Array(y)) => {
            lemma_items_view(x@);
            lemma_items_view(y@);
            assert forall|i: int| 0 <= i < x@.len() implies (#[trigger] x@[i])@ == y@[i]@ by {
                assert(items_view(x@)[i] == items_view(y@)[i]);
            }
        },
        (Json::Object(x), Json::Object(y)) => {
            lemma_members_view(x@);
            lemma_members_view(y@);
            assert forall|i: int| 0 <= i < x@.len() implies (#[trigger] x@[i]).0@ == y@[i].0@
                && x@[i].1@ == y@[i].1@ by {
                assert(members_view(x@)[i] == members_view(y@)[i]);
            }
        },
        _ => {},
    }
}

/// Quotation marks and backslashes are written behind a backslash, the five
/// signs that have a letter as that letter, the other signs below the blank by
/// their number, and every other character as it is.
pub proof fn law_how_characters_are_escaped(s: Seq<char>, c: char)
    ensures
        escaped(Seq::empty()) == Seq::<char>::empty(),
        escaped(s.push(c)) == escaped(s) + if c == '"' {
            "\\\""@
        } else if c == '\\' {
            "\\\\"@
        } else if c == '\n' {
            "\\n"@
        } else if c == '\t' {
            "\\t"@
        } else if c == '\r' {
            "\\r"@
        } else if c == '\u{8}' {
            "\\b"@
        } else if c == '\u{c}' {
            "\\f"@
        } else if (c as u32) < 0x20 {
            "\\u00"@ + seq![
                "0123456789abcdef"@[c as int / 16],
                "0123456789abcdef"@[c as int % 16],
            ]
        } else {
            seq![c]
        },
{
    reveal_strlit("\\\"");
    reveal_strlit("\\\\");
    reveal_strlit("\\n");
    reveal_strlit("\\t");
    reveal_strlit("\\r");
    reveal_strlit("\\b");
    reveal_strlit("\\f");
    reveal_strlit("\\u00");
    reveal_strlit("0123456789abcdef");
    assert(s.push(c).drop_last() =~= s);
    let shown = if c == '"' {
        "\\\""@
    } else if c == '\\' {
        "\\\\"@
    } else if c == '\n' {
        "\\n"@
    } else if c == '\t' {
        "\\t"@
    } else if c == '\r' {
        "\\r"@
    } else if c == '\u{8}' {
        "\\b"@
    } else if c == '\u{c}' {
        "\\f"@
    } else if (c as u32) < 0x20 {
        "\\u00"@ + seq!["0123456789abcdef"@[c as int / 16], "0123456789abcdef"@[c as int % 16]]
    } else {
        seq![c]
    };
    assert(escaped_char(c) =~= shown);
}

} // verus!
