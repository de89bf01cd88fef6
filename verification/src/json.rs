//! JSON values as trees. A number is a whole number or a fraction counted in
//! millionths, so that sums are exact.

use crate::text::str_eq;
use vstd::prelude::*;
use vstd::string::*;

verus! {

/// A JSON number. Fractions are held in millionths so that sums are exact.
#[derive(Clone, Copy, Debug, PartialEq, Eq, Structural)]
pub enum Number {
    /// A whole number that is not negative.
    Unsigned(u64),
    /// A whole number with a sign.
    Signed(i64),
    /// A fraction, counted in millionths.
    Micros(i64),
}

/// The mathematical value of a JSON tree.
pub enum JsonView {
    Null,
    Bool(bool),
    Number(Number),
    Text(Seq<char>),
    List(Seq<JsonView>),
    Object(Map<Seq<char>, JsonView>),
}

/// A JSON value. The fields of an object are held in the order in which they
/// were set; where a key occurs twice the later entry is the one that counts.
#[derive(Debug)]
pub enum Json {
    Null,
    Bool(bool),
    Number(Number),
    Text(String),
    List(Vec<Json>),
    Object(Vec<(String, Json)>),
}

/// The values of a list of trees.
pub open spec fn list_view(items: Seq<Json>) -> Seq<JsonView>
    decreases items, 0nat,
{
    Seq::new(items.len(), |i: int| if 0 <= i < items.len() { json_view(items[i]) } else { JsonView::Null })
}

/// The fields that the first `n` entries of an object give: of two entries
/// with one key the later counts.
pub open spec fn fields_view(fields: Seq<(String, Json)>, n: nat) -> Map<Seq<char>, JsonView>
    decreases fields, n,
{
    if n == 0 || n > fields.len() {
        Map::empty()
    } else {
        fields_view(fields, (n - 1) as nat).insert(fields[n - 1].0@, json_view(fields[n - 1].1))
    }
}

/// The value of a tree.
pub open spec fn json_view(j: Json) -> JsonView
    decreases j,
{
    match j {
        Json::Null => JsonView::Null,
        Json::Bool(b) => JsonView::Bool(b),
        Json::Number(n) => JsonView::Number(n),
        Json::Text(s) => JsonView::Text(s@),
        Json::List(v) => JsonView::List(list_view(v@)),
        Json::Object(f) => JsonView::Object(fields_view(f@, f@.len())),
    }
}

impl View for Json {
    type V = JsonView;

    open spec fn view(&self) -> JsonView {
        json_view(*self)
    }
}

impl Number {
    /// The number in millionths.
    pub open spec fn micros(self) -> int {
        match self {
            Number::Unsigned(n) => n * 1_000_000,
            Number::Signed(n) => n * 1_000_000,
            Number::Micros(m) => m as int,
        }
    }

    /// The number as an unsigned whole number, where it is one.
    pub open spec fn unsigned(self) -> Option<u64> {
        match self {
            Number::Unsigned(n) => Some(n),
            Number::Signed(n) => if n >= 0 {
                Some(n as u64)
            } else {
                None
            },
            Number::Micros(_) => None,
        }
    }

    /// The number in millionths.
    pub fn as_micros(&self) -> (r: i128)
        ensures
            r == self.micros(),
    {
        match self {
            Number::Unsigned(n) => {
                let wide: i128 = *n as i128;
                wide * 1_000_000
            },
            Number::Signed(n) => {
                let wide: i128 = *n as i128;
                wide * 1_000_000
            },
            Number::Micros(m) => *m as i128,
        }
    }

    /// The number as an unsigned whole number, where it is one.
    pub fn as_u64(&self) -> (r: Option<u64>)
        ensures
            r == self.unsigned(),
    {
        match self {
            Number::Unsigned(n) => Some(*n),
            Number::Signed(n) => if *n >= 0 {
                Some(*n as u64)
            } else {
                None
            },
            Number::Micros(_) => None,
        }
    }
}

impl JsonView {
    /// The field of an object under a key.
    pub open spec fn get(self, key: Seq<char>) -> Option<JsonView> {
        match self {
            JsonView::Object(m) => if m.contains_key(key) {
                Some(m[key])
            } else {
                None
            },
            _ => None,
        }
    }

    /// The field of an object under a key, `Null` where there is none.
    pub open spec fn at(self, key: Seq<char>) -> JsonView {
        match self.get(key) {
            Some(v) => v,
            None => JsonView::Null,
        }
    }

    /// The text, where the value is one.
    pub open spec fn as_text(self) -> Option<Seq<char>> {
        match self {
            JsonView::Text(s) => Some(s),
            _ => None,
        }
    }

    /// The boolean, where the value is one.
    pub open spec fn as_bool(self) -> Option<bool> {
        match self {
            JsonView::Bool(b) => Some(b),
            _ => None,
        }
    }

    /// The unsigned whole number, where the value is one.
    pub open spec fn as_u64(self) -> Option<u64> {
        match self {
            JsonView::Number(n) => n.unsigned(),
            _ => None,
        }
    }

    /// A number in millionths.
    pub open spec fn as_micros(self) -> Option<int> {
        match self {
            JsonView::Number(n) => Some(n.micros()),
            _ => None,
        }
    }

    /// The items, where the value is a list.
    pub open spec fn as_list(self) -> Option<Seq<JsonView>> {
        match self {
            JsonView::List(l) => Some(l),
            _ => None,
        }
    }

    /// Whether a field can be set: on an object, and on `Null`, which then
    /// becomes an object.
    pub open spec fn settable(self) -> bool {
        self is Object || self is Null
    }

    /// The value with one field set.
    pub open spec fn with(self, key: Seq<char>, value: JsonView) -> JsonView {
        match self {
            JsonView::Object(m) => JsonView::Object(m.insert(key, value)),
            _ => JsonView::Object(Map::empty().insert(key, value)),
        }
    }

    /// Whether the field under `outer` can take a field of its own.
    pub open spec fn settable_in(self, outer: Seq<char>) -> bool {
        self.settable() && self.at(outer).settable()
    }

    /// The value with the field `inner` of its field `outer` set.
    pub open spec fn with_in(self, outer: Seq<char>, inner: Seq<char>, value: JsonView) -> JsonView {
        self.with(outer, self.at(outer).with(inner, value))
    }
}

proof fn lemma_fields_view_prefix(f: Seq<(String, Json)>, g: Seq<(String, Json)>, n: nat)
    requires
        n <= f.len(),
        n <= g.len(),
        forall|j: int| 0 <= j < n ==> f[j] == g[j],
    ensures
        fields_view(f, n) == fields_view(g, n),
    decreases n,
{
    if n > 0 {
        lemma_fields_view_prefix(f, g, (n - 1) as nat);
    }
}

proof fn lemma_fields_view_push(f: Seq<(String, Json)>, e: (String, Json))
    ensures
        fields_view(f.push(e), f.len() + 1) == fields_view(f, f.len()).insert(e.0@, json_view(e.1)),
{
    lemma_fields_view_prefix(f, f.push(e), f.len());
}

proof fn lemma_fields_view_update(f: Seq<(String, Json)>, i: int, e: (String, Json), n: nat)
    requires
        0 <= i < n <= f.len(),
        f[i].0@ == e.0@,
        forall|j: int| i < j < f.len() ==> f[j].0@ != e.0@,
    ensures
        fields_view(f.update(i, e), n) == fields_view(f, n).insert(e.0@, json_view(e.1)),
    decreases n,
{
    let g = f.update(i, e);
    if n == i + 1 {
        lemma_fields_view_prefix(f, g, i as nat);
        assert(fields_view(g, n) =~= fields_view(f, n).insert(e.0@, json_view(e.1)));
    } else {
        lemma_fields_view_update(f, i, e, (n - 1) as nat);
        assert(g[n - 1] == f[n - 1]);
        assert(fields_view(g, n) =~= fields_view(f, n).insert(e.0@, json_view(e.1)));
    }
}

/// The index of the last entry with the key, if there is one.
fn last_entry(fields: &Vec<(String, Json)>, key: &str) -> (r: Option<usize>)
    ensures
        match r {
            Some(i) => i < fields.len() && fields@[i as int].0@ == key@ && forall|j: int|
                i < j < fields.len() ==> fields@[j].0@ != key@,
            None => forall|j: int| 0 <= j < fields.len() ==> fields@[j].0@ != key@,
        },
{
    let mut i: usize = fields.len();
    while i > 0
        invariant
            i <= fields.len(),
            forall|j: int| i <= j < fields.len() ==> fields@[j].0@ != key@,
        decreases i,
    {
        i -= 1;
        if str_eq(fields[i].0.as_str(), key) {
            return Some(i);
        }
    }
    None
}

proof fn lemma_fields_view_lookup(f: Seq<(String, Json)>, key: Seq<char>, n: nat)
    requires
        n <= f.len(),
    ensures
        fields_view(f, n).contains_key(key) <==> exists|j: int| 0 <= j < n && f[j].0@ == key,
        forall|i: int|
            0 <= i < n && f[i].0@ == key && (forall|j: int| i < j < n ==> f[j].0@ != key)
                ==> fields_view(f, n)[key] == json_view(f[i].1),
    decreases n,
{
    if n > 0 {
        lemma_fields_view_lookup(f, key, (n - 1) as nat);
        if f[n - 1].0@ == key {
        } else {
            assert forall|i: int|
                0 <= i < n && f[i].0@ == key && (forall|j: int| i < j < n ==> f[j].0@ != key)
                implies fields_view(f, n)[key] == json_view(f[i].1) by {
                assert(i < n - 1);
                assert(forall|j: int| i < j < n - 1 ==> f[j].0@ != key);
            }
        }
    }
}

impl Json {
    /// The field of an object under a key.
    pub fn get(&self, key: &str) -> (r: Option<&Json>)
        ensures
            match r {
                Some(v) => self@.get(key@) == Some(v@),
                None => self@.get(key@) is None,
            },
    {
        match self {
            Json::Object(fields) => {
                proof {
                    lemma_fields_view_lookup(fields@, key@, fields@.len());
                }
                match last_entry(fields, key) {
                    Some(i) => Some(&fields[i].1),
                    None => None,
                }
            },
            _ => None,
        }
    }

    /// The text, where the value is one.
    pub fn as_str(&self) -> (r: Option<&str>)
        ensures
            match r {
                Some(s) => self@.as_text() == Some(s@),
                None => self@.as_text() is None,
            },
    {
        match self {
            Json::Text(s) => Some(s.as_str()),
            _ => None,
        }
    }

    /// The boolean, where the value is one.
    pub fn as_bool(&self) -> (r: Option<bool>)
        ensures
            r == self@.as_bool(),
    {
        match self {
            Json::Bool(b) => Some(*b),
            _ => None,
        }
    }

    /// The unsigned whole number, where the value is one.
    pub fn as_u64(&self) -> (r: Option<u64>)
        ensures
            r == self@.as_u64(),
    {
        match self {
            Json::Number(n) => n.as_u64(),
            _ => None,
        }
    }

    /// A number in millionths.
    pub fn as_micros(&self) -> (r: Option<i128>)
        ensures
            match r {
                Some(m) => self@.as_micros() == Some(m as int),
                None => self@.as_micros() is None,
            },
    {
        match self {
            Json::Number(n) => Some(n.as_micros()),
            _ => None,
        }
    }

    /// The items, where the value is a list.
    pub fn as_array(&self) -> (r: Option<&Vec<Json>>)
        ensures
            match r {
                Some(v) => self@.as_list() == Some(list_view(v@)),
                None => self@.as_list() is None,
            },
    {
        match self {
            Json::List(v) => Some(v),
            _ => None,
        }
    }

    /// Whether a field can be set on this value.
    pub fn can_set(&self) -> (r: bool)
        ensures
            r == self@.settable(),
    {
        match self {
            Json::Object(_) => true,
            Json::Null => true,
            _ => false,
        }
    }

    /// Whether a field can be set on the field `outer` of this value.
    pub fn can_set_in(&self, outer: &str) -> (r: bool)
        ensures
            r == self@.settable_in(outer@),
    {
        if !self.can_set() {
            return false;
        }
        match self.get(outer) {
            Some(v) => v.can_set(),
            None => true,
        }
    }

    /// A copy of the field under a key, `Null` where there is none.
    pub fn at(&self, key: &str) -> (r: Json)
        ensures
            r@ == self@.at(key@),
    {
        match self.get(key) {
            Some(v) => v.duplicate(),
            None => Json::Null,
        }
    }

    /// A copy of the field `inner` of the field `outer`, `Null` where there
    /// is none.
    pub fn at_in(&self, outer: &str, inner: &str) -> (r: Json)
        ensures
            r@ == self@.at(outer@).at(inner@),
    {
        match self.get(outer) {
            Some(v) => v.at(inner),
            None => Json::Null,
        }
    }

    /// A text value.
    pub fn text(s: &str) -> (r: Json)
        ensures
            r@ == JsonView::Text(s@),
    {
        Json::Text(String::from_str(s))
    }

    /// A copy of the whole tree.
    pub fn duplicate(&self) -> (r: Json)
        ensures
            r@ == self@,
        decreases self,
    {
        match self {
            Json::Null => Json::Null,
            Json::Bool(b) => Json::Bool(*b),
            Json::Number(n) => Json::Number(*n),
            Json::Text(s) => Json::Text(s.clone()),
            Json::List(v) => {
                let mut out: Vec<Json> = Vec::new();
                let mut i: usize = 0;
                while i < v.len()
                    invariant
                        i <= v.len(),
                        out.len() == i,
                        *self == Json::List(*v),
                        forall|j: int| 0 <= j < i ==> json_view(out@[j]) == json_view(v@[j]),
                    decreases v.len() - i,
                {
                    proof {
                        assert(self->List_0 == *v);
                        assert(decreases_to!(*self => self->List_0));
                    }
                    let item = v[i].duplicate();
                    out.push(item);
                    i += 1;
                }
                assert(list_view(out@) =~= list_view(v@));
                Json::List(out)
            },
            Json::Object(f) => {
                let mut out: Vec<(String, Json)> = Vec::new();
                let mut i: usize = 0;
                while i < f.len()
                    invariant
                        i <= f.len(),
                        out.len() == i,
                        *self == Json::Object(*f),
                        fields_view(out@, i as nat) == fields_view(f@, i as nat),
                    decreases f.len() - i,
                {
                    let key = f[i].0.clone();
                    proof {
                        assert(self->Object_0 == *f);
                        assert(decreases_to!(*self => self->Object_0));
                        assert(decreases_to!(f[i as int] => f[i as int].1));
                    }
                    let item = f[i].1.duplicate();
                    proof {
                        lemma_fields_view_push(out@, (key, item));
                    }
                    out.push((key, item));
                    i += 1;
                }
                Json::Object(out)
            },
        }
    }

    /// Sets a field of an object; `Null` becomes an object with that field.
    /// Any other value is left as it is, and `false` comes back.
    pub fn set(&mut self, key: &str, value: Json) -> (ok: bool)
        ensures
            ok == old(self)@.settable(),
            ok ==> final(self)@ == old(self)@.with(key@, value@),
            !ok ==> final(self)@ == old(self)@,
    {
        let name = String::from_str(key);
        match self {
            Json::Object(fields) => {
                match last_entry(fields, key) {
                    Some(i) => {
                        proof {
                            lemma_fields_view_update(fields@, i as int, (name, value), fields@.len());
                        }
                        fields.set(i, (name, value));
                    },
                    None => {
                        proof {
                            lemma_fields_view_push(fields@, (name, value));
                        }
                        fields.push((name, value));
                    },
                }
                true
            },
            Json::Null => {
                let mut fields: Vec<(String, Json)> = Vec::new();
                proof {
                    lemma_fields_view_push(fields@, (name, value));
                }
                fields.push((name, value));
                *self = Json::Object(fields);
                true
            },
            _ => false,
        }
    }

    /// Sets the field `inner` of the field `outer`, as two nested `set`s do:
    /// a missing or `Null` field `outer` becomes an object. Where either level
    /// cannot take a field the value is left as it is, and `false` comes back.
    pub fn set_in(&mut self, outer: &str, inner: &str, value: Json) -> (ok: bool)
        ensures
            ok == old(self)@.settable_in(outer@),
            ok ==> final(self)@ == old(self)@.with_in(outer@, inner@, value@),
            !ok ==> final(self)@ == old(self)@,
    {
        if !self.can_set_in(outer) {
            return false;
        }
        let mut nested = self.at(outer);
        nested.set(inner, value);
        self.set(outer, nested)
    }
}

} // verus!
