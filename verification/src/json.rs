//! JSON values as plain data, with their mathematical counterpart.
//!
//! Text is turned into values and back by `serde_json`; everything the library decides from
//! a value is decided on [`Json`] and stated over [`JsonView`].
use crate::text::{opt_view, owned, result_view};
use vstd::prelude::*;

verus! {

/// A JSON value. A fraction is kept as the text that `serde_json` prints for it.
#[derive(Debug, PartialEq, Eq)]
pub enum Json {
    Null,
    Bool(bool),
    Int(i64),
    Uint(u64),
    Float(String),
    Str(String),
    Arr(Vec<Json>),
    Obj(Vec<(String, Json)>),
}

/// What a JSON value says.
pub enum JsonView {
    Null,
    Bool(bool),
    Int(int),
    Float(Seq<char>),
    Str(Seq<char>),
    Arr(Seq<JsonView>),
    Obj(Seq<(Seq<char>, JsonView)>),
}

impl View for Json {
    type V = JsonView;

    open spec fn view(&self) -> JsonView
        decreases self,
    {
        match self {
            Json::Null => JsonView::Null,
            Json::Bool(b) => JsonView::Bool(*b),
            Json::Int(i) => JsonView::Int(*i as int),
            Json::Uint(u) => JsonView::Int(*u as int),
            Json::Float(s) => JsonView::Float(s@),
            Json::Str(s) => JsonView::Str(s@),
            Json::Arr(v) => JsonView::Arr(
                Seq::new(
                    v.len() as nat,
                    |i: int|
                        if 0 <= i < v.len() {
                            v[i].view()
                        } else {
                            JsonView::Null
                        },
                ),
            ),
            Json::Obj(v) => JsonView::Obj(
                Seq::new(
                    v.len() as nat,
                    |i: int|
                        (
                            v[i].0@,
                            if 0 <= i < v.len() {
                                v[i].1.view()
                            } else {
                                JsonView::Null
                            },
                        ),
                ),
            ),
        }
    }
}

/// The views of a list of values.
pub open spec fn items_view(v: Seq<Json>) -> Seq<JsonView> {
    Seq::new(v.len(), |i: int| v[i]@)
}

/// The views of a list of named values.
pub open spec fn members_view(v: Seq<(String, Json)>) -> Seq<(Seq<char>, JsonView)> {
    Seq::new(v.len(), |i: int| (v[i].0@, v[i].1@))
}

pub broadcast proof fn lemma_arr_view(v: Vec<Json>)
    ensures
        #[trigger] Json::Arr(v)@ == JsonView::Arr(items_view(v@)),
{
    assert(Json::Arr(v)@->Arr_0 =~= items_view(v@));
}

pub broadcast proof fn lemma_obj_view(v: Vec<(String, Json)>)
    ensures
        #[trigger] Json::Obj(v)@ == JsonView::Obj(members_view(v@)),
{
    assert forall|i: int| 0 <= i < v.len() implies Json::Obj(v)@->Obj_0[i] == members_view(
        v@,
    )[i] by {
        assert(Json::Obj(v)@->Obj_0[i].0 == v[i].0@);
        assert(Json::Obj(v)@->Obj_0[i].1 == v[i].1@);
    }
    assert(Json::Obj(v)@->Obj_0 =~= members_view(v@));
}

// ---------------------------------------------------------------------------
// Reading
// ---------------------------------------------------------------------------

/// The value stored under a name.
pub open spec fn lookup(members: Seq<(Seq<char>, JsonView)>, key: Seq<char>) -> Option<JsonView>
    decreases members.len(),
{
    if members.len() == 0 {
        None
    } else if members[0].0 == key {
        Some(members[0].1)
    } else {
        lookup(members.subrange(1, members.len() as int), key)
    }
}

/// The field of an object; nothing else has fields.
pub open spec fn field(j: JsonView, key: Seq<char>) -> Option<JsonView> {
    match j {
        JsonView::Obj(m) => lookup(m, key),
        _ => None,
    }
}

/// The characters of a string value.
pub open spec fn as_text(j: Option<JsonView>) -> Option<Seq<char>> {
    match j {
        Some(JsonView::Str(s)) => Some(s),
        _ => None,
    }
}

/// The number of an integer value that fits an `i64`.
pub open spec fn as_int(j: Option<JsonView>) -> Option<int> {
    match j {
        Some(JsonView::Int(i)) => if i64::MIN <= i <= i64::MAX {
            Some(i)
        } else {
            None
        },
        _ => None,
    }
}

/// The truth value of a boolean.
pub open spec fn as_bool(j: Option<JsonView>) -> Option<bool> {
    match j {
        Some(JsonView::Bool(b)) => Some(b),
        _ => None,
    }
}

/// The elements of an array.
pub open spec fn as_items(j: Option<JsonView>) -> Option<Seq<JsonView>> {
    match j {
        Some(JsonView::Arr(v)) => Some(v),
        _ => None,
    }
}

/// The members of an object.
pub open spec fn as_members(j: Option<JsonView>) -> Option<Seq<(Seq<char>, JsonView)>> {
    match j {
        Some(JsonView::Obj(m)) => Some(m),
        _ => None,
    }
}

/// The text in a field.
pub open spec fn text_at(j: JsonView, key: Seq<char>) -> Option<Seq<char>> {
    as_text(field(j, key))
}

/// The integer in a field.
pub open spec fn int_at(j: JsonView, key: Seq<char>) -> Option<int> {
    as_int(field(j, key))
}

/// The truth value in a field.
pub open spec fn bool_at(j: JsonView, key: Seq<char>) -> Option<bool> {
    as_bool(field(j, key))
}

/// The elements of the array in a field.
pub open spec fn items_at(j: JsonView, key: Seq<char>) -> Option<Seq<JsonView>> {
    as_items(field(j, key))
}

/// The members of the object in a field.
pub open spec fn members_at(j: JsonView, key: Seq<char>) -> Option<Seq<(Seq<char>, JsonView)>> {
    as_members(field(j, key))
}

/// The first match is what `lookup` finds.
pub proof fn lemma_lookup(members: Seq<(Seq<char>, JsonView)>, key: Seq<char>, k: int)
    requires
        0 <= k <= members.len(),
        forall|i: int| 0 <= i < k ==> (#[trigger] members[i]).0 != key,
        k < members.len() ==> members[k].0 == key,
    ensures
        lookup(members, key) == if k < members.len() {
            Some(members[k].1)
        } else {
            None
        },
    decreases k,
{
    if k > 0 {
        let rest = members.subrange(1, members.len() as int);
        assert(members[0].0 != key);
        assert forall|i: int| 0 <= i < k - 1 implies (#[trigger] rest[i]).0 != key by {
            assert(members[i + 1].0 != key);
        }
        lemma_lookup(rest, key, k - 1);
    }
}

/// A member at the end is found where no member before it has its name.
pub broadcast proof fn lemma_lookup_push(
    members: Seq<(Seq<char>, JsonView)>,
    name: Seq<char>,
    value: JsonView,
    key: Seq<char>,
)
    ensures
        #[trigger] lookup(members.push((name, value)), key) == if lookup(members, key) is Some {
            lookup(members, key)
        } else if name == key {
            Some(value)
        } else {
            None
        },
    decreases members.len(),
{
    let whole = members.push((name, value));
    if members.len() == 0 {
        assert(whole[0] == (name, value));
        assert(lookup(whole.subrange(1, 1), key) is None);
    } else {
        assert(whole[0] == members[0]);
        if members[0].0 != key {
            let rest = members.subrange(1, members.len() as int);
            lemma_lookup_push(rest, name, value, key);
            assert(whole.subrange(1, whole.len() as int) =~= rest.push((name, value)));
        }
    }
}

/// The value stored under a name.
pub fn find_member<'a>(members: &'a Vec<(String, Json)>, key: &str) -> (r: Option<&'a Json>)
    ensures
        opt_view(r) == lookup(members_view(members@), key@),
        r is Some ==> decreases_to!(members => r->0),
{
    let mut i: usize = 0;
    while i < members.len()
        invariant
            i <= members.len(),
            forall|j: int| 0 <= j < i ==> (#[trigger] members_view(members@)[j]).0 != key@,
        decreases members.len() - i,
    {
        if *members[i].0.as_str() == *key {
            proof {
                lemma_lookup(members_view(members@), key@, i as int);
                assert(decreases_to!(members => members[i as int]));
            }
            return Some(&members[i].1);
        }
        i += 1;
    }
    proof {
        lemma_lookup(members_view(members@), key@, i as int);
    }
    None
}

impl Json {
    /// The field of an object.
    pub fn get(&self, key: &str) -> (r: Option<&Json>)
        ensures
            opt_view(r) == field(self@, key@),
    {
        broadcast use {lemma_arr_view, lemma_obj_view};

        match self {
            Json::Obj(m) => find_member(m, key),
            _ => None,
        }
    }

    /// The characters of a string value.
    pub fn as_str(&self) -> (r: Option<&str>)
        ensures
            opt_view(r) == as_text(Some(self@)),
    {
        broadcast use {lemma_arr_view, lemma_obj_view};

        match self {
            Json::Str(s) => Some(s.as_str()),
            _ => None,
        }
    }

    /// The number of an integer value that fits an `i64`.
    pub fn as_i64(&self) -> (r: Option<i64>)
        ensures
            (match r {
                Some(i) => Some(i as int),
                None => None,
            }) == as_int(Some(self@)),
    {
        broadcast use {lemma_arr_view, lemma_obj_view};

        match self {
            Json::Int(i) => Some(*i),
            Json::Uint(u) => if *u <= 0x7fff_ffff_ffff_ffff {
                Some(*u as i64)
            } else {
                None
            },
            _ => None,
        }
    }

    /// The truth value of a boolean.
    pub fn as_bool(&self) -> (r: Option<bool>)
        ensures
            r == as_bool(Some(self@)),
    {
        broadcast use {lemma_arr_view, lemma_obj_view};

        match self {
            Json::Bool(b) => Some(*b),
            _ => None,
        }
    }

    /// The elements of an array.
    pub fn as_array(&self) -> (r: Option<&Vec<Json>>)
        ensures
            (match r {
                Some(v) => Some(items_view(v@)),
                None => None,
            }) == as_items(Some(self@)),
    {
        broadcast use {lemma_arr_view, lemma_obj_view};

        match self {
            Json::Arr(v) => Some(v),
            _ => None,
        }
    }

    /// The members of an object.
    pub fn as_object(&self) -> (r: Option<&Vec<(String, Json)>>)
        ensures
            (match r {
                Some(v) => Some(members_view(v@)),
                None => None,
            }) == as_members(Some(self@)),
    {
        broadcast use {lemma_arr_view, lemma_obj_view};

        match self {
            Json::Obj(m) => Some(m),
            _ => None,
        }
    }

    /// The text in a field.
    pub fn text_at(&self, key: &str) -> (r: Option<&str>)
        ensures
            opt_view(r) == text_at(self@, key@),
    {
        match self.get(key) {
            Some(v) => v.as_str(),
            None => None,
        }
    }

    /// The integer in a field.
    pub fn int_at(&self, key: &str) -> (r: Option<i64>)
        ensures
            (match r {
                Some(i) => Some(i as int),
                None => None,
            }) == int_at(self@, key@),
    {
        match self.get(key) {
            Some(v) => v.as_i64(),
            None => None,
        }
    }

    /// The truth value in a field.
    pub fn bool_at(&self, key: &str) -> (r: Option<bool>)
        ensures
            r == bool_at(self@, key@),
    {
        match self.get(key) {
            Some(v) => v.as_bool(),
            None => None,
        }
    }

    /// The elements of the array in a field.
    pub fn items_at(&self, key: &str) -> (r: Option<&Vec<Json>>)
        ensures
            (match r {
                Some(v) => Some(items_view(v@)),
                None => None,
            }) == items_at(self@, key@),
    {
        match self.get(key) {
            Some(v) => v.as_array(),
            None => None,
        }
    }

    /// The members of the object in a field.
    pub fn members_at(&self, key: &str) -> (r: Option<&Vec<(String, Json)>>)
        ensures
            (match r {
                Some(v) => Some(members_view(v@)),
                None => None,
            }) == members_at(self@, key@),
    {
        match self.get(key) {
            Some(v) => v.as_object(),
            None => None,
        }
    }
}

// ---------------------------------------------------------------------------
// Building
// ---------------------------------------------------------------------------

/// An object under construction: named values in the order in which they were given.
pub struct Fields {
    pub members: Vec<(String, Json)>,
}

impl View for Fields {
    type V = Seq<(Seq<char>, JsonView)>;

    open spec fn view(&self) -> Seq<(Seq<char>, JsonView)> {
        members_view(self.members@)
    }
}

/// The members of an empty object.
pub open spec fn no_members() -> Seq<(Seq<char>, JsonView)> {
    Seq::empty()
}

/// An object without members.
pub fn fields() -> (r: Fields)
    ensures
        r@ == no_members(),
{
    let r = Fields { members: Vec::new() };
    assert(r@ =~= no_members());
    r
}

impl Fields {
    /// Adds a member at the end.
    pub fn with(self, key: &str, value: Json) -> (r: Fields)
        ensures
            r@ == self@.push((key@, value@)),
    {
        let mut members = self.members;
        members.push((owned(key), value));
        let r = Fields { members };
        assert(r@ =~= self@.push((key@, value@)));
        r
    }

    /// Adds a text at the end.
    pub fn text(self, key: &str, value: &str) -> (r: Fields)
        ensures
            r@ == self@.push((key@, JsonView::Str(value@))),
    {
        self.with(key, Json::Str(owned(value)))
    }

    /// Adds an integer at the end.
    pub fn number(self, key: &str, value: i64) -> (r: Fields)
        ensures
            r@ == self@.push((key@, JsonView::Int(value as int))),
    {
        self.with(key, Json::Int(value))
    }

    /// Adds a truth value at the end.
    pub fn flag(self, key: &str, value: bool) -> (r: Fields)
        ensures
            r@ == self@.push((key@, JsonView::Bool(value))),
    {
        self.with(key, Json::Bool(value))
    }

    /// The object.
    pub fn object(self) -> (r: Json)
        ensures
            r@ == JsonView::Obj(self@),
    {
        broadcast use lemma_obj_view;

        Json::Obj(self.members)
    }
}

/// The members with a value entered under a name: in its place where the name is there, else
/// at the end.
pub open spec fn put_member(
    m: Seq<(Seq<char>, JsonView)>,
    key: Seq<char>,
    value: JsonView,
) -> Seq<(Seq<char>, JsonView)>
    decreases m.len(),
{
    if m.len() == 0 {
        seq![(key, value)]
    } else if m[0].0 == key {
        m.update(0, (key, value))
    } else {
        seq![m[0]] + put_member(m.subrange(1, m.len() as int), key, value)
    }
}

proof fn lemma_put_member(m: Seq<(Seq<char>, JsonView)>, key: Seq<char>, value: JsonView, k: int)
    requires
        0 <= k <= m.len(),
        forall|i: int| 0 <= i < k ==> (#[trigger] m[i]).0 != key,
        k < m.len() ==> m[k].0 == key,
    ensures
        put_member(m, key, value) == if k < m.len() {
            m.update(k, (key, value))
        } else {
            m.push((key, value))
        },
    decreases k,
{
    if k == 0 {
        if m.len() == 0 {
            assert(m.push((key, value)) =~= seq![(key, value)]);
        }
    } else {
        let rest = m.subrange(1, m.len() as int);
        assert(m[0].0 != key);
        assert forall|i: int| 0 <= i < k - 1 implies (#[trigger] rest[i]).0 != key by {
            assert(m[i + 1].0 != key);
        }
        lemma_put_member(rest, key, value, k - 1);
        if k < m.len() {
            assert(seq![m[0]] + rest.update(k - 1, (key, value)) =~= m.update(k, (key, value)));
        } else {
            assert(seq![m[0]] + rest.push((key, value)) =~= m.push((key, value)));
        }
    }
}

/// Entering a value under a name gives it back under that name.
pub proof fn entered_member_is_found(
    m: Seq<(Seq<char>, JsonView)>,
    key: Seq<char>,
    value: JsonView,
)
    ensures
        lookup(put_member(m, key, value), key) == Some(value),
    decreases m.len(),
{
    if m.len() == 0 {
        assert(put_member(m, key, value)[0] == (key, value));
    } else if m[0].0 == key {
        assert(m.update(0, (key, value))[0] == (key, value));
    } else {
        let rest = m.subrange(1, m.len() as int);
        entered_member_is_found(rest, key, value);
        let whole = put_member(m, key, value);
        assert(whole[0] == m[0]);
        assert(whole.subrange(1, whole.len() as int) =~= put_member(rest, key, value));
    }
}

/// Entering a value under a name leaves what stands under another name.
pub proof fn other_members_stay(
    m: Seq<(Seq<char>, JsonView)>,
    key: Seq<char>,
    value: JsonView,
    other: Seq<char>,
)
    requires
        other != key,
    ensures
        lookup(put_member(m, key, value), other) == lookup(m, other),
    decreases m.len(),
{
    let whole = put_member(m, key, value);
    if m.len() == 0 {
        assert(whole[0] == (key, value));
        assert(whole.subrange(1, whole.len() as int) =~= m);
    } else if m[0].0 == key {
        assert(whole[0] == (key, value));
        assert(whole.subrange(1, whole.len() as int) =~= m.subrange(1, m.len() as int));
    } else {
        let rest = m.subrange(1, m.len() as int);
        other_members_stay(rest, key, value, other);
        assert(whole[0] == m[0]);
        assert(whole.subrange(1, whole.len() as int) =~= put_member(rest, key, value));
    }
}

/// Enters a value under a name.
pub fn set_member(members: Vec<(String, Json)>, key: &str, value: Json) -> (r: Vec<(String, Json)>)
    ensures
        members_view(r@) == put_member(members_view(members@), key@, value@),
{
    let mut members = members;
    let ghost m = members_view(members@);
    let mut k: usize = 0;
    while k < members.len() && !(*members[k].0.as_str() == *key)
        invariant
            k <= members.len(),
            m == members_view(members@),
            forall|i: int| 0 <= i < k ==> (#[trigger] m[i]).0 != key@,
        decreases members.len() - k,
    {
        k += 1;
    }
    proof {
        lemma_put_member(m, key@, value@, k as int);
    }
    if k < members.len() {
        members.set(k, (owned(key), value));
        assert(members_view(members@) =~= m.update(k as int, (key@, value@)));
    } else {
        members.push((owned(key), value));
        assert(members_view(members@) =~= m.push((key@, value@)));
    }
    members
}

/// A string value.
pub fn json_text_value(s: &str) -> (r: Json)
    ensures
        r@ == JsonView::Str(s@),
{
    Json::Str(owned(s))
}

/// An array of the given elements.
pub fn json_array(items: Vec<Json>) -> (r: Json)
    ensures
        r@ == JsonView::Arr(items_view(items@)),
{
    broadcast use lemma_arr_view;

    Json::Arr(items)
}

// ---------------------------------------------------------------------------
// Copying and comparing
// ---------------------------------------------------------------------------

/// Copies a list of values.
pub fn copy_items(v: &Vec<Json>) -> (r: Vec<Json>)
    ensures
        items_view(r@) == items_view(v@),
    decreases v,
{
    let mut out: Vec<Json> = Vec::new();
    let mut i: usize = 0;
    while i < v.len()
        invariant
            i <= v.len(),
            out.len() == i,
            forall|j: int| 0 <= j < i ==> (#[trigger] out[j])@ == v[j]@,
        decreases v.len() - i,
    {
        out.push(v[i].copy());
        i += 1;
    }
    assert(items_view(out@) =~= items_view(v@));
    out
}

/// Copies a list of named values.
pub fn copy_members(v: &Vec<(String, Json)>) -> (r: Vec<(String, Json)>)
    ensures
        members_view(r@) == members_view(v@),
    decreases v,
{
    let mut out: Vec<(String, Json)> = Vec::new();
    let mut i: usize = 0;
    while i < v.len()
        invariant
            i <= v.len(),
            out.len() == i,
            forall|j: int|
                0 <= j < i ==> (#[trigger] out[j]).0@ == v[j].0@ && out[j].1@ == v[j].1@,
        decreases v.len() - i,
    {
        assert(decreases_to!(v => v[i as int]));
        out.push((v[i].0.clone(), v[i].1.copy()));
        i += 1;
    }
    assert(members_view(out@) =~= members_view(v@));
    out
}

/// The two ways in which a zero fraction is written.
pub open spec fn is_zero_text(s: Seq<char>) -> bool {
    s == "0.0"@ || s == "-0.0"@
}

/// Whether two values are equal as JSON: objects as maps from names to values, and fractions
/// as numbers, so that the two zeros are one.
pub open spec fn json_same(a: JsonView, b: JsonView) -> bool
    decreases a,
{
    match (a, b) {
        (JsonView::Null, JsonView::Null) => true,
        (JsonView::Bool(x), JsonView::Bool(y)) => x == y,
        (JsonView::Int(x), JsonView::Int(y)) => x == y,
        (JsonView::Float(x), JsonView::Float(y)) => x == y || (is_zero_text(x) && is_zero_text(y)),
        (JsonView::Str(x), JsonView::Str(y)) => x == y,
        (JsonView::Arr(x), JsonView::Arr(y)) => x.len() == y.len() && forall|i: int|
            0 <= i < x.len() ==> json_same(#[trigger] x[i], y[i]),
        (JsonView::Obj(x), JsonView::Obj(y)) => x.len() == y.len() && forall|i: int|
            0 <= i < x.len() ==> match lookup(y, (#[trigger] x[i]).0) {
                Some(v) => json_same(x[i].1, v),
                None => false,
            },
        _ => false,
    }
}

/// Whether no object of a value holds a name twice.
pub open spec fn names_distinct(j: JsonView) -> bool
    decreases j,
{
    match j {
        JsonView::Arr(v) => forall|i: int| 0 <= i < v.len() ==> names_distinct(#[trigger] v[i]),
        JsonView::Obj(m) => {
            &&& forall|i: int| 0 <= i < m.len() ==> names_distinct((#[trigger] m[i]).1)
            &&& forall|i: int, k: int|
                0 <= i < k < m.len() ==> (#[trigger] m[i]).0 != (#[trigger] m[k]).0
        },
        _ => true,
    }
}

/// A value equals itself.
pub proof fn json_same_reflexive(j: JsonView)
    requires
        names_distinct(j),
    ensures
        json_same(j, j),
    decreases j,
{
    match j {
        JsonView::Arr(v) => {
            assert forall|i: int| 0 <= i < v.len() implies json_same(#[trigger] v[i], v[i]) by {
                json_same_reflexive(v[i]);
            }
        },
        JsonView::Obj(m) => {
            assert forall|i: int| 0 <= i < m.len() implies match lookup(m, (#[trigger] m[i]).0) {
                Some(v) => json_same(m[i].1, v),
                None => false,
            } by {
                lemma_lookup(m, m[i].0, i);
                assert(names_distinct(m[i].1));
                assert(decreases_to!(j => m[i]));
                json_same_reflexive(m[i].1);
            }
        },
        _ => {},
    }
}

/// Of two equal objects, each holds every name of the other, with an equal value.
pub proof fn equal_objects_hold_the_same(x: Seq<(Seq<char>, JsonView)>, y: Seq<
    (Seq<char>, JsonView),
>)
    requires
        json_same(JsonView::Obj(x), JsonView::Obj(y)),
        names_distinct(JsonView::Obj(x)),
        names_distinct(JsonView::Obj(y)),
    ensures
        forall|k: int|
            0 <= k < y.len() ==> lookup(x, (#[trigger] y[k]).0) is Some && json_same(
                lookup(x, y[k].0)->0,
                y[k].1,
            ),
{
    let a = x.map_values(|p: (Seq<char>, JsonView)| p.0);
    let b = y.map_values(|p: (Seq<char>, JsonView)| p.0);
    assert(a.no_duplicates()) by {
        assert forall|i: int, j: int| 0 <= i < a.len() && 0 <= j < a.len() && i != j implies a[i]
            != a[j] by {
            assert(a[i] == x[i].0 && a[j] == x[j].0);
        }
    }
    assert(b.no_duplicates()) by {
        assert forall|i: int, j: int| 0 <= i < b.len() && 0 <= j < b.len() && i != j implies b[i]
            != b[j] by {
            assert(b[i] == y[i].0 && b[j] == y[j].0);
        }
    }
    a.unique_seq_to_set();
    b.unique_seq_to_set();
    vstd::seq_lib::seq_to_set_is_finite(a);
    vstd::seq_lib::seq_to_set_is_finite(b);
    assert forall|n: Seq<char>| a.to_set().contains(n) implies b.to_set().contains(n) by {
        let i = choose|i: int| 0 <= i < a.len() && a[i] == n;
        assert(a[i] == x[i].0);
        assert(lookup(y, x[i].0) is Some);
        if forall|k: int| 0 <= k < y.len() ==> (#[trigger] y[k]).0 != n {
            lemma_lookup(y, n, y.len() as int);
        }
        let k = choose|k: int| 0 <= k < y.len() && y[k].0 == n;
        assert(b[k] == n);
    }
    vstd::set_lib::lemma_subset_equality(a.to_set(), b.to_set());
    assert forall|k: int| 0 <= k < y.len() implies lookup(x, (#[trigger] y[k]).0) is Some
        && json_same(lookup(x, y[k].0)->0, y[k].1) by {
        assert(b[k] == y[k].0);
        assert(b.to_set().contains(b[k]));
        assert(a.to_set().contains(b[k]));
        let i = choose|i: int| 0 <= i < a.len() && a[i] == b[k];
        assert(x[i].0 == y[k].0);
        lemma_lookup(x, x[i].0, i);
        lemma_lookup(y, y[k].0, k);
    }
}

fn same_items(a: &Vec<Json>, b: &Vec<Json>) -> (r: bool)
    ensures
        r == json_same(JsonView::Arr(items_view(a@)), JsonView::Arr(items_view(b@))),
    decreases a,
{
    let ghost x = items_view(a@);
    let ghost y = items_view(b@);
    if a.len() != b.len() {
        return false;
    }
    let mut i: usize = 0;
    while i < a.len()
        invariant
            i <= a.len(),
            a.len() == b.len(),
            x == items_view(a@),
            y == items_view(b@),
            forall|j: int| 0 <= j < i ==> json_same(#[trigger] x[j], y[j]),
        decreases a.len() - i,
    {
        assert(x[i as int] == a[i as int]@ && y[i as int] == b[i as int]@);
        if !a[i].same(&b[i]) {
            return false;
        }
        i += 1;
    }
    true
}

fn same_members(a: &Vec<(String, Json)>, b: &Vec<(String, Json)>) -> (r: bool)
    ensures
        r == json_same(JsonView::Obj(members_view(a@)), JsonView::Obj(members_view(b@))),
    decreases a,
{
    let ghost x = members_view(a@);
    let ghost y = members_view(b@);
    if a.len() != b.len() {
        return false;
    }
    let mut i: usize = 0;
    while i < a.len()
        invariant
            i <= a.len(),
            a.len() == b.len(),
            x == members_view(a@),
            y == members_view(b@),
            forall|j: int|
                0 <= j < i ==> match lookup(y, (#[trigger] x[j]).0) {
                    Some(v) => json_same(x[j].1, v),
                    None => false,
                },
        decreases a.len() - i,
    {
        assert(x[i as int] == (a[i as int].0@, a[i as int].1@));
        assert(decreases_to!(a => a[i as int]));
        match find_member(b, a[i].0.as_str()) {
            Some(v) => {
                if !a[i].1.same(v) {
                    return false;
                }
            },
            None => {
                return false;
            },
        }
        i += 1;
    }
    true
}

impl Json {
    /// Reads JSON text.
    pub fn from_text(text: &str) -> (r: Option<Json>)
        ensures
            opt_view(r) == json_parsed(text@),
    {
        parse(text)
    }

    /// Writes compact JSON text.
    pub fn to_text(&self) -> (r: String)
        ensures
            r@ == json_text(self@),
    {
        render(self)
    }

    /// Writes JSON text with line breaks.
    pub fn to_pretty_text(&self) -> (r: String)
        ensures
            r@ == json_pretty(self@),
    {
        render_pretty(self)
    }

    /// Copies a value.
    pub fn copy(&self) -> (r: Json)
        ensures
            r@ == self@,
        decreases self,
    {
        broadcast use {lemma_arr_view, lemma_obj_view};

        match self {
            Json::Null => Json::Null,
            Json::Bool(b) => Json::Bool(*b),
            Json::Int(i) => Json::Int(*i),
            Json::Uint(u) => Json::Uint(*u),
            Json::Float(s) => Json::Float(s.clone()),
            Json::Str(s) => Json::Str(s.clone()),
            Json::Arr(v) => Json::Arr(copy_items(v)),
            Json::Obj(v) => Json::Obj(copy_members(v)),
        }
    }

    /// Whether two values are equal as JSON.
    pub fn same(&self, other: &Json) -> (r: bool)
        ensures
            r == json_same(self@, other@),
        decreases self,
    {
        broadcast use {lemma_arr_view, lemma_obj_view};

        match (self, other) {
            (Json::Null, Json::Null) => true,
            (Json::Bool(a), Json::Bool(b)) => *a == *b,
            (Json::Int(a), Json::Int(b)) => *a == *b,
            (Json::Uint(a), Json::Uint(b)) => *a == *b,
            (Json::Int(a), Json::Uint(b)) => *a >= 0 && *a as u64 == *b,
            (Json::Uint(a), Json::Int(b)) => *b >= 0 && *b as u64 == *a,
            (Json::Float(a), Json::Float(b)) => {
                *a.as_str() == *b.as_str() || (zero_text(a.as_str()) && zero_text(b.as_str()))
            },
            (Json::Str(a), Json::Str(b)) => *a.as_str() == *b.as_str(),
            (Json::Arr(a), Json::Arr(b)) => same_items(a, b),
            (Json::Obj(a), Json::Obj(b)) => same_members(a, b),
            _ => false,
        }
    }
}

fn zero_text(s: &str) -> (r: bool)
    ensures
        r == is_zero_text(s@),
{
    *s == *"0.0" || *s == *"-0.0"
}

// ---------------------------------------------------------------------------
// serde_json
// ---------------------------------------------------------------------------

/// `serde_json::Value`.
#[verifier::external_type_specification]
#[verifier::external_body]
pub struct ExValue(serde_json::Value);

/// The compact JSON text that `serde_json::to_string` writes for a value.
pub uninterp spec fn json_text(j: JsonView) -> Seq<char>;

/// The JSON text with line breaks that `serde_json::to_string_pretty` writes for a value.
pub uninterp spec fn json_pretty(j: JsonView) -> Seq<char>;

/// The value that `serde_json::from_str` reads from a text, where the text is JSON.
pub uninterp spec fn json_parsed(text: Seq<char>) -> Option<JsonView>;

/// The bits of the double-precision number that `str::parse` reads from a text, where the
/// text is a finite number.
pub uninterp spec fn number_bits(text: Seq<char>) -> Option<u64>;

/// Converts to `serde_json::Value`, variant by variant.
#[verifier::external_body]
fn to_value(j: &Json) -> serde_json::Value {
    match j {
        Json::Null => serde_json::Value::Null,
        Json::Bool(b) => serde_json::Value::Bool(*b),
        Json::Int(i) => serde_json::Value::from(*i),
        Json::Uint(u) => serde_json::Value::from(*u),
        Json::Float(s) => s.parse().ok().and_then(serde_json::Number::from_f64).into(),
        Json::Str(s) => serde_json::Value::from(s.as_str()),
        Json::Arr(v) => v.iter().map(to_value).collect(),
        Json::Obj(m) => m.iter().map(|e| (e.0.as_str(), to_value(&e.1))).collect(),
    }
}

/// Converts from `serde_json::Value`, variant by variant.
#[verifier::external_body]
fn from_value(v: serde_json::Value) -> Json {
    match v {
        serde_json::Value::Null => Json::Null,
        serde_json::Value::Bool(b) => Json::Bool(b),
        serde_json::Value::Number(n) => match (n.as_i64(), n.as_u64()) {
            (Some(i), _) => Json::Int(i),
            (None, Some(u)) => Json::Uint(u),
            (None, None) => Json::Float(n.to_string()),
        },
        serde_json::Value::String(s) => Json::Str(s),
        serde_json::Value::Array(v) => Json::Arr(v.into_iter().map(from_value).collect()),
        serde_json::Value::Object(m) => {
            Json::Obj(m.into_iter().map(|e| (e.0, from_value(e.1))).collect())
        },
    }
}

/// Calls `serde_json::to_string`, which cannot fail on a JSON value: the text depends on the
/// value alone.
#[verifier::external_body]
pub(crate) fn render(j: &Json) -> (r: String)
    ensures
        r@ == json_text(j@),
{
    serde_json::to_string(&to_value(j)).unwrap_or_default()
}

/// Calls `serde_json::to_string_pretty`, which cannot fail on a JSON value: the text depends on
/// the value alone.
#[verifier::external_body]
fn render_pretty(j: &Json) -> (r: String)
    ensures
        r@ == json_pretty(j@),
{
    serde_json::to_string_pretty(&to_value(j)).unwrap_or_default()
}

/// The JSON text with line breaks that `serde_json` writes for an object of texts, whose
/// members stay in their order.
pub uninterp spec fn members_pretty(members: Seq<(Seq<char>, Seq<char>)>) -> Seq<char>;

/// The views of a list of named texts.
pub open spec fn named_texts(v: Seq<(String, String)>) -> Seq<(Seq<char>, Seq<char>)> {
    v.map_values(|p: (String, String)| (p.0@, p.1@))
}

/// An object of texts.
pub open spec fn texts_object(members: Seq<(Seq<char>, Seq<char>)>) -> JsonView {
    JsonView::Obj(
        members.map_values(|p: (Seq<char>, Seq<char>)| (p.0, JsonView::Str(p.1))),
    )
}

/// Calls `serde::Serializer::collect_map` on the `serde_json` serializer with line breaks,
/// which cannot fail on texts: the text depends on the members and their order alone. It is
/// what `serde_json::to_string_pretty` writes for a structure of these fields.
#[verifier::external_body]
pub(crate) fn render_members(members: &Vec<(String, String)>) -> (r: String)
    ensures
        r@ == members_pretty(named_texts(members@)),
{
    let mut out: Vec<u8> = Vec::new();
    let mut writer = serde_json::Serializer::pretty(&mut out);
    let done = serde::Serializer::collect_map(&mut writer, members.iter().map(|m| (&m.0, &m.1)));
    done.ok().and_then(|_| String::from_utf8(out).ok()).unwrap_or_default()
}

/// Whether a value is written and read back without loss: no fractions, integers that fit
/// 64 bits, no name twice in an object, and at most `depth` levels of nesting.
pub open spec fn is_plain(j: JsonView, depth: nat) -> bool
    decreases depth,
{
    match j {
        JsonView::Int(i) => i64::MIN <= i <= u64::MAX,
        JsonView::Float(_) => false,
        JsonView::Arr(v) => depth > 0 && forall|i: int|
            0 <= i < v.len() ==> is_plain(#[trigger] v[i], (depth - 1) as nat),
        JsonView::Obj(m) => {
            &&& depth > 0
            &&& forall|i: int| 0 <= i < m.len() ==> is_plain((#[trigger] m[i]).1, (depth - 1) as nat)
            &&& forall|i: int, j: int|
                0 <= i < j < m.len() ==> (#[trigger] m[i]).0 != (#[trigger] m[j]).0
        },
        _ => true,
    }
}

/// Calls `serde_json::from_str`: what it reads, and whether it reads anything, depends on the
/// text alone. A text that `serde_json` wrote for a value without fractions, nested no deeper
/// than its limit, with or without line breaks, is read back as an equal value with the same
/// text. Of texts with fractions nothing more is said: their last digit may be read inexactly.
/// The same holds of the text of an object of texts whose members stay in their order. Line
/// breaks make no difference, and no object that is read holds a name twice.
#[verifier::external_body]
pub(crate) fn parse(text: &str) -> (r: Option<Json>)
    ensures
        opt_view(r) == json_parsed(text@),
        forall|j: JsonView| #[trigger]
            json_text(j) == text@ && is_plain(j, 100) ==> r is Some && json_same(r->0@, j)
                && json_text(r->0@) == json_text(j),
        forall|j: JsonView| #[trigger]
            json_pretty(j) == text@ && is_plain(j, 100) ==> r is Some && json_same(r->0@, j)
                && json_text(r->0@) == json_text(j),
        forall|j: JsonView| #[trigger]
            json_pretty(j) == text@ ==> opt_view(r) == json_parsed(json_text(j)),
        forall|m: Seq<(Seq<char>, Seq<char>)>| #[trigger]
            members_pretty(m) == text@ && names_distinct(texts_object(m)) ==> r is Some
                && json_same(r->0@, texts_object(m)),
        r matches Some(v) ==> names_distinct(v@),
{
    serde_json::from_str::<serde_json::Value>(text).ok().map(from_value)
}

/// What `serde_json` reads from bytes, or the text of its error.
pub uninterp spec fn json_read(bytes: Seq<u8>) -> Result<JsonView, Seq<char>>;

/// Calls `serde_json::from_slice`: what it reads, or the text of its error where the bytes are
/// no JSON, depends on the bytes alone, and no object that is read holds a name twice.
#[verifier::external_body]
pub(crate) fn parse_bytes(bytes: &Vec<u8>) -> (r: Result<Json, String>)
    ensures
        result_view(r) == json_read(bytes@),
        r matches Ok(v) ==> names_distinct(v@),
{
    serde_json::from_slice::<serde_json::Value>(bytes).map(from_value).map_err(|e| e.to_string())
}

/// Calls `str::parse` for a double-precision number and hands out its bits; a text that is
/// not a finite number gives nothing.
#[verifier::external_body]
pub(crate) fn parse_number_bits(text: &str) -> (r: Option<u64>)
    ensures
        r == number_bits(text@),
{
    text.parse().ok().and_then(serde_json::Number::from_f64).and_then(|n| n.as_f64()).map(
        |x| x.to_bits(),
    )
}

} // verus!
