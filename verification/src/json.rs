//! JSON values as plain data.

use vstd::prelude::*;

use crate::strings::{char_vec, same_text};

verus! {

/// A JSON number: an integer that fits 64 bits, or a finite double precision number
/// held by its bit pattern.
#[derive(Clone, Copy, Debug, PartialEq, Eq, Structural)]
pub enum JsonNumber {
    Unsigned(u64),
    Negative(i64),
    Float(u64),
}

/// A JSON value.
#[derive(Debug)]
pub enum Json {
    Null,
    Bool(bool),
    Number(JsonNumber),
    Text(String),
    Array(Vec<Json>),
    Object(JsonObject),
}

/// A JSON object: its fields, in the order of their names.
#[derive(Debug)]
pub struct JsonObject {
    pub entries: Vec<(String, Json)>,
}

/// The mathematical content of a JSON value.
pub enum JsonView {
    Null,
    Bool(bool),
    Number(JsonNumber),
    Text(Seq<char>),
    Array(Seq<JsonView>),
    Object(Seq<(Seq<char>, JsonView)>),
}

/// The fields of an object, in order.
pub type Fields = Seq<(Seq<char>, JsonView)>;

pub open spec fn json_view(json: Json) -> JsonView
    decreases json,
{
    match json {
        Json::Null => JsonView::Null,
        Json::Bool(value) => JsonView::Bool(value),
        Json::Number(number) => JsonView::Number(number),
        Json::Text(text) => JsonView::Text(text@),
        Json::Array(items) => JsonView::Array(
            Seq::new(
                items@.len(),
                |i: int|
                    if 0 <= i < items@.len() {
                        json_view(items@[i])
                    } else {
                        JsonView::Null
                    },
            ),
        ),
        Json::Object(object) => JsonView::Object(object_view(object)),
    }
}

pub open spec fn object_view(object: JsonObject) -> Fields
    decreases object,
{
    Seq::new(
        object.entries@.len(),
        |i: int|
            if 0 <= i < object.entries@.len() {
                (object.entries@[i].0@, json_view(object.entries@[i].1))
            } else {
                (Seq::empty(), JsonView::Null)
            },
    )
}

/// The content of a list of named JSON values.
pub open spec fn pair_views(pairs: Seq<(String, Json)>) -> Fields {
    pairs.map_values(|pair: (String, Json)| (pair.0@, pair.1@))
}

/// The content of a list of JSON values.
pub open spec fn array_view(items: Seq<Json>) -> Seq<JsonView> {
    items.map_values(|item: Json| item@)
}

impl View for Json {
    type V = JsonView;

    open spec fn view(&self) -> JsonView {
        json_view(*self)
    }
}

impl View for JsonObject {
    type V = Fields;

    open spec fn view(&self) -> Fields {
        object_view(*self)
    }
}

/// The value of the first field that has this name.
pub open spec fn lookup(fields: Fields, name: Seq<char>) -> Option<JsonView>
    decreases fields.len(),
{
    if fields.len() == 0 {
        None
    } else if fields[0].0 == name {
        Some(fields[0].1)
    } else {
        lookup(fields.drop_first(), name)
    }
}

/// `a` comes before `b` in the order of their characters.
pub open spec fn comes_before(a: Seq<char>, b: Seq<char>) -> bool
    decreases a.len(),
{
    if b.len() == 0 {
        false
    } else if a.len() == 0 {
        true
    } else if a[0] == b[0] {
        comes_before(a.drop_first(), b.drop_first())
    } else {
        a[0] < b[0]
    }
}

/// The fields after `name` has been given `value`: an equal name has its value
/// replaced, a new one is placed before the first greater name.
pub open spec fn put(fields: Fields, name: Seq<char>, value: JsonView) -> Fields
    decreases fields.len(),
{
    if fields.len() == 0 || comes_before(name, fields[0].0) {
        seq![(name, value)] + fields
    } else if fields[0].0 == name {
        seq![(name, value)] + fields.drop_first()
    } else {
        seq![fields[0]] + put(fields.drop_first(), name, value)
    }
}

/// The fields that stand after each pair has been put in turn.
pub open spec fn put_all(pairs: Fields) -> Fields
    decreases pairs.len(),
{
    if pairs.len() == 0 {
        Seq::empty()
    } else {
        put(put_all(pairs.drop_last()), pairs.last().0, pairs.last().1)
    }
}

/// Two numbers are equal when they are of one kind and of one value; the two zeros of
/// the floating kind are equal.
pub open spec fn number_equal(a: JsonNumber, b: JsonNumber) -> bool {
    match (a, b) {
        (JsonNumber::Unsigned(x), JsonNumber::Unsigned(y)) => x == y,
        (JsonNumber::Negative(x), JsonNumber::Negative(y)) => x == y,
        (JsonNumber::Float(x), JsonNumber::Float(y)) => x == y || (float_is_zero(x)
            && float_is_zero(y)),
        _ => false,
    }
}

/// The bit pattern is that of a zero of either sign.
pub open spec fn float_is_zero(bits: u64) -> bool {
    bits == 0 || bits == 0x8000_0000_0000_0000
}

/// Structural equality; the order of an object's fields does not matter.
pub open spec fn json_equal(a: JsonView, b: JsonView) -> bool
    decreases a,
{
    match (a, b) {
        (JsonView::Null, JsonView::Null) => true,
        (JsonView::Bool(x), JsonView::Bool(y)) => x == y,
        (JsonView::Number(x), JsonView::Number(y)) => number_equal(x, y),
        (JsonView::Text(x), JsonView::Text(y)) => x == y,
        (JsonView::Array(x), JsonView::Array(y)) => {
            &&& x.len() == y.len()
            &&& forall|i: int| 0 <= i < x.len() ==> json_equal(#[trigger] x[i], y[i])
        },
        (JsonView::Object(x), JsonView::Object(y)) => fields_equal(x, y),
        _ => false,
    }
}

/// Both have as many fields, and each field of `a` has an equal value in `b`.
pub open spec fn fields_equal(a: Fields, b: Fields) -> bool
    decreases a,
{
    &&& a.len() == b.len()
    &&& forall|i: int|
        0 <= i < a.len() ==> {
            let name = (#[trigger] a[i]).0;
            lookup(b, name) is Some && json_equal(a[i].1, lookup(b, name)->0)
        }
}

impl JsonObject {
    /// An object without fields.
    pub fn new() -> (res: JsonObject)
        ensures
            res@ == Fields::empty(),
    {
        JsonObject { entries: Vec::new() }
    }

    /// How many fields there are.
    pub fn len(&self) -> (res: usize)
        ensures
            res == self@.len(),
    {
        self.entries.len()
    }

    /// There is no field.
    pub fn is_empty(&self) -> (res: bool)
        ensures
            res == (self@.len() == 0),
    {
        self.entries.len() == 0
    }

    /// The value of a field.
    pub fn get(&self, name: &str) -> (res: Option<&Json>)
        ensures
            match res {
                Some(value) => lookup(self@, name@) == Some(value@),
                None => lookup(self@, name@) is None,
            },
    {
        let mut i: usize = 0;
        assert(self@.skip(0) =~= self@);
        while i < self.entries.len()
            invariant
                i <= self.entries@.len() == self@.len(),
                lookup(self@, name@) == lookup(self@.skip(i as int), name@),
            decreases self.entries@.len() - i,
        {
            assert(self@.skip(i as int)[0] == (self.entries@[i as int].0@, self.entries@[i as int].1@));
            if same_text(self.entries[i].0.as_str(), name) {
                return Some(&self.entries[i].1);
            }
            assert(self@.skip(i as int).drop_first() =~= self@.skip(i + 1));
            i += 1;
        }
        None
    }

    /// There is a field of this name.
    pub fn contains_key(&self, name: &str) -> (res: bool)
        ensures
            res == (lookup(self@, name@) is Some),
    {
        self.get(name).is_some()
    }

    /// Gives a field its value.
    pub fn insert(&mut self, name: String, value: Json)
        ensures
            final(self)@ == put(old(self)@, name@, value@),
    {
        let ghost fields: Fields = self@;
        let ghost entry: (Seq<char>, JsonView) = (name@, value@);
        let mut i: usize = 0;
        let mut replaces: bool = false;
        proof {
            assert(fields.skip(0) =~= fields);
            assert(fields.take(0) + put(fields.skip(0), name@, value@) =~= put(fields, name@, value@));
        }
        while i < self.entries.len()
            invariant_except_break
                !replaces,
            invariant
                i <= self.entries@.len() == fields.len(),
                fields == self@,
                *self == *old(self),
                entry == (name@, value@),
                put(fields, name@, value@) == fields.take(i as int) + put(
                    fields.skip(i as int),
                    name@,
                    value@,
                ),
            ensures
                replaces ==> i < fields.len() && put(fields, name@, value@) == fields.update(
                    i as int,
                    entry,
                ),
                !replaces ==> put(fields, name@, value@) == fields.insert(i as int, entry),
            decreases self.entries@.len() - i,
        {
            let ghost rest: Fields = fields.skip(i as int);
            assert(rest[0] == (self.entries@[i as int].0@, self.entries@[i as int].1@));
            if name_before(name.as_str(), self.entries[i].0.as_str()) {
                assert(fields.take(i as int) + (seq![entry] + rest) =~= fields.insert(
                    i as int,
                    entry,
                ));
                break ;
            }
            if same_text(self.entries[i].0.as_str(), name.as_str()) {
                assert(fields.take(i as int) + (seq![entry] + rest.drop_first()) =~= fields.update(
                    i as int,
                    entry,
                ));
                replaces = true;
                break ;
            }
            proof {
                assert(rest.drop_first() =~= fields.skip(i + 1));
                assert(fields.take(i as int) + (seq![rest[0]] + put(
                    fields.skip(i + 1),
                    name@,
                    value@,
                )) =~= fields.take(i + 1) + put(fields.skip(i + 1), name@, value@));
                if i + 1 == fields.len() {
                    assert(fields.skip(i + 1) =~= Fields::empty());
                    assert(fields.take(i + 1) + (seq![entry] + Fields::empty()) =~= fields.insert(
                        i + 1,
                        entry,
                    ));
                }
            }
            i += 1;
        }
        if replaces {
            self.entries.set(i, (name, value));
            assert(self@ =~= fields.update(i as int, entry));
        } else {
            self.entries.insert(i, (name, value));
            assert(self@ =~= fields.insert(i as int, entry));
        }
    }

    /// The object that stands after each pair has been inserted in turn.
    pub fn from_pairs(pairs: Vec<(String, Json)>) -> (res: JsonObject)
        ensures
            res@ == put_all(pair_views(pairs@)),
    {
        let ghost all: Fields = pair_views(pairs@);
        let mut object: JsonObject = JsonObject::new();
        for pair in it: pairs.into_iter()
            invariant
                it.seq() == pairs@,
                all == pair_views(pairs@),
                object@ == put_all(all.take(it.index() as int)),
        {
            let ghost done: Fields = all.take(it.index() + 1);
            assert(done.drop_last() =~= all.take(it.index() as int));
            object.insert(pair.0, pair.1);
        }
        assert(all.take(all.len() as int) =~= all);
        object
    }

    /// A copy.
    pub fn duplicate(&self) -> (res: JsonObject)
        ensures
            res@ == self@,
        decreases self,
    {
        let mut entries: Vec<(String, Json)> = Vec::new();
        let mut i: usize = 0;
        while i < self.entries.len()
            invariant
                i <= self.entries@.len(),
                entries@.len() == i,
                forall|k: int|
                    0 <= k < i ==> (#[trigger] entries@[k]).0@ == self.entries@[k].0@
                        && entries@[k].1@ == self.entries@[k].1@,
            decreases self.entries@.len() - i,
        {
            let pair: &(String, Json) = &self.entries[i];
            assert(decreases_to!(self => self.entries));
            assert(decreases_to!(self.entries => self.entries@));
            assert(decreases_to!(self.entries@ => self.entries@[i as int]));
            assert(decreases_to!(pair => pair.1));
            entries.push((pair.0.clone(), pair.1.duplicate()));
            i += 1;
        }
        let copy: JsonObject = JsonObject { entries };
        assert(copy@ =~= self@);
        copy
    }

    /// Both hold the same fields with equal values.
    pub fn equals(&self, other: &JsonObject) -> (res: bool)
        ensures
            res == fields_equal(self@, other@),
        decreases self,
    {
        if self.entries.len() != other.entries.len() {
            return false;
        }
        let mut i: usize = 0;
        while i < self.entries.len()
            invariant
                i <= self.entries@.len(),
                self@.len() == other@.len(),
                forall|k: int|
                    0 <= k < i ==> {
                        let name = (#[trigger] self@[k]).0;
                        lookup(other@, name) is Some && json_equal(
                            self@[k].1,
                            lookup(other@, name)->0,
                        )
                    },
            decreases self.entries@.len() - i,
        {
            let pair: &(String, Json) = &self.entries[i];
            assert(self@[i as int] == (pair.0@, pair.1@));
            assert(decreases_to!(self => self.entries));
            assert(decreases_to!(self.entries => self.entries@));
            assert(decreases_to!(self.entries@ => self.entries@[i as int]));
            assert(decreases_to!(pair => pair.1));
            let same: bool = match other.get(pair.0.as_str()) {
                Some(value) => pair.1.equals(value),
                None => false,
            };
            if !same {
                return false;
            }
            i += 1;
        }
        true
    }
}

impl Json {
    /// A copy.
    pub fn duplicate(&self) -> (res: Json)
        ensures
            res@ == self@,
        decreases self,
    {
        match self {
            Json::Null => Json::Null,
            Json::Bool(value) => Json::Bool(*value),
            Json::Number(number) => Json::Number(*number),
            Json::Text(text) => Json::Text(text.clone()),
            Json::Array(items) => {
                let mut copies: Vec<Json> = Vec::new();
                let mut i: usize = 0;
                while i < items.len()
                    invariant
                        i <= items@.len(),
                        copies@.len() == i,
                        *self == Json::Array(*items),
                        forall|k: int| 0 <= k < i ==> (#[trigger] copies@[k])@ == items@[k]@,
                    decreases items@.len() - i,
                {
                    assert(decreases_to!(self => self->Array_0));
                    assert(decreases_to!(items => items@));
                    assert(decreases_to!(items@ => items@[i as int]));
                    copies.push(items[i].duplicate());
                    i += 1;
                }
                let copy: Json = Json::Array(copies);
                proof {
                    assert(copy@->Array_0 =~= self@->Array_0);
                }
                copy
            },
            Json::Object(object) => {
                assert(decreases_to!(self => self->Object_0));
                Json::Object(object.duplicate())
            },
        }
    }

    /// Structural equality.
    pub fn equals(&self, other: &Json) -> (res: bool)
        ensures
            res == json_equal(self@, other@),
        decreases self,
    {
        match (self, other) {
            (Json::Null, Json::Null) => true,
            (Json::Bool(x), Json::Bool(y)) => *x == *y,
            (Json::Number(x), Json::Number(y)) => same_number(*x, *y),
            (Json::Text(x), Json::Text(y)) => same_text(x.as_str(), y.as_str()),
            (Json::Array(x), Json::Array(y)) => {
                let ghost a: Seq<JsonView> = self@->Array_0;
                let ghost b: Seq<JsonView> = other@->Array_0;
                if x.len() != y.len() {
                    return false;
                }
                let mut i: usize = 0;
                while i < x.len()
                    invariant
                        i <= x@.len() == y@.len(),
                        *self == Json::Array(*x),
                        *other == Json::Array(*y),
                        self@ == JsonView::Array(a),
                        other@ == JsonView::Array(b),
                        a.len() == x@.len() == b.len(),
                        forall|k: int| 0 <= k < i ==> json_equal(#[trigger] a[k], b[k]),
                    decreases x@.len() - i,
                {
                    assert(decreases_to!(self => self->Array_0));
                    assert(decreases_to!(x => x@));
                    assert(decreases_to!(x@ => x@[i as int]));
                    assert(a[i as int] == x@[i as int]@ && b[i as int] == y@[i as int]@);
                    if !x[i].equals(&y[i]) {
                        return false;
                    }
                    i += 1;
                }
                true
            },
            (Json::Object(x), Json::Object(y)) => {
                assert(decreases_to!(self => self->Object_0));
                x.equals(y)
            },
            _ => false,
        }
    }
}

/// An array holds what its items hold.
pub proof fn array_holds_items(items: Vec<Json>)
    ensures
        Json::Array(items)@ == JsonView::Array(array_view(items@)),
{
    assert(Json::Array(items)@->Array_0 =~= array_view(items@));
}

/// A copy of every item.
pub fn duplicate_all(items: &Vec<Json>) -> (res: Vec<Json>)
    ensures
        array_view(res@) == array_view(items@),
{
    let mut copies: Vec<Json> = Vec::new();
    let mut i: usize = 0;
    while i < items.len()
        invariant
            i <= items@.len(),
            copies@.len() == i,
            forall|k: int| 0 <= k < i ==> (#[trigger] copies@[k])@ == items@[k]@,
        decreases items@.len() - i,
    {
        copies.push(items[i].duplicate());
        i += 1;
    }
    assert(array_view(copies@) =~= array_view(items@));
    copies
}

/// `a` comes before `b` in the order of their characters.
fn name_before(a: &str, b: &str) -> (res: bool)
    ensures
        res == comes_before(a@, b@),
{
    let x: Vec<char> = char_vec(a);
    let y: Vec<char> = char_vec(b);
    let mut i: usize = 0;
    assert(a@.skip(0) =~= a@ && b@.skip(0) =~= b@);
    while i < x.len() && i < y.len()
        invariant
            i <= x@.len(),
            i <= y@.len(),
            x@ == a@,
            y@ == b@,
            comes_before(a@, b@) == comes_before(a@.skip(i as int), b@.skip(i as int)),
        decreases x@.len() - i,
    {
        if x[i] != y[i] {
            return x[i] < y[i];
        }
        assert(a@.skip(i as int).drop_first() =~= a@.skip(i + 1));
        assert(b@.skip(i as int).drop_first() =~= b@.skip(i + 1));
        i += 1;
    }
    i < y.len()
}

fn is_zero(bits: u64) -> (res: bool)
    ensures
        res == float_is_zero(bits),
{
    bits == 0 || bits == 0x8000_0000_0000_0000
}

fn same_number(a: JsonNumber, b: JsonNumber) -> (res: bool)
    ensures
        res == number_equal(a, b),
{
    match (a, b) {
        (JsonNumber::Unsigned(x), JsonNumber::Unsigned(y)) => x == y,
        (JsonNumber::Negative(x), JsonNumber::Negative(y)) => x == y,
        (JsonNumber::Float(x), JsonNumber::Float(y)) => x == y || (is_zero(x) && is_zero(y)),
        _ => false,
    }
}

/// What was put under a name is found under it, and no other field changes.
pub proof fn lookup_put(fields: Fields, name: Seq<char>, value: JsonView, other: Seq<char>)
    ensures
        lookup(put(fields, name, value), other) == (if other == name {
            Some(value)
        } else {
            lookup(fields, other)
        }),
    decreases fields.len(),
{
    let after = put(fields, name, value);
    if fields.len() == 0 || comes_before(name, fields[0].0) {
        assert(after.drop_first() =~= fields);
    } else if fields[0].0 == name {
        assert(after.drop_first() =~= fields.drop_first());
    } else {
        assert(after.drop_first() =~= put(fields.drop_first(), name, value));
        lookup_put(fields.drop_first(), name, value, other);
    }
}

/// Looking up a name gives the value of the first field that has it, and nothing exactly
/// where no field has it.
pub proof fn the_first_field_is_found(fields: Fields, name: Seq<char>)
    ensures
        match lookup(fields, name) {
            Some(value) => exists|i: int|
                0 <= i < fields.len() && #[trigger] fields[i] == (name, value) && (forall|j: int|
                    0 <= j < i ==> (#[trigger] fields[j]).0 != name),
            None => forall|i: int| 0 <= i < fields.len() ==> (#[trigger] fields[i]).0 != name,
        },
    decreases fields.len(),
{
    if fields.len() > 0 && fields[0].0 != name {
        let rest = fields.drop_first();
        the_first_field_is_found(rest, name);
        match lookup(rest, name) {
            Some(value) => {
                let i = choose|i: int|
                    0 <= i < rest.len() && #[trigger] rest[i] == (name, value) && (forall|j: int|
                        0 <= j < i ==> (#[trigger] rest[j]).0 != name);
                assert(fields[i + 1] == (name, value));
                assert forall|j: int| 0 <= j < i + 1 implies (#[trigger] fields[j]).0 != name by {
                    if j > 0 {
                        assert(rest[j - 1].0 != name);
                    }
                }
            },
            None => {
                assert forall|i: int| 0 <= i < fields.len() implies (#[trigger] fields[i]).0
                    != name by {
                    if i > 0 {
                        assert(rest[i - 1].0 != name);
                    }
                }
            },
        }
    } else if fields.len() > 0 {
        assert(fields[0] == (name, fields[0].1));
    }
}

/// Of pairs that are put in turn, the last under a name stands.
pub proof fn the_last_pair_stands(pairs: Fields, at: int)
    requires
        0 <= at < pairs.len(),
        forall|j: int| at < j < pairs.len() ==> (#[trigger] pairs[j]).0 != pairs[at].0,
    ensures
        lookup(put_all(pairs), pairs[at].0) == Some(pairs[at].1),
    decreases pairs.len(),
{
    let init = pairs.drop_last();
    lookup_put(put_all(init), pairs.last().0, pairs.last().1, pairs[at].0);
    if at < init.len() {
        assert(pairs[pairs.len() - 1].0 != pairs[at].0);
        assert forall|j: int| at < j < init.len() implies (#[trigger] init[j]).0
            != init[at].0 by {
            assert(pairs[j].0 != pairs[at].0);
        }
        the_last_pair_stands(init, at);
    }
}

/// A name under which nothing is put is not found.
pub proof fn nothing_else_is_put(pairs: Fields, name: Seq<char>)
    requires
        forall|j: int| 0 <= j < pairs.len() ==> (#[trigger] pairs[j]).0 != name,
    ensures
        lookup(put_all(pairs), name) is None,
    decreases pairs.len(),
{
    if pairs.len() > 0 {
        let init = pairs.drop_last();
        assert(pairs[pairs.len() - 1].0 != name);
        lookup_put(put_all(init), pairs.last().0, pairs.last().1, name);
        assert forall|j: int| 0 <= j < init.len() implies (#[trigger] init[j]).0 != name by {
            assert(pairs[j].0 != name);
        }
        nothing_else_is_put(init, name);
    }
}

/// Names have one order: of two different ones exactly one comes first.
pub proof fn names_have_one_order(a: Seq<char>, b: Seq<char>)
    ensures
        a == b ==> !comes_before(a, b),
        a != b ==> comes_before(a, b) != comes_before(b, a),
    decreases a.len(),
{
    if a.len() > 0 && b.len() > 0 && a[0] == b[0] {
        names_have_one_order(a.drop_first(), b.drop_first());
        if a.drop_first() == b.drop_first() {
            assert(a =~= seq![a[0]] + a.drop_first());
            assert(b =~= seq![b[0]] + b.drop_first());
        }
    } else if a.len() == 0 && b.len() == 0 {
        assert(a =~= b);
    }
}

/// What comes before a name comes before all that follow it.
pub proof fn names_follow_in_order(a: Seq<char>, b: Seq<char>, c: Seq<char>)
    requires
        comes_before(a, b),
        comes_before(b, c),
    ensures
        comes_before(a, c),
    decreases a.len(),
{
    if a.len() > 0 && a[0] == b[0] && b[0] == c[0] {
        names_follow_in_order(a.drop_first(), b.drop_first(), c.drop_first());
    }
}

/// The fields are in the order of their names, each name once.
pub open spec fn in_order(fields: Fields) -> bool {
    forall|i: int, j: int|
        0 <= i < j < fields.len() ==> comes_before(
            (#[trigger] fields[i]).0,
            (#[trigger] fields[j]).0,
        )
}

/// Putting a value keeps the order of the fields. It adds one field where the name is
/// new and none where it is not.
pub proof fn fields_stay_in_order(fields: Fields, name: Seq<char>, value: JsonView)
    requires
        in_order(fields),
    ensures
        in_order(put(fields, name, value)),
        put(fields, name, value).len() == fields.len() + (if lookup(fields, name) is None {
            1int
        } else {
            0
        }),
        forall|i: int|
            0 <= i < put(fields, name, value).len() ==> (#[trigger] put(fields, name, value)[i]).0
                == name || exists|k: int|
                0 <= k < fields.len() && fields[k] == put(fields, name, value)[i],
    decreases fields.len(),
{
    let after = put(fields, name, value);
    the_first_field_is_found(fields, name);
    if fields.len() == 0 || comes_before(name, fields[0].0) {
        assert(after =~= seq![(name, value)] + fields);
        assert forall|k: int| 0 <= k < fields.len() implies comes_before(
            name,
            (#[trigger] fields[k]).0,
        ) by {
            if k > 0 {
                names_follow_in_order(name, fields[0].0, fields[k].0);
            }
        }
        assert forall|k: int| 0 <= k < fields.len() implies (#[trigger] fields[k]).0 != name by {
            names_have_one_order(name, fields[k].0);
        }
        assert forall|i: int| 0 <= i < after.len() implies (#[trigger] after[i]).0 == name || exists|
            k: int,
        |
            0 <= k < fields.len() && fields[k] == after[i] by {
            if i > 0 {
                assert(fields[i - 1] == after[i]);
            }
        }
        assert forall|i: int, j: int| 0 <= i < j < after.len() implies comes_before(
            (#[trigger] after[i]).0,
            (#[trigger] after[j]).0,
        ) by {
            assert(after[j] == fields[j - 1]);
            if i > 0 {
                assert(after[i] == fields[i - 1]);
            }
        }
    } else {
        let rest = fields.drop_first();
        assert forall|i: int, j: int| 0 <= i < j < rest.len() implies comes_before(
            (#[trigger] rest[i]).0,
            (#[trigger] rest[j]).0,
        ) by {
            assert(rest[i] == fields[i + 1] && rest[j] == fields[j + 1]);
        }
        if fields[0].0 == name {
            assert(after =~= seq![(name, value)] + rest);
            assert forall|i: int, j: int| 0 <= i < j < after.len() implies comes_before(
                (#[trigger] after[i]).0,
                (#[trigger] after[j]).0,
            ) by {
                assert(after[i].0 == fields[i].0 && after[j].0 == fields[j].0);
            }
            assert forall|i: int| 0 <= i < after.len() implies (#[trigger] after[i]).0 == name
                || exists|k: int| 0 <= k < fields.len() && fields[k] == after[i] by {
                if i > 0 {
                    assert(fields[i] == after[i]);
                }
            }
        } else {
            fields_stay_in_order(rest, name, value);
            let later = put(rest, name, value);
            assert(after =~= seq![fields[0]] + later);
            names_have_one_order(name, fields[0].0);
            assert forall|i: int| 0 <= i < after.len() implies (#[trigger] after[i]).0 == name
                || exists|k: int| 0 <= k < fields.len() && fields[k] == after[i] by {
                if i > 0 {
                    assert(later[i - 1] == after[i]);
                    if later[i - 1].0 != name {
                        let k = choose|k: int| 0 <= k < rest.len() && rest[k] == later[i - 1];
                        assert(fields[k + 1] == after[i]);
                    }
                } else {
                    assert(fields[0] == after[i]);
                }
            }
            assert forall|i: int, j: int| 0 <= i < j < after.len() implies comes_before(
                (#[trigger] after[i]).0,
                (#[trigger] after[j]).0,
            ) by {
                assert(after[j] == later[j - 1]);
                if i > 0 {
                    assert(after[i] == later[i - 1]);
                } else if later[j - 1].0 != name {
                    let k = choose|k: int| 0 <= k < rest.len() && rest[k] == later[j - 1];
                    assert(fields[k + 1] == later[j - 1]);
                }
            }
        }
    }
}

/// Pairs that are put in turn stand in order.
pub proof fn put_pairs_are_in_order(pairs: Fields)
    ensures
        in_order(put_all(pairs)),
    decreases pairs.len(),
{
    if pairs.len() > 0 {
        put_pairs_are_in_order(pairs.drop_last());
        fields_stay_in_order(put_all(pairs.drop_last()), pairs.last().0, pairs.last().1);
    }
}

/// Every object in the tree has each name once.
pub open spec fn names_are_unique(tree: JsonView) -> bool
    decreases tree,
{
    match tree {
        JsonView::Array(items) => forall|i: int|
            0 <= i < items.len() ==> names_are_unique(#[trigger] items[i]),
        JsonView::Object(fields) => unique_fields(fields),
        _ => true,
    }
}

/// Each name occurs once among the fields, and so in their values.
pub open spec fn unique_fields(fields: Fields) -> bool
    decreases fields,
{
    &&& forall|i: int| 0 <= i < fields.len() ==> names_are_unique((#[trigger] fields[i]).1)
    &&& forall|i: int, j: int|
        0 <= i < j < fields.len() ==> (#[trigger] fields[i]).0 != (#[trigger] fields[j]).0
}

/// Every value equals itself.
pub proof fn values_equal_themselves(tree: JsonView)
    requires
        names_are_unique(tree),
    ensures
        json_equal(tree, tree),
    decreases tree,
{
    match tree {
        JsonView::Array(items) => {
            assert forall|i: int| 0 <= i < items.len() implies json_equal(
                #[trigger] items[i],
                items[i],
            ) by {
                values_equal_themselves(items[i]);
            }
        },
        JsonView::Object(fields) => {
            fields_equal_themselves(fields);
        },
        _ => {},
    }
}

/// All fields equal themselves.
pub proof fn fields_equal_themselves(fields: Fields)
    requires
        unique_fields(fields),
    ensures
        fields_equal(fields, fields),
    decreases fields,
{
    assert forall|i: int| 0 <= i < fields.len() implies {
        let name = (#[trigger] fields[i]).0;
        lookup(fields, name) is Some && json_equal(fields[i].1, lookup(fields, name)->0)
    } by {
        the_first_field_is_found(fields, fields[i].0);
        let value = lookup(fields, fields[i].0)->0;
        assert(lookup(fields, fields[i].0) is Some);
        let k = choose|k: int|
            0 <= k < fields.len() && #[trigger] fields[k] == (fields[i].0, value) && (forall|j: int|
                0 <= j < k ==> (#[trigger] fields[j]).0 != fields[i].0);
        assert(k == i) by {
            if k < i {
                assert(fields[k].0 != fields[i].0);
            } else if i < k {
                assert(fields[i].0 != fields[k].0);
            }
        }
        assert(names_are_unique(fields[i].1));
        values_equal_themselves(fields[i].1);
    }
}

/// Equal values tell the same: texts, flags and null are equal only to themselves, and
/// equal arrays and objects are of one size with equal members.
pub proof fn equal_values_tell_the_same(a: JsonView, b: JsonView)
    requires
        json_equal(a, b),
    ensures
        a is Null ==> b == a,
        a is Bool ==> b == a,
        a is Text ==> b == a,
        a is Number ==> b is Number && (b == a || (a->Number_0 matches JsonNumber::Float(x)
            && b->Number_0 matches JsonNumber::Float(y) && float_is_zero(x) && float_is_zero(y))),
        a matches JsonView::Array(items) ==> b matches JsonView::Array(others) && items.len()
            == others.len() && (forall|i: int|
            0 <= i < items.len() ==> json_equal(#[trigger] items[i], others[i])),
        a matches JsonView::Object(fields) ==> b matches JsonView::Object(others) && fields.len()
            == others.len() && (forall|i: int|
            0 <= i < fields.len() ==> (lookup(others, (#[trigger] fields[i]).0) matches Some(value)
                && json_equal(fields[i].1, value))),
{
    if let JsonView::Object(fields) = a {
        assert(b is Object);
        let others = b->Object_0;
        assert(fields_equal(fields, others));
        assert forall|i: int| 0 <= i < fields.len() implies (lookup(
            others,
            (#[trigger] fields[i]).0,
        ) matches Some(value) && json_equal(fields[i].1, value)) by {
        }
    }
}

/// Floating numbers are equal where their bits are, and besides only as the two zeros,
/// which have no bit set but that of the sign.
pub proof fn floats_are_equal_by_their_bits(x: u64, y: u64)
    ensures
        number_equal(JsonNumber::Float(x), JsonNumber::Float(y)) <==> x == y || (x << 1 == 0 && y
            << 1 == 0),
        !number_equal(JsonNumber::Float(x), JsonNumber::Unsigned(y)),
        !number_equal(JsonNumber::Unsigned(x), JsonNumber::Float(y)),
        number_equal(JsonNumber::Unsigned(x), JsonNumber::Unsigned(y)) <==> x == y,
{
    assert(x << 1 == 0 <==> x == 0 || x == 0x8000_0000_0000_0000) by (bit_vector);
    assert(y << 1 == 0 <==> y == 0 || y == 0x8000_0000_0000_0000) by (bit_vector);
}

} // verus!
