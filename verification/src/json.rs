use vstd::prelude::*;

use crate::text;

verus! {

// ---------------------------------------------------------------------------
// Values
// ---------------------------------------------------------------------------

/// An integer below zero.
#[derive(Debug)]
pub struct BelowZero {
    n: i64,
}

impl BelowZero {
    #[verifier::type_invariant]
    spec fn is_below(self) -> bool {
        self.n < 0
    }

    /// The integer.
    pub closed spec fn value(self) -> int {
        self.n as int
    }

    /// The integer, if it is below zero.
    pub fn new(n: i64) -> (r: Option<BelowZero>)
        ensures
            match r {
                Some(b) => b.value() == n,
                None => n >= 0,
            },
    {
        if n < 0 {
            Some(BelowZero::of(n))
        } else {
            None
        }
    }

    fn of(n: i64) -> (r: BelowZero)
        requires
            n < 0,
        ensures
            r.value() == n,
    {
        BelowZero { n }
    }

    /// The integer.
    pub fn get(&self) -> (r: i64)
        ensures
            r == self.value(),
            r < 0,
    {
        proof {
            use_type_invariant(self);
        }
        self.n
    }

    fn copy(&self) -> (r: BelowZero)
        ensures
            r.value() == self.value(),
    {
        BelowZero::of(self.get())
    }
}

/// A number with a fraction, an exponent or too many digits.
#[derive(Debug)]
pub struct Fraction {
    n: serde_json::Number,
}

impl Fraction {
    #[verifier::type_invariant]
    spec fn is_proper(self) -> bool {
        is_fraction(self.n)
    }

    /// The number as it was read.
    pub closed spec fn number(self) -> serde_json::Number {
        self.n
    }

    fn new(n: serde_json::Number) -> (r: Fraction)
        requires
            is_fraction(n),
        ensures
            r.number() == n,
    {
        Fraction { n }
    }

    fn get(&self) -> (r: serde_json::Number)
        ensures
            r == self.number(),
            is_fraction(r),
    {
        proof {
            use_type_invariant(self);
        }
        self.n.clone()
    }

    fn copy(&self) -> (r: Fraction)
        ensures
            r.number() == self.number(),
    {
        Fraction::new(self.get())
    }
}

/// A JSON value.
#[derive(Debug)]
pub enum Json {
    Null,
    Bool(bool),
    /// An integer from zero up.
    Unsigned(u64),
    Negative(BelowZero),
    Other(Fraction),
    Text(String),
    Array(Vec<Json>),
    /// The members of an object. Of members with the same name the last one counts.
    Object(Vec<(String, Json)>),
}

/// What a JSON value is: an object is a finite map from names to values.
pub enum JsonView {
    Null,
    Bool(bool),
    Unsigned(nat),
    Negative(int),
    Other(serde_json::Number),
    Text(Seq<char>),
    Array(Seq<JsonView>),
    Object(Map<Seq<char>, JsonView>),
}

pub open spec fn json_view(j: Json) -> JsonView
    decreases j,
{
    match j {
        Json::Null => JsonView::Null,
        Json::Bool(b) => JsonView::Bool(b),
        Json::Unsigned(n) => JsonView::Unsigned(n as nat),
        Json::Negative(b) => JsonView::Negative(b.value()),
        Json::Other(f) => JsonView::Other(f.number()),
        Json::Text(s) => JsonView::Text(s@),
        Json::Array(items) => JsonView::Array(array_view(items@)),
        Json::Object(members) => JsonView::Object(object_view(members@)),
    }
}

pub open spec fn array_view(items: Seq<Json>) -> Seq<JsonView>
    decreases items,
{
    if items.len() == 0 {
        seq![]
    } else {
        array_view(items.drop_last()).push(json_view(items.last()))
    }
}

pub open spec fn object_view(members: Seq<(String, Json)>) -> Map<Seq<char>, JsonView>
    decreases members,
{
    if members.len() == 0 {
        Map::empty()
    } else {
        object_view(members.drop_last()).insert(members.last().0@, json_view(members.last().1))
    }
}

impl View for Json {
    type V = JsonView;

    open spec fn view(&self) -> JsonView {
        json_view(*self)
    }
}

/// The view of a value that may be missing.
pub open spec fn opt(j: Option<Json>) -> Option<JsonView> {
    match j {
        Some(v) => Some(v@),
        None => None,
    }
}

pub proof fn lemma_array_view(items: Seq<Json>)
    ensures
        array_view(items).len() == items.len(),
        forall|i: int| 0 <= i < items.len() ==> #[trigger] array_view(items)[i] == items[i]@,
    decreases items.len(),
{
    if items.len() > 0 {
        lemma_array_view(items.drop_last());
    }
}

// ---------------------------------------------------------------------------
// The outside parser and printer
// ---------------------------------------------------------------------------

/// The value type of `serde_json`.
#[verifier::external_type_specification]
#[verifier::external_body]
pub struct ExValue(serde_json::Value);

/// The number type of `serde_json`.
#[verifier::external_type_specification]
#[verifier::external_body]
pub struct ExNumber(serde_json::Number);

/// `serde_json::Number`'s `clone` returns the same number.
pub assume_specification[ <serde_json::Number as Clone>::clone ](n: &serde_json::Number) -> (r:
    serde_json::Number)
    ensures
        r == *n,
;

/// Whether `serde_json::Number::is_f64` holds of a number, which is then no integer that
/// fits in 64 bits.
pub uninterp spec fn is_fraction(n: serde_json::Number) -> bool;

/// What a `serde_json::Value` holds.
pub uninterp spec fn value_content(v: serde_json::Value) -> JsonView;

/// What `serde_json::from_str` reads in a text: a value, or the text of its error.
pub uninterp spec fn json_parse(text: Seq<char>) -> Result<JsonView, Seq<char>>;

/// The compact text in which `serde_json` prints a value.
pub uninterp spec fn json_text(v: JsonView) -> Seq<char>;

/// Whether a value has integers of 64 bits and no other numbers, and arrays and objects
/// that are nested `n` deep at most.
pub open spec fn is_plain(v: JsonView, n: nat) -> bool
    decreases n,
{
    match v {
        JsonView::Null => true,
        JsonView::Bool(_) => true,
        JsonView::Text(_) => true,
        JsonView::Unsigned(u) => u <= u64::MAX,
        JsonView::Negative(i) => i64::MIN <= i < 0,
        JsonView::Other(_) => false,
        JsonView::Array(items) => n > 0 && forall|k: int|
            0 <= k < items.len() ==> is_plain(#[trigger] items[k], (n - 1) as nat),
        JsonView::Object(members) => n > 0 && forall|name: Seq<char>| #[trigger]
            members.dom().contains(name) ==> is_plain(members[name], (n - 1) as nat),
    }
}

/// Whether the value is what is read in the text.
pub open spec fn reads_as(text: Seq<char>, v: JsonView) -> bool {
    json_parse(text) == Ok::<JsonView, Seq<char>>(v)
}

/// How deep arrays and objects may be nested in a text that is read.
pub const MAX_NESTING: u64 = 127;

/// One level of a `serde_json::Value`.
pub enum JsonNode {
    Null,
    Bool(bool),
    Unsigned(u64),
    Negative(i64),
    Other(serde_json::Number),
    Text(String),
    Array(Vec<serde_json::Value>),
    Object(Vec<(String, serde_json::Value)>),
}

pub open spec fn node_members(members: Seq<(String, serde_json::Value)>) -> Map<Seq<char>, JsonView>
    decreases members.len(),
{
    if members.len() == 0 {
        Map::empty()
    } else {
        node_members(members.drop_last()).insert(
            members.last().0@,
            value_content(members.last().1),
        )
    }
}

pub open spec fn node_view(n: JsonNode) -> JsonView {
    match n {
        JsonNode::Null => JsonView::Null,
        JsonNode::Bool(b) => JsonView::Bool(b),
        JsonNode::Unsigned(u) => JsonView::Unsigned(u as nat),
        JsonNode::Negative(i) => JsonView::Negative(i as int),
        JsonNode::Other(o) => JsonView::Other(o),
        JsonNode::Text(s) => JsonView::Text(s@),
        JsonNode::Array(items) => JsonView::Array(
            items@.map_values(|v: serde_json::Value| value_content(v)),
        ),
        JsonNode::Object(members) => JsonView::Object(node_members(members@)),
    }
}

pub open spec fn distinct_names<T>(members: Seq<(String, T)>) -> bool {
    forall|i: int, j: int|
        0 <= i < j < members.len() ==> (#[trigger] members[i]).0@ != (#[trigger] members[j]).0@
}

/// `serde_json::from_str`: the value that the text denotes, or the error's text.
#[verifier::external_body]
fn parse_value(s: &str) -> (r: Result<serde_json::Value, String>)
    ensures
        match r {
            Ok(v) => json_parse(s@) == Ok::<JsonView, Seq<char>>(value_content(v)),
            Err(e) => json_parse(s@) == Err::<JsonView, Seq<char>>(e@),
        },
{
    serde_json::from_str::<serde_json::Value>(s).map_err(|e| e.to_string())
}

/// `serde_json::Value`'s `to_string`: the compact text of the value. `serde_json::from_str`
/// reads the same value in it, unless there are fractions in it, which may be rounded, or it
/// is nested too deep: of these nothing is said. The text holds no line break, as none is
/// put between items and those in texts are escaped, and that of an object starts with a
/// brace.
#[verifier::external_body]
fn print_value(v: &serde_json::Value) -> (r: String)
    ensures
        r@ == json_text(value_content(*v)),
        is_plain(value_content(*v), MAX_NESTING as nat) ==> reads_as(r@, value_content(*v)),
        text::one_line(r@),
        value_content(*v) is Object ==> r@.len() > 0 && r@[0] == '{',
{
    v.to_string()
}

/// Takes a `serde_json::Value` apart by its variants, and a number by what
/// `serde_json::Number`'s `as_u64` and `as_i64` give. The members of an object have distinct
/// names, as they stand in a `serde_json::Map`.
#[verifier::external_body]
fn open_value(v: serde_json::Value) -> (r: JsonNode)
    ensures
        value_content(v) == node_view(r),
        r matches JsonNode::Negative(i) ==> i < 0,
        r matches JsonNode::Other(x) ==> is_fraction(x),
        r matches JsonNode::Object(members) ==> distinct_names(members@),
{
    match v {
        serde_json::Value::Null => JsonNode::Null,
        serde_json::Value::Bool(b) => JsonNode::Bool(b),
        serde_json::Value::Number(n) => match (n.as_u64(), n.as_i64()) {
            (Some(u), _) => JsonNode::Unsigned(u),
            (None, Some(i)) => JsonNode::Negative(i),
            (None, None) => JsonNode::Other(n),
        },
        serde_json::Value::String(s) => JsonNode::Text(s),
        serde_json::Value::Array(items) => JsonNode::Array(items),
        serde_json::Value::Object(members) => JsonNode::Object(members.into_iter().collect()),
    }
}

/// Puts a `serde_json::Value` together from one level of it.
#[verifier::external_body]
fn close_value(n: JsonNode) -> (r: serde_json::Value)
    requires
        n matches JsonNode::Negative(i) ==> i < 0,
        n matches JsonNode::Other(x) ==> is_fraction(x),
    ensures
        value_content(r) == node_view(n),
{
    match n {
        JsonNode::Null => serde_json::Value::Null,
        JsonNode::Bool(b) => serde_json::Value::Bool(b),
        JsonNode::Unsigned(u) => serde_json::Value::from(u),
        JsonNode::Negative(i) => serde_json::Value::from(i),
        JsonNode::Other(n) => serde_json::Value::Number(n),
        JsonNode::Text(s) => serde_json::Value::String(s),
        JsonNode::Array(items) => serde_json::Value::Array(items),
        JsonNode::Object(members) => serde_json::Value::Object(members.into_iter().collect()),
    }
}

proof fn lemma_node_member(members: Seq<(String, serde_json::Value)>, i: int)
    requires
        distinct_names(members),
        0 <= i < members.len(),
    ensures
        node_members(members).dom().contains(members[i].0@),
        node_members(members)[members[i].0@] == value_content(members[i].1),
    decreases members.len(),
{
    if i < members.len() - 1 {
        let before = members.drop_last();
        assert forall|a: int, b: int| 0 <= a < b < before.len() implies (#[trigger] before[a]).0@ != (
        #[trigger] before[b]).0@ by {
            assert(before[a] == members[a] && before[b] == members[b]);
        }
        lemma_node_member(before, i);
        assert(before[i] == members[i]);
        assert(members[i].0@ != members[members.len() - 1].0@);
    }
}

proof fn lemma_node_members_finite(members: Seq<(String, serde_json::Value)>)
    ensures
        node_members(members).dom().finite(),
    decreases members.len(),
{
    if members.len() > 0 {
        lemma_node_members_finite(members.drop_last());
    }
}

fn json_of(v: serde_json::Value) -> (r: Json)
    ensures
        r@ == value_content(v),
    decreases value_content(v),
{
    match open_value(v) {
        JsonNode::Null => Json::Null,
        JsonNode::Bool(b) => Json::Bool(b),
        JsonNode::Unsigned(u) => Json::Unsigned(u),
        JsonNode::Negative(i) => Json::Negative(BelowZero::of(i)),
        JsonNode::Other(n) => Json::Other(Fraction::new(n)),
        JsonNode::Text(s) => Json::Text(s),
        JsonNode::Array(items) => {
            let ghost all = items@;
            let ghost views = all.map_values(|x: serde_json::Value| value_content(x));
            let mut out: Vec<Json> = Vec::new();
            for item in it: items
                invariant
                    it.seq() == all,
                    views == all.map_values(|x: serde_json::Value| value_content(x)),
                    value_content(v) == JsonView::Array(views),
                    array_view(out@) == views.take(it.index() as int),
            {
                let ghost before = out@;
                let ghost k = it.index() as int;
                assert(item == all[k]);
                assert(views[k] == value_content(item));
                assert(decreases_to!(value_content(v) => value_content(v)->Array_0));
                assert(decreases_to!(views => views[k]));
                let j = json_of(item);
                out.push(j);
                assert(out@.drop_last() =~= before);
                assert(views.take(k + 1) =~= views.take(k).push(views[k]));
            }
            assert(views.take(views.len() as int) =~= views);
            Json::Array(out)
        },
        JsonNode::Object(members) => {
            let ghost all = members@;
            let mut out: Vec<(String, Json)> = Vec::new();
            proof {
                lemma_node_members_finite(all);
            }
            for member in it: members
                invariant
                    it.seq() == all,
                    distinct_names(all),
                    node_members(all).dom().finite(),
                    value_content(v) == JsonView::Object(node_members(all)),
                    object_view(out@) == node_members(all.take(it.index() as int)),
            {
                let ghost before = out@;
                let ghost k = it.index() as int;
                proof {
                    assert(member == all[k]);
                    lemma_node_member(all, k);
                    let content = node_members(all);
                    assert(decreases_to!(value_content(v) => value_content(v)->Object_0));
                    assert(decreases_to!(content => content[member.0@]));
                }
                let (name, inner) = member;
                let j = json_of(inner);
                out.push((name, j));
                assert(out@.drop_last() =~= before);
                assert(all.take(k + 1).drop_last() =~= all.take(k));
            }
            assert(all.take(all.len() as int) =~= all);
            Json::Object(out)
        },
    }
}

fn value_of(j: &Json) -> (r: serde_json::Value)
    ensures
        value_content(r) == j@,
    decreases j,
{
    let node = match j {
        Json::Null => JsonNode::Null,
        Json::Bool(b) => JsonNode::Bool(*b),
        Json::Unsigned(u) => JsonNode::Unsigned(*u),
        Json::Negative(b) => JsonNode::Negative(b.get()),
        Json::Other(f) => JsonNode::Other(f.get()),
        Json::Text(s) => JsonNode::Text(s.clone()),
        Json::Array(items) => {
            let mut out: Vec<serde_json::Value> = Vec::new();
            let mut i: usize = 0;
            proof {
                lemma_array_view(items@);
            }
            while i < items.len()
                invariant
                    i <= items@.len(),
                    out@.len() == i,
                    *j == Json::Array(*items),
                    forall|k: int| 0 <= k < i ==> value_content(#[trigger] out@[k]) == items@[k]@,
                decreases items@.len() - i,
            {
                assert(decreases_to!(*j => j->Array_0));
                assert(decreases_to!(*items => items@));
                assert(decreases_to!(items@ => items@[i as int]));
                out.push(value_of(&items[i]));
                i += 1;
            }
            assert(out@.map_values(|v: serde_json::Value| value_content(v)) =~= array_view(items@));
            JsonNode::Array(out)
        },
        Json::Object(members) => {
            let mut out: Vec<(String, serde_json::Value)> = Vec::new();
            let mut i: usize = 0;
            assert(members@.take(0) =~= seq![]);
            while i < members.len()
                invariant
                    i <= members@.len(),
                    *j == Json::Object(*members),
                    node_members(out@) == object_view(members@.take(i as int)),
                decreases members@.len() - i,
            {
                let ghost before = out@;
                assert(decreases_to!(*j => j->Object_0));
                assert(decreases_to!(*members => members@));
                assert(decreases_to!(members@ => members@[i as int]));
                assert(decreases_to!(members@[i as int] => members@[i as int].1));
                let v = value_of(&members[i].1);
                out.push((members[i].0.clone(), v));
                i += 1;
                assert(out@.drop_last() =~= before);
                assert(members@.take(i as int).drop_last() =~= members@.take(i - 1));
            }
            assert(members@.take(i as int) =~= members@);
            JsonNode::Object(out)
        },
    };
    close_value(node)
}

/// Reads a text as JSON.
pub fn parse(s: &str) -> (r: Result<Json, String>)
    ensures
        match r {
            Ok(j) => json_parse(s@) == Ok::<JsonView, Seq<char>>(j@),
            Err(e) => json_parse(s@) == Err::<JsonView, Seq<char>>(e@),
        },
{
    match parse_value(s) {
        Ok(v) => Ok(json_of(v)),
        Err(e) => Err(e),
    }
}

// ---------------------------------------------------------------------------
// Reading
// ---------------------------------------------------------------------------

/// The member of an object that has the given name.
pub open spec fn field(v: JsonView, name: Seq<char>) -> Option<JsonView> {
    match v {
        JsonView::Object(m) if m.dom().contains(name) => Some(m[name]),
        _ => None,
    }
}

pub open spec fn as_text(v: JsonView) -> Option<Seq<char>> {
    match v {
        JsonView::Text(s) => Some(s),
        _ => None,
    }
}

pub open spec fn as_unsigned(v: JsonView) -> Option<nat> {
    match v {
        JsonView::Unsigned(n) => Some(n),
        _ => None,
    }
}

pub open spec fn as_items(v: JsonView) -> Option<Seq<JsonView>> {
    match v {
        JsonView::Array(items) => Some(items),
        _ => None,
    }
}

/// The text of the member with the given name, if it is one.
pub open spec fn text_field(v: JsonView, name: Seq<char>) -> Option<Seq<char>> {
    match field(v, name) {
        Some(x) => as_text(x),
        None => None,
    }
}

/// The boolean of the member with the given name, if it is one.
pub open spec fn bool_field(v: JsonView, name: Seq<char>) -> Option<bool> {
    match field(v, name) {
        Some(JsonView::Bool(b)) => Some(b),
        _ => None,
    }
}

/// The number of the member with the given name, if it is an integer from zero up.
pub open spec fn unsigned_field(v: JsonView, name: Seq<char>) -> Option<nat> {
    match field(v, name) {
        Some(x) => as_unsigned(x),
        None => None,
    }
}

/// The items of the member with the given name, if it is an array.
pub open spec fn items_field(v: JsonView, name: Seq<char>) -> Option<Seq<JsonView>> {
    match field(v, name) {
        Some(x) => as_items(x),
        None => None,
    }
}

/// A member of a record that is an object, by its name, or an array of `n` items, by its
/// place.
pub open spec fn record_field(v: JsonView, i: int, n: nat, name: Seq<char>) -> Option<JsonView> {
    match v {
        JsonView::Object(_) => field(v, name),
        JsonView::Array(items) if items.len() == n && 0 <= i < n => Some(items[i]),
        _ => None,
    }
}

/// The text of a member of a record.
pub open spec fn record_text(v: JsonView, i: int, n: nat, name: Seq<char>) -> Option<Seq<char>> {
    match record_field(v, i, n, name) {
        Some(x) => as_text(x),
        None => None,
    }
}

/// The text of a member of a record that may be left out or null; nothing at all if it is
/// something else.
pub open spec fn record_optional(v: JsonView, i: int, n: nat, name: Seq<char>) -> Option<
    Option<Seq<char>>,
> {
    match record_field(v, i, n, name) {
        Some(JsonView::Null) => Some(None),
        Some(JsonView::Text(t)) => Some(Some(t)),
        Some(_) => None,
        None => if v is Object {
            Some(None)
        } else {
            None
        },
    }
}

impl JsonView {
    /// The value with the member `name` set to `x`; what is no object stays as it is.
    pub open spec fn with(self, name: Seq<char>, x: JsonView) -> JsonView {
        match self {
            JsonView::Object(m) => JsonView::Object(m.insert(name, x)),
            _ => self,
        }
    }
}

/// The object without members.
pub open spec fn empty_object() -> JsonView {
    JsonView::Object(Map::empty())
}

impl Clone for Json {
    fn clone(&self) -> (r: Json)
        ensures
            r@ == self@,
        decreases self,
    {
        match self {
            Json::Null => Json::Null,
            Json::Bool(b) => Json::Bool(*b),
            Json::Unsigned(u) => Json::Unsigned(*u),
            Json::Negative(b) => Json::Negative(b.copy()),
            Json::Other(f) => Json::Other(f.copy()),
            Json::Text(s) => Json::Text(s.clone()),
            Json::Array(items) => {
                let mut out: Vec<Json> = Vec::new();
                let mut i: usize = 0;
                while i < items.len()
                    invariant
                        i <= items@.len(),
                        *self == Json::Array(*items),
                        array_view(out@) == array_view(items@.take(i as int)),
                    decreases items@.len() - i,
                {
                    let ghost before = out@;
                    assert(decreases_to!(*self => self->Array_0));
                    assert(decreases_to!(*items => items@));
                    assert(decreases_to!(items@ => items@[i as int]));
                    out.push(items[i].clone());
                    i += 1;
                    assert(out@.drop_last() =~= before);
                    assert(items@.take(i as int).drop_last() =~= items@.take(i - 1));
                }
                assert(items@.take(i as int) =~= items@);
                Json::Array(out)
            },
            Json::Object(members) => {
                let mut out: Vec<(String, Json)> = Vec::new();
                let mut i: usize = 0;
                while i < members.len()
                    invariant
                        i <= members@.len(),
                        *self == Json::Object(*members),
                        object_view(out@) == object_view(members@.take(i as int)),
                    decreases members@.len() - i,
                {
                    let ghost before = out@;
                    assert(decreases_to!(*self => self->Object_0));
                    assert(decreases_to!(*members => members@));
                    assert(decreases_to!(members@ => members@[i as int]));
                    assert(decreases_to!(members@[i as int] => members@[i as int].1));
                    let inner = members[i].1.clone();
                    out.push((members[i].0.clone(), inner));
                    i += 1;
                    assert(out@.drop_last() =~= before);
                    assert(members@.take(i as int).drop_last() =~= members@.take(i - 1));
                }
                assert(members@.take(i as int) =~= members@);
                Json::Object(out)
            },
        }
    }
}

impl Json {
    /// The compact text of the value, which is one line. A plain value is read back from
    /// its text.
    pub fn to_text(&self) -> (r: String)
        ensures
            r@ == json_text(self@),
            is_plain(self@, MAX_NESTING as nat) ==> reads_as(r@, self@),
            text::one_line(r@),
            self@ is Object ==> r@.len() > 0 && r@[0] == '{',
    {
        let v = value_of(self);
        print_value(&v)
    }

    /// The member of an object that has the given name.
    pub fn get(&self, name: &str) -> (r: Option<&Json>)
        ensures
            match r {
                Some(j) => field(self@, name@) == Some(j@),
                None => field(self@, name@) is None,
            },
    {
        match self {
            Json::Object(members) => {
                let mut i: usize = members.len();
                assert(members@.take(i as int) =~= members@);
                while i > 0
                    invariant
                        i <= members@.len(),
                        self@ == JsonView::Object(object_view(members@)),
                        object_view(members@.take(i as int)).dom().contains(name@)
                            == object_view(members@).dom().contains(name@),
                        object_view(members@.take(i as int)).dom().contains(name@)
                            ==> object_view(members@.take(i as int))[name@]
                            == object_view(members@)[name@],
                    decreases i,
                {
                    let ghost seen = members@.take(i as int);
                    assert(seen.drop_last() =~= members@.take(i - 1));
                    assert(seen.last() == members@[i - 1]);
                    i -= 1;
                    if text::same(members[i].0.as_str(), name) {
                        return Some(&members[i].1);
                    }
                }
                assert(members@.take(0) =~= seq![]);
                None
            },
            _ => None,
        }
    }

    pub fn as_str(&self) -> (r: Option<&str>)
        ensures
            match r {
                Some(s) => as_text(self@) == Some(s@),
                None => as_text(self@) is None,
            },
    {
        match self {
            Json::Text(s) => Some(s.as_str()),
            _ => None,
        }
    }

    pub fn as_u64(&self) -> (r: Option<u64>)
        ensures
            match r {
                Some(n) => as_unsigned(self@) == Some(n as nat),
                None => as_unsigned(self@) is None,
            },
    {
        match self {
            Json::Unsigned(n) => Some(*n),
            _ => None,
        }
    }

    pub fn as_array(&self) -> (r: Option<&Vec<Json>>)
        ensures
            match r {
                Some(items) => as_items(self@) == Some(array_view(items@)),
                None => as_items(self@) is None,
            },
    {
        match self {
            Json::Array(items) => Some(items),
            _ => None,
        }
    }

    /// The text of the member with the given name.
    pub fn get_str(&self, name: &str) -> (r: Option<&str>)
        ensures
            match r {
                Some(s) => text_field(self@, name@) == Some(s@),
                None => text_field(self@, name@) is None,
            },
    {
        match self.get(name) {
            Some(j) => j.as_str(),
            None => None,
        }
    }

    /// The text of the member with the given name, as a string of its own.
    pub fn get_string(&self, name: &str) -> (r: Option<String>)
        ensures
            match r {
                Some(s) => text_field(self@, name@) == Some(s@),
                None => text_field(self@, name@) is None,
            },
    {
        match self.get_str(name) {
            Some(s) => Some(s.to_string()),
            None => None,
        }
    }

    /// The boolean of the member with the given name.
    pub fn get_bool(&self, name: &str) -> (r: Option<bool>)
        ensures
            r == bool_field(self@, name@),
    {
        match self.get(name) {
            Some(Json::Bool(b)) => Some(*b),
            _ => None,
        }
    }

    /// The number of the member with the given name.
    pub fn get_u64(&self, name: &str) -> (r: Option<u64>)
        ensures
            match r {
                Some(n) => unsigned_field(self@, name@) == Some(n as nat),
                None => unsigned_field(self@, name@) is None,
            },
    {
        match self.get(name) {
            Some(j) => j.as_u64(),
            None => None,
        }
    }

    /// The items of the member with the given name.
    pub fn get_array(&self, name: &str) -> (r: Option<&Vec<Json>>)
        ensures
            match r {
                Some(items) => items_field(self@, name@) == Some(array_view(items@)),
                None => items_field(self@, name@) is None,
            },
    {
        match self.get(name) {
            Some(j) => j.as_array(),
            None => None,
        }
    }

    /// A member of a record, by its name or its place.
    pub fn record_member(&self, i: usize, n: usize, name: &str) -> (r: Option<&Json>)
        ensures
            match r {
                Some(j) => record_field(self@, i as int, n as nat, name@) == Some(j@),
                None => record_field(self@, i as int, n as nat, name@) is None,
            },
    {
        match self {
            Json::Object(_) => self.get(name),
            Json::Array(items) => {
                proof {
                    lemma_array_view(items@);
                }
                if items.len() == n && i < n {
                    Some(&items[i])
                } else {
                    None
                }
            },
            _ => None,
        }
    }

    /// The text of a member of a record.
    pub fn record_string(&self, i: usize, n: usize, name: &str) -> (r: Option<String>)
        ensures
            text::opt(r) == record_text(self@, i as int, n as nat, name@),
    {
        match self.record_member(i, n, name) {
            Some(Json::Text(s)) => Some(s.clone()),
            _ => None,
        }
    }

    /// The text of a member of a record that may be left out or null.
    pub fn record_optional_string(&self, i: usize, n: usize, name: &str) -> (r: Option<
        Option<String>,
    >)
        ensures
            match r {
                Some(o) => record_optional(self@, i as int, n as nat, name@) == Some(text::opt(o)),
                None => record_optional(self@, i as int, n as nat, name@) is None,
            },
    {
        match self.record_member(i, n, name) {
            Some(Json::Null) => Some(None),
            Some(Json::Text(s)) => Some(Some(s.clone())),
            Some(_) => None,
            None => match self {
                Json::Object(_) => Some(None),
                _ => None,
            },
        }
    }

    // -----------------------------------------------------------------------
    // Building
    // -----------------------------------------------------------------------

    /// A text value.
    pub fn text(s: &str) -> (r: Json)
        ensures
            r@ == JsonView::Text(s@),
    {
        Json::Text(s.to_string())
    }

    /// The object without members.
    pub fn object() -> (r: Json)
        ensures
            r@ == empty_object(),
    {
        let members: Vec<(String, Json)> = Vec::new();
        Json::Object(members)
    }

    /// The object with the member `name` set to `x`.
    pub fn with(self, name: &str, x: Json) -> (r: Json)
        ensures
            r@ == self@.with(name@, x@),
    {
        match self {
            Json::Object(members) => {
                let mut members = members;
                let ghost before = members@;
                members.push((name.to_string(), x));
                assert(members@.drop_last() =~= before);
                Json::Object(members)
            },
            other => other,
        }
    }
}

/// A text, or null.
pub open spec fn text_or_null(s: Option<Seq<char>>) -> JsonView {
    match s {
        Some(t) => JsonView::Text(t),
        None => JsonView::Null,
    }
}

/// A text, or null.
pub fn optional_text(s: &Option<String>) -> (r: Json)
    ensures
        r@ == text_or_null(text::opt(*s)),
{
    match s {
        Some(t) => Json::text(t.as_str()),
        None => Json::Null,
    }
}

/// The array without items.
pub fn no_items() -> (r: Vec<Json>)
    ensures
        array_view(r@) == Seq::<JsonView>::empty(),
{
    let r: Vec<Json> = Vec::new();
    assert(array_view(r@) =~= Seq::<JsonView>::empty());
    r
}

/// Appends an item.
pub fn push_item(items: &mut Vec<Json>, x: Json)
    ensures
        array_view(final(items)@) == array_view(old(items)@).push(x@),
{
    let ghost before = items@;
    let ghost added = x@;
    items.push(x);
    proof {
        lemma_array_view(before);
        lemma_array_view(items@);
    }
    assert(array_view(items@) =~= array_view(before).push(added));
}

/// A copy of the items.
pub fn copy_items(items: &Vec<Json>) -> (r: Vec<Json>)
    ensures
        array_view(r@) == array_view(items@),
{
    let ghost all = array_view(items@);
    proof {
        lemma_array_view(items@);
    }
    let mut r = no_items();
    let mut i: usize = 0;
    assert(all.take(0) =~= seq![]);
    while i < items.len()
        invariant
            i <= items@.len(),
            all == array_view(items@),
            all.len() == items@.len(),
            forall|k: int| 0 <= k < items@.len() ==> #[trigger] all[k] == items@[k]@,
            array_view(r@) == all.take(i as int),
        decreases items@.len() - i,
    {
        push_item(&mut r, items[i].clone());
        assert(all.take(i + 1) =~= all.take(i as int).push(all[i as int]));
        i += 1;
    }
    assert(all.take(i as int) =~= all);
    r
}

/// Appends copies of the items.
pub fn push_items(items: &mut Vec<Json>, added: &Vec<Json>)
    ensures
        array_view(final(items)@) == array_view(old(items)@) + array_view(added@),
{
    let ghost first = array_view(items@);
    let ghost all = array_view(added@);
    proof {
        lemma_array_view(added@);
    }
    let mut i: usize = 0;
    assert(first + all.take(0) =~= first);
    while i < added.len()
        invariant
            i <= added@.len(),
            all == array_view(added@),
            all.len() == added@.len(),
            forall|k: int| 0 <= k < added@.len() ==> #[trigger] all[k] == added@[k]@,
            array_view(items@) == first + all.take(i as int),
        decreases added@.len() - i,
    {
        push_item(items, added[i].clone());
        assert(first + all.take(i + 1) =~= (first + all.take(i as int)).push(all[i as int]));
        i += 1;
    }
    assert(all.take(i as int) =~= all);
}

/// A member that is a number.
pub open spec fn number_field(v: JsonView, name: Seq<char>) -> Option<JsonView> {
    match field(v, name) {
        Some(JsonView::Unsigned(n)) => Some(JsonView::Unsigned(n)),
        Some(JsonView::Negative(n)) => Some(JsonView::Negative(n)),
        Some(JsonView::Other(n)) => Some(JsonView::Other(n)),
        _ => None,
    }
}

/// A member of a member.
pub open spec fn inner_field(v: JsonView, outer: Seq<char>, name: Seq<char>) -> Option<JsonView> {
    match field(v, outer) {
        Some(o) => field(o, name),
        None => None,
    }
}

/// A text in a member of a member.
pub open spec fn inner_text(v: JsonView, outer: Seq<char>, name: Seq<char>) -> Option<Seq<char>> {
    match field(v, outer) {
        Some(o) => text_field(o, name),
        None => None,
    }
}

/// A member as it is, or null.
pub open spec fn field_or_null(v: JsonView, name: Seq<char>) -> JsonView {
    match field(v, name) {
        Some(x) => x,
        None => JsonView::Null,
    }
}

impl Json {
    /// The member, if it is a number.
    pub fn get_number(&self, name: &str) -> (r: Option<Json>)
        ensures
            opt(r) == number_field(self@, name@),
    {
        match self.get(name) {
            Some(Json::Unsigned(n)) => Some(Json::Unsigned(*n)),
            Some(Json::Negative(b)) => Some(Json::Negative(b.copy())),
            Some(Json::Other(f)) => Some(Json::Other(f.copy())),
            _ => None,
        }
    }

    /// The member of a member.
    pub fn get_inner(&self, outer: &str, name: &str) -> (r: Option<&Json>)
        ensures
            match r {
                Some(j) => inner_field(self@, outer@, name@) == Some(j@),
                None => inner_field(self@, outer@, name@) is None,
            },
    {
        match self.get(outer) {
            Some(o) => o.get(name),
            None => None,
        }
    }

    /// The text in a member of a member.
    pub fn get_inner_str(&self, outer: &str, name: &str) -> (r: Option<&str>)
        ensures
            match r {
                Some(s) => inner_text(self@, outer@, name@) == Some(s@),
                None => inner_text(self@, outer@, name@) is None,
            },
    {
        match self.get(outer) {
            Some(o) => o.get_str(name),
            None => None,
        }
    }

    /// The member as it is, or null.
    pub fn get_or_null(&self, name: &str) -> (r: Json)
        ensures
            r@ == field_or_null(self@, name@),
    {
        match self.get(name) {
            Some(x) => x.clone(),
            None => Json::Null,
        }
    }
}

// ---------------------------------------------------------------------------
// What an object holds
// ---------------------------------------------------------------------------

/// What is put in an object under a name is found there under it, and what stands under
/// other names stays; nothing is found in what is no object, nor in an empty one.
pub proof fn what_is_put_under_a_name_is_found(
    v: JsonView,
    name: Seq<char>,
    x: JsonView,
    other: Seq<char>,
)
    ensures
        v is Object ==> v.with(name, x) is Object && field(v.with(name, x), name) == Some(x),
        v is Object && other != name ==> field(v.with(name, x), other) == field(v, other),
        v !is Object ==> field(v, name) is None && v.with(name, x) == v,
        empty_object() is Object && field(empty_object(), name) is None,
{
}

/// A member is read as what it is: a text as a text, a truth value as one, and nothing else
/// as either.
pub proof fn members_are_read_as_what_they_are(
    v: JsonView,
    name: Seq<char>,
    s: Seq<char>,
    b: bool,
    n: nat,
)
    ensures
        field(v, name) == Some(JsonView::Text(s)) ==> text_field(v, name) == Some(s) && bool_field(
            v,
            name,
        ) is None && number_field(v, name) is None,
        field(v, name) == Some(JsonView::Bool(b)) ==> bool_field(v, name) == Some(b) && text_field(
            v,
            name,
        ) is None && number_field(v, name) is None,
        field(v, name) == Some(JsonView::Unsigned(n)) ==> number_field(v, name) == Some(
            JsonView::Unsigned(n),
        ) && text_field(v, name) is None && bool_field(v, name) is None,
        field(v, name) is None ==> text_field(v, name) is None && bool_field(v, name) is None
            && number_field(v, name) is None,
{
}

} // verus!
