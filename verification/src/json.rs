//! JSON values as plain data: the event payloads, function outputs and branch
//! conditions that the routing logic reads.

use crate::text::{chars_of, str_lt};
use vstd::prelude::*;

verus! {

/// A JSON number as `serde_json` keeps it: a non-negative integer, a negative integer,
/// or a floating-point number held as the text `serde_json` prints for it.
#[derive(Debug, PartialEq, Eq)]
pub enum JsonNumber {
    PosInt(u64),
    NegInt(i64),
    Float(String),
}

/// A JSON value. Object fields are kept sorted by key with no key twice, the order in
/// which `serde_json` keeps them.
#[derive(Debug, PartialEq, Eq)]
pub enum JsonValue {
    Null,
    Bool(bool),
    Number(JsonNumber),
    String(String),
    Array(Vec<JsonValue>),
    Object(Vec<(String, JsonValue)>),
}

pub enum NumberView {
    PosInt(u64),
    NegInt(i64),
    Float(Seq<char>),
}

pub enum JsonView {
    Null,
    Bool(bool),
    Number(NumberView),
    Str(Seq<char>),
    Array(Seq<JsonView>),
    Object(Seq<(Seq<char>, JsonView)>),
}

impl View for JsonNumber {
    type V = NumberView;

    open spec fn view(&self) -> NumberView {
        match self {
            JsonNumber::PosInt(n) => NumberView::PosInt(*n),
            JsonNumber::NegInt(n) => NumberView::NegInt(*n),
            JsonNumber::Float(t) => NumberView::Float(t@),
        }
    }
}

pub open spec fn json_view(v: JsonValue) -> JsonView
    decreases v,
{
    match v {
        JsonValue::Null => JsonView::Null,
        JsonValue::Bool(b) => JsonView::Bool(b),
        JsonValue::Number(n) => JsonView::Number(n@),
        JsonValue::String(s) => JsonView::Str(s@),
        JsonValue::Array(items) => JsonView::Array(
            Seq::new(
                items@.len(),
                |i: int|
                    if 0 <= i < items@.len() {
                        json_view(items@[i])
                    } else {
                        JsonView::Null
                    },
            ),
        ),
        JsonValue::Object(fields) => JsonView::Object(
            Seq::new(
                fields@.len(),
                |i: int|
                    if 0 <= i < fields@.len() {
                        (fields@[i].0@, json_view(fields@[i].1))
                    } else {
                        (Seq::empty(), JsonView::Null)
                    },
            ),
        ),
    }
}

impl View for JsonValue {
    type V = JsonView;

    open spec fn view(&self) -> JsonView {
        json_view(*self)
    }
}


/// Float texts that `serde_json` prints for the two zeros, which compare equal.
pub open spec fn is_zero_text(t: Seq<char>) -> bool {
    t == "0.0"@ || t == "-0.0"@
}

/// `serde_json::Number` equality: same representation and same value.
pub open spec fn number_eq(a: NumberView, b: NumberView) -> bool {
    match (a, b) {
        (NumberView::PosInt(x), NumberView::PosInt(y)) => x == y,
        (NumberView::NegInt(x), NumberView::NegInt(y)) => x == y,
        (NumberView::Float(x), NumberView::Float(y)) => x == y || (is_zero_text(x) && is_zero_text(y)),
        _ => false,
    }
}

/// `serde_json::Value` equality on well-formed values.
pub open spec fn json_eq(a: JsonView, b: JsonView) -> bool
    decreases a,
{
    match (a, b) {
        (JsonView::Null, JsonView::Null) => true,
        (JsonView::Bool(x), JsonView::Bool(y)) => x == y,
        (JsonView::Number(x), JsonView::Number(y)) => number_eq(x, y),
        (JsonView::Str(x), JsonView::Str(y)) => x == y,
        (JsonView::Array(xs), JsonView::Array(ys)) => xs.len() == ys.len() && forall|i: int|
            0 <= i < xs.len() ==> json_eq(#[trigger] xs[i], ys[i]),
        (JsonView::Object(xs), JsonView::Object(ys)) => xs.len() == ys.len() && forall|i: int|
            0 <= i < xs.len() ==> (#[trigger] xs[i]).0 == ys[i].0 && json_eq(xs[i].1, ys[i].1),
        _ => false,
    }
}

/// Object fields sorted by key with no key twice, in every nested object.
pub open spec fn json_wf(v: JsonView) -> bool
    decreases v,
{
    match v {
        JsonView::Array(xs) => forall|i: int| 0 <= i < xs.len() ==> json_wf(#[trigger] xs[i]),
        JsonView::Object(fs) => (forall|i: int, j: int|
            0 <= i < j < fs.len() ==> str_lt(#[trigger] fs[i].0, #[trigger] fs[j].0)) && (forall|i: int|
            0 <= i < fs.len() ==> json_wf(#[trigger] fs[i].1)),
        _ => true,
    }
}

/// `i` is the first field of `fs` named `k`.
pub open spec fn first_field_at(fs: Seq<(Seq<char>, JsonView)>, k: Seq<char>, i: int) -> bool {
    0 <= i < fs.len() && fs[i].0 == k && forall|j: int| 0 <= j < i ==> fs[j].0 != k
}

/// `Value::get` with a string key: the field of an object, nothing for other values.
pub open spec fn json_get(v: JsonView, k: Seq<char>) -> Option<JsonView> {
    match v {
        JsonView::Object(fs) => if exists|i: int| first_field_at(fs, k, i) {
            Some(fs[choose|i: int| first_field_at(fs, k, i)].1)
        } else {
            None
        },
        _ => None,
    }
}

proof fn lemma_json_get_at(fs: Seq<(Seq<char>, JsonView)>, k: Seq<char>, i: int)
    requires
        first_field_at(fs, k, i),
    ensures
        json_get(JsonView::Object(fs), k) == Some(fs[i].1),
{
    let c = choose|c: int| first_field_at(fs, k, c);
    assert(c == i) by {
        if c < i {
            assert(fs[c].0 != k);
        } else if i < c {
            assert(fs[i].0 != k);
        }
    }
}

/// `Value::as_str`.
pub open spec fn json_as_str(v: JsonView) -> Option<Seq<char>> {
    match v {
        JsonView::Str(s) => Some(s),
        _ => None,
    }
}

/// What `serde_json` prints for a value (compact form, the value's `to_string()`).
pub uninterp spec fn json_compact_text(v: JsonView) -> Seq<char>;

#[verifier::external_type_specification]
#[verifier::external_body]
pub struct ExSerdeJsonValue(serde_json::Value);

/// The `serde_json::Value` that a `JsonValue` stands for.
#[verifier::external_body]
fn to_serde(v: &JsonValue) -> serde_json::Value {
    match v {
        JsonValue::Null => serde_json::Value::Null,
        JsonValue::Bool(b) => serde_json::Value::Bool(*b),
        JsonValue::Number(JsonNumber::PosInt(n)) => serde_json::Value::from(*n),
        JsonValue::Number(JsonNumber::NegInt(n)) => serde_json::Value::from(*n),
        JsonValue::Number(JsonNumber::Float(t)) => serde_json::from_str(t).unwrap_or(serde_json::Value::Null),
        JsonValue::String(s) => serde_json::Value::String(s.clone()),
        JsonValue::Array(xs) => serde_json::Value::Array(xs.iter().map(to_serde).collect()),
        JsonValue::Object(fs) => serde_json::Value::Object(fs.iter().map(|(k, x)| (k.clone(), to_serde(x))).collect()),
    }
}

/// `serde_json::Value::to_string`: the compact JSON text of the value.
#[verifier::external_body]
pub(crate) fn compact_text(v: &JsonValue) -> (r: String)
    ensures
        r@ == json_compact_text(v@),
{
    to_serde(v).to_string()
}

/// The `JsonNumber` that a numeric `serde_json::Value` stands for.
#[verifier::external_body]
fn number_from_serde(n: &serde_json::Value) -> JsonNumber {
    match (n.as_u64(), n.as_i64()) {
        (Some(u), _) => JsonNumber::PosInt(u),
        (None, Some(i)) => JsonNumber::NegInt(i),
        _ => JsonNumber::Float(n.to_string()),
    }
}

/// The `JsonValue` that a `serde_json::Value` stands for.
#[verifier::external_body]
fn from_serde(v: &serde_json::Value) -> JsonValue {
    match v {
        serde_json::Value::Null => JsonValue::Null,
        serde_json::Value::Bool(b) => JsonValue::Bool(*b),
        serde_json::Value::Number(_) => JsonValue::Number(number_from_serde(v)),
        serde_json::Value::String(s) => JsonValue::String(s.clone()),
        serde_json::Value::Array(xs) => JsonValue::Array(xs.iter().map(from_serde).collect()),
        serde_json::Value::Object(fs) => JsonValue::Object(fs.iter().map(|(k, x)| (k.clone(), from_serde(x))).collect()),
    }
}

/// A parse result with the value and the error text by their views.
pub open spec fn parsed_view(r: Result<JsonValue, String>) -> Result<JsonView, Seq<char>> {
    match r {
        Ok(v) => Ok(v@),
        Err(m) => Err(m@),
    }
}

/// A result of texts by their characters.
pub open spec fn text_result(r: Result<String, String>) -> Result<Seq<char>, Seq<char>> {
    match r {
        Ok(v) => Ok(v@),
        Err(m) => Err(m@),
    }
}

/// What `serde_json::from_str` gives for a text: the value it reads, or its error's text.
pub uninterp spec fn json_from_text(text: Seq<char>) -> Result<JsonView, Seq<char>>;

/// What `serde_json::from_slice` gives for bytes: the value it reads, or its error's text.
pub uninterp spec fn json_from_bytes(bytes: Seq<u8>) -> Result<JsonView, Seq<char>>;

/// `serde_json::from_str::<Value>`: the value the text holds, or the error's text.
#[verifier::external_body]
pub(crate) fn parse_json_text(text: &str) -> (r: Result<JsonValue, String>)
    ensures
        parsed_view(r) == json_from_text(text@),
{
    match serde_json::from_str::<serde_json::Value>(text) {
        Ok(v) => Ok(from_serde(&v)),
        Err(e) => Err(e.to_string()),
    }
}

/// `serde_json::from_slice::<Value>`: the value the bytes hold, or the error's text.
#[verifier::external_body]
pub(crate) fn parse_json_bytes(bytes: &[u8]) -> (r: Result<JsonValue, String>)
    ensures
        parsed_view(r) == json_from_bytes(bytes@),
{
    match serde_json::from_slice::<serde_json::Value>(bytes) {
        Ok(v) => Ok(from_serde(&v)),
        Err(e) => Err(e.to_string()),
    }
}

impl JsonValue {
    /// `Value::as_str`: the text of a string value.
    pub fn as_str(&self) -> (r: Option<&String>)
        ensures
            r.is_some() == json_as_str(self@).is_some(),
            r.is_some() ==> r.unwrap()@ == json_as_str(self@).unwrap(),
    {
        match self {
            JsonValue::String(s) => Some(s),
            _ => None,
        }
    }

    /// `Value::get` with a string key: the field of an object named `key`.
    pub fn get(&self, key: &str) -> (r: Option<&JsonValue>)
        ensures
            r.is_some() == json_get(self@, key@).is_some(),
            r.is_some() ==> r.unwrap()@ == json_get(self@, key@).unwrap(),
    {
        let k = chars_of(key);
        self.get_chars(&k)
    }

    /// `get` with the key given as characters.
    pub fn get_chars(&self, k: &Vec<char>) -> (r: Option<&JsonValue>)
        ensures
            r.is_some() == json_get(self@, k@).is_some(),
            r.is_some() ==> r.unwrap()@ == json_get(self@, k@).unwrap(),
    {
        let ghost key = k@;
        match self {
            JsonValue::Object(fs) => {
                let ghost fv = match self@ {
                    JsonView::Object(x) => x,
                    _ => Seq::empty(),
                };
                assert(self@ == JsonView::Object(fv));
                assert forall|j: int| 0 <= j < fs@.len() implies #[trigger] fv[j] == (
                    fs@[j].0@,
                    json_view(fs@[j].1),
                ) by {}
                let mut i: usize = 0;
                while i < fs.len()
                    invariant
                        i <= fs@.len(),
                        k@ == key,
                        fv.len() == fs@.len(),
                        self@ == JsonView::Object(fv),
                        forall|j: int| 0 <= j < fs@.len() ==> #[trigger] fv[j] == (fs@[j].0@, json_view(fs@[j].1)),
                        forall|j: int| 0 <= j < i ==> (#[trigger] fv[j]).0 != key,
                    decreases fs@.len() - i,
                {
                    let name = chars_of(fs[i].0.as_str());
                    if crate::text::chars_equal(&name, k) {
                        proof {
                            assert(fv[i as int] == (fs@[i as int].0@, json_view(fs@[i as int].1)));
                            assert(fv[i as int].0 == key);
                            lemma_json_get_at(fv, key, i as int);
                            assert(json_get(self@, key) == Some(fv[i as int].1));
                        }
                        return Some(&fs[i].1);
                    }
                    assert(fv[i as int].0 != key);
                    i = i + 1;
                }
                None
            },
            _ => None,
        }
    }
}

/// `serde_json::Value` equality (well-formed values).
pub fn json_equal(a: &JsonValue, b: &JsonValue) -> (r: bool)
    ensures
        r == json_eq(a@, b@),
    decreases a,
{
    match (a, b) {
        (JsonValue::Null, JsonValue::Null) => true,
        (JsonValue::Bool(x), JsonValue::Bool(y)) => *x == *y,
        (JsonValue::Number(x), JsonValue::Number(y)) => number_equal(x, y),
        (JsonValue::String(x), JsonValue::String(y)) => *x == *y,
        (JsonValue::Array(xs), JsonValue::Array(ys)) => {
            if xs.len() != ys.len() {
                return false;
            }
            let ghost av = a@;
            let ghost bv = b@;
            let mut i: usize = 0;
            while i < xs.len()
                invariant
                    i <= xs@.len(),
                    xs@.len() == ys@.len(),
                    av == a@,
                    bv == b@,
                    *a == JsonValue::Array(*xs),
                    *b == JsonValue::Array(*ys),
                    forall|j: int| 0 <= j < i ==> json_eq(json_view(#[trigger] xs@[j]), json_view(ys@[j])),
                decreases xs@.len() - i,
            {
                if !json_equal(&xs[i], &ys[i]) {
                    proof {
                        if let JsonView::Array(xv) = av {
                            assert(xv[i as int] == json_view(xs@[i as int]));
                        }
                    }
                    return false;
                }
                i = i + 1;
            }
            proof {
                if let (JsonView::Array(xv), JsonView::Array(yv)) = (av, bv) {
                    assert forall|j: int| 0 <= j < xv.len() implies json_eq(#[trigger] xv[j], yv[j]) by {
                        assert(xv[j] == json_view(xs@[j]));
                        assert(yv[j] == json_view(ys@[j]));
                    }
                }
            }
            true
        },
        (JsonValue::Object(xs), JsonValue::Object(ys)) => {
            if xs.len() != ys.len() {
                return false;
            }
            let ghost av = a@;
            let ghost bv = b@;
            let mut i: usize = 0;
            while i < xs.len()
                invariant
                    i <= xs@.len(),
                    xs@.len() == ys@.len(),
                    av == a@,
                    bv == b@,
                    *a == JsonValue::Object(*xs),
                    *b == JsonValue::Object(*ys),
                    forall|j: int|
                        0 <= j < i ==> (#[trigger] xs@[j]).0@ == ys@[j].0@ && json_eq(
                            json_view(xs@[j].1),
                            json_view(ys@[j].1),
                        ),
                decreases xs@.len() - i,
            {
                if xs[i].0 != ys[i].0 || !json_equal(&xs[i].1, &ys[i].1) {
                    proof {
                        if let JsonView::Object(xv) = av {
                            assert(xv[i as int] == (xs@[i as int].0@, json_view(xs@[i as int].1)));
                        }
                        if let JsonView::Object(yv) = bv {
                            assert(yv[i as int] == (ys@[i as int].0@, json_view(ys@[i as int].1)));
                        }
                    }
                    return false;
                }
                i = i + 1;
            }
            proof {
                if let (JsonView::Object(xv), JsonView::Object(yv)) = (av, bv) {
                    assert forall|j: int| 0 <= j < xv.len() implies (#[trigger] xv[j]).0 == yv[j].0
                        && json_eq(xv[j].1, yv[j].1) by {
                        assert(xv[j] == (xs@[j].0@, json_view(xs@[j].1)));
                        assert(yv[j] == (ys@[j].0@, json_view(ys@[j].1)));
                    }
                }
            }
            true
        },
        _ => false,
    }
}

fn number_equal(a: &JsonNumber, b: &JsonNumber) -> (r: bool)
    ensures
        r == number_eq(a@, b@),
{
    match (a, b) {
        (JsonNumber::PosInt(x), JsonNumber::PosInt(y)) => *x == *y,
        (JsonNumber::NegInt(x), JsonNumber::NegInt(y)) => *x == *y,
        (JsonNumber::Float(x), JsonNumber::Float(y)) => {
            if *x == *y {
                return true;
            }
            is_zero_float_text(x) && is_zero_float_text(y)
        },
        _ => false,
    }
}

fn is_zero_float_text(t: &String) -> (r: bool)
    ensures
        r == is_zero_text(t@),
{
    let zero = crate::text::owned("0.0");
    let negative_zero = crate::text::owned("-0.0");
    *t == zero || *t == negative_zero
}


/// The pieces of `s` between dots, as `str::split('.')` yields them.
pub open spec fn split_dots(s: Seq<char>) -> Seq<Seq<char>>
    decreases s.len(),
{
    if s.len() == 0 {
        seq![Seq::empty()]
    } else {
        let r = split_dots(s.drop_last());
        if s.last() == '.' {
            r.push(Seq::empty())
        } else {
            r.update(r.len() - 1, r.last().push(s.last()))
        }
    }
}

/// The non-empty pieces, in order.
pub open spec fn non_empty_parts(ps: Seq<Seq<char>>) -> Seq<Seq<char>>
    decreases ps.len(),
{
    if ps.len() == 0 {
        ps
    } else {
        let r = non_empty_parts(ps.drop_last());
        if ps.last().len() > 0 {
            r.push(ps.last())
        } else {
            r
        }
    }
}

/// Follows object fields named by `ps`, one after another.
pub open spec fn select_path(v: JsonView, ps: Seq<Seq<char>>) -> Option<JsonView>
    decreases ps.len(),
{
    if ps.len() == 0 {
        Some(v)
    } else {
        match select_path(v, ps.drop_last()) {
            Some(c) => json_get(c, ps.last()),
            None => None,
        }
    }
}

/// The value at a dotted field path such as `a.b.c`; empty pieces are skipped.
pub open spec fn select_field(v: JsonView, field: Seq<char>) -> Option<JsonView> {
    select_path(v, non_empty_parts(split_dots(field)))
}

proof fn lemma_split_dots_nonempty(s: Seq<char>)
    ensures
        split_dots(s).len() >= 1,
    decreases s.len(),
{
    if s.len() > 0 {
        lemma_split_dots_nonempty(s.drop_last());
    }
}

/// The dot-separated pieces of `field`.
fn split_field(field: &Vec<char>) -> (r: Vec<Vec<char>>)
    ensures
        r@.len() == split_dots(field@).len(),
        forall|i: int| 0 <= i < r@.len() ==> (#[trigger] r@[i])@ == split_dots(field@)[i],
{
    let mut parts: Vec<Vec<char>> = Vec::new();
    parts.push(Vec::new());
    let mut i: usize = 0;
    while i < field.len()
        invariant
            i <= field@.len(),
            parts@.len() == split_dots(field@.take(i as int)).len(),
            parts@.len() >= 1,
            forall|j: int| 0 <= j < parts@.len() ==> (#[trigger] parts@[j])@ == split_dots(
                field@.take(i as int),
            )[j],
        decreases field@.len() - i,
    {
        let c = field[i];
        let ghost prev = field@.take(i as int);
        assert(field@.take(i + 1).drop_last() == prev);
        assert(field@.take(i + 1).last() == c);
        proof {
            lemma_split_dots_nonempty(prev);
        }
        if c == '.' {
            parts.push(Vec::new());
        } else {
            let last = parts.len() - 1;
            let mut seg = parts.pop().unwrap();
            seg.push(c);
            parts.push(seg);
            proof {
                let sd = split_dots(field@.take(i + 1));
                assert forall|j: int| 0 <= j < parts@.len() implies (#[trigger] parts@[j])@ == sd[j] by {
                    if j < last {
                    }
                }
            }
        }
        i = i + 1;
    }
    assert(field@.take(field@.len() as int) == field@);
    parts
}

/// Keeps the non-empty pieces.
fn keep_non_empty(ps: Vec<Vec<char>>, Ghost(spec_ps): Ghost<Seq<Seq<char>>>) -> (r: Vec<Vec<char>>)
    requires
        ps@.len() == spec_ps.len(),
        forall|i: int| 0 <= i < ps@.len() ==> (#[trigger] ps@[i])@ == spec_ps[i],
    ensures
        r@.len() == non_empty_parts(spec_ps).len(),
        forall|i: int| 0 <= i < r@.len() ==> (#[trigger] r@[i])@ == non_empty_parts(spec_ps)[i],
{
    let mut out: Vec<Vec<char>> = Vec::new();
    let mut i: usize = 0;
    while i < ps.len()
        invariant
            i <= ps@.len(),
            ps@.len() == spec_ps.len(),
            forall|j: int| 0 <= j < ps@.len() ==> (#[trigger] ps@[j])@ == spec_ps[j],
            out@.len() == non_empty_parts(spec_ps.take(i as int)).len(),
            forall|j: int| 0 <= j < out@.len() ==> (#[trigger] out@[j])@ == non_empty_parts(
                spec_ps.take(i as int),
            )[j],
        decreases ps@.len() - i,
    {
        assert(spec_ps.take(i + 1).drop_last() == spec_ps.take(i as int));
        assert(spec_ps.take(i + 1).last() == spec_ps[i as int]);
        if ps[i].len() > 0 {
            out.push(ps[i].clone());
        }
        i = i + 1;
    }
    assert(spec_ps.take(ps@.len() as int) == spec_ps);
    out
}

proof fn lemma_select_path_none(v: JsonView, ps: Seq<Seq<char>>, j: int)
    requires
        0 <= j <= ps.len(),
        select_path(v, ps.take(j)).is_none(),
    ensures
        select_path(v, ps).is_none(),
    decreases ps.len() - j,
{
    if j < ps.len() {
        assert(ps.take(j + 1).drop_last() == ps.take(j));
        lemma_select_path_none(v, ps, j + 1);
    } else {
        assert(ps.take(j) == ps);
    }
}

/// The value at a dotted field path of `value` (`a.b.c`), skipping empty pieces; `None`
/// as soon as a piece names no field of the value reached so far.
pub fn select_json_field<'a>(value: &'a JsonValue, field: &str) -> (r: Option<&'a JsonValue>)
    ensures
        r.is_some() == select_field(value@, field@).is_some(),
        r.is_some() ==> r.unwrap()@ == select_field(value@, field@).unwrap(),
{
    let f = chars_of(field);
    let pieces = split_field(&f);
    let parts = keep_non_empty(pieces, Ghost(split_dots(field@)));
    let ghost ps = non_empty_parts(split_dots(field@));
    let mut current: &'a JsonValue = value;
    let mut i: usize = 0;
    while i < parts.len()
        invariant
            i <= parts@.len(),
            parts@.len() == ps.len(),
            ps == non_empty_parts(split_dots(field@)),
            forall|j: int| 0 <= j < parts@.len() ==> (#[trigger] parts@[j])@ == ps[j],
            select_path(value@, ps.take(i as int)) == Some(current@),
        decreases parts@.len() - i,
    {
        assert(ps.take(i + 1).drop_last() == ps.take(i as int));
        assert(ps.take(i + 1).last() == ps[i as int]);
        match current.get_chars(&parts[i]) {
            Some(next) => {
                current = next;
            },
            None => {
                proof {
                    assert(parts@[i as int]@ == ps[i as int]);
                    assert(select_path(value@, ps.take(i + 1)).is_none());
                    lemma_select_path_none(value@, ps, i + 1);
                    assert(select_field(value@, field@).is_none());
                }
                return None;
            },
        }
        i = i + 1;
    }
    assert(ps.take(parts@.len() as int) == ps);
    Some(current)
}


impl JsonNumber {
    /// A copy of the number.
    pub fn copy(&self) -> (r: JsonNumber)
        ensures
            r@ == self@,
    {
        match self {
            JsonNumber::PosInt(n) => JsonNumber::PosInt(*n),
            JsonNumber::NegInt(n) => JsonNumber::NegInt(*n),
            JsonNumber::Float(t) => JsonNumber::Float(t.clone()),
        }
    }
}

impl JsonValue {
    /// A copy of the value.
    pub fn copy(&self) -> (r: JsonValue)
        ensures
            r@ == self@,
        decreases self,
    {
        match self {
            JsonValue::Null => JsonValue::Null,
            JsonValue::Bool(b) => JsonValue::Bool(*b),
            JsonValue::Number(n) => JsonValue::Number(n.copy()),
            JsonValue::String(s) => JsonValue::String(s.clone()),
            JsonValue::Array(xs) => {
                let mut out: Vec<JsonValue> = Vec::new();
                let mut i: usize = 0;
                while i < xs.len()
                    invariant
                        i <= xs@.len(),
                        *self == JsonValue::Array(*xs),
                        out@.len() == i,
                        forall|j: int| 0 <= j < i ==> json_view(#[trigger] out@[j]) == json_view(xs@[j]),
                    decreases xs@.len() - i,
                {
                    proof {
                        assert(decreases_to!(*self => (*self)->Array_0));
                        assert(decreases_to!(*xs => xs@));
                        assert(decreases_to!(xs@ => xs@[i as int]));
                    }
                    out.push(xs[i].copy());
                    i = i + 1;
                }
                let r = JsonValue::Array(out);
                proof {
                    if let (JsonView::Array(a), JsonView::Array(b)) = (r@, self@) {
                        assert(a =~= b);
                    }
                }
                r
            },
            JsonValue::Object(fs) => {
                let mut out: Vec<(String, JsonValue)> = Vec::new();
                let mut i: usize = 0;
                while i < fs.len()
                    invariant
                        i <= fs@.len(),
                        *self == JsonValue::Object(*fs),
                        out@.len() == i,
                        forall|j: int|
                            0 <= j < i ==> (#[trigger] out@[j]).0@ == fs@[j].0@ && json_view(out@[j].1)
                                == json_view(fs@[j].1),
                    decreases fs@.len() - i,
                {
                    proof {
                        assert(decreases_to!(*self => (*self)->Object_0));
                        assert(decreases_to!(*fs => fs@));
                        assert(decreases_to!(fs@ => fs@[i as int]));
                        assert(decreases_to!(fs@[i as int] => fs@[i as int].1));
                    }
                    out.push((fs[i].0.clone(), fs[i].1.copy()));
                    i = i + 1;
                }
                let r = JsonValue::Object(out);
                proof {
                    if let (JsonView::Object(a), JsonView::Object(b)) = (r@, self@) {
                        assert(a =~= b);
                    }
                }
                r
            },
        }
    }
}


impl Default for JsonValue {
    fn default() -> (r: Self)
        ensures
            r == JsonValue::Null,
    {
        JsonValue::Null
    }
}

} // verus!
