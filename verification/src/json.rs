//! JSON values: what the debuggers that speak JSON send and are sent.

use crate::number::{decimal_int, signed_text, unsigned_text};
use crate::str_map::StrMap;
use crate::text::{join, join_texts, texts};
use vstd::prelude::*;

verus! {

/// A JSON value. A number with a fraction or an exponent is kept as its text.
#[derive(Debug)]
pub enum Json {
    Null,
    Bool(bool),
    Unsigned(u64),
    Negative(i64),
    Float(String),
    Str(String),
    Array(Vec<Json>),
    Object(StrMap<Json>),
}

/// A JSON value as mathematics: objects are maps, so the order in which their
/// members were written is gone.
#[verifier::ext_equal]
pub enum JsonView {
    Null,
    Bool(bool),
    Int(int),
    Float(Seq<char>),
    Str(Seq<char>),
    Array(Seq<JsonView>),
    Object(Map<Seq<char>, JsonView>),
}

impl Json {
    /// The value as mathematics.
    pub open spec fn view(&self) -> JsonView
        decreases self,
    {
        match self {
            Json::Null => JsonView::Null,
            Json::Bool(b) => JsonView::Bool(*b),
            Json::Unsigned(n) => JsonView::Int(*n as int),
            Json::Negative(n) => JsonView::Int(*n as int),
            Json::Float(t) => JsonView::Float(t@),
            Json::Str(s) => JsonView::Str(s@),
            Json::Array(list) => JsonView::Array(
                Seq::new(
                    list@.len(),
                    |i: int|
                        if 0 <= i < list@.len() {
                            list@[i].view()
                        } else {
                            JsonView::Null
                        },
                ),
            ),
            Json::Object(m) => JsonView::Object(
                Map::new(
                    |k: Seq<char>| m.has(k),
                    |k: Seq<char>|
                        {
                            let i = m.index(k);
                            if 0 <= i < m.entries@.len() {
                                m.entries@[i].1.view()
                            } else {
                                JsonView::Null
                            }
                        },
                ),
            ),
        }
    }

    /// Negative numbers are negative, and objects keep their keys in order.
    pub open spec fn wf(&self) -> bool
        decreases self,
    {
        match self {
            Json::Negative(n) => *n < 0,
            Json::Array(list) => forall|i: int| 0 <= i < list@.len() ==> (#[trigger] list@[i]).wf(),
            Json::Object(m) => m.wf() && forall|i: int|
                0 <= i < m.entries@.len() ==> (#[trigger] m.entries@[i]).1.wf(),
            _ => true,
        }
    }
}

/// The members of an object.
pub open spec fn members(m: StrMap<Json>) -> Map<Seq<char>, JsonView> {
    Map::new(|k: Seq<char>| m@.contains_key(k), |k: Seq<char>| m@[k].view())
}

/// Whether the keys of an object are in order, and its values in turn.
pub open spec fn members_wf(m: StrMap<Json>) -> bool {
    m.wf() && forall|k: Seq<char>| #[trigger] m@.contains_key(k) ==> m@[k].wf()
}

/// An object is its members.
pub proof fn object_view(m: StrMap<Json>)
    requires
        m.wf(),
    ensures
        Json::Object(m).view() == JsonView::Object(members(m)),
        Json::Object(m).wf() == members_wf(m),
{
    let o = Json::Object(m);
    assert forall|k: Seq<char>| m.has(k) implies m@[k] == m.entries@[m.index(k)].1 && 0 <= m.index(
        k,
    ) < m.entries@.len() by {
        assert(m.holds_at(k, m.index(k)));
    }
    match o.view() {
        JsonView::Object(x) => {
            assert(x =~= members(m));
        },
        _ => {},
    }
    if members_wf(m) {
        assert forall|i: int| 0 <= i < m.entries@.len() implies (#[trigger] m.entries@[i]).1.wf() by {
            let k = m.entries@[i].0@;
            assert(m.holds_at(k, i));
            m.index_is_unique(k, i);
            assert(m@.contains_key(k));
        }
    }
    if o.wf() {
        assert forall|k: Seq<char>| #[trigger] m@.contains_key(k) implies m@[k].wf() by {
            let i = m.index(k);
            assert(m.holds_at(k, i));
            assert(m.entries@[i].1.wf());
        }
    }
}

/// The value of a member, and null where there is none.
pub open spec fn member_or_null(m: Map<Seq<char>, JsonView>, k: Seq<char>) -> JsonView {
    if m.contains_key(k) {
        m[k]
    } else {
        JsonView::Null
    }
}

/// `b` laid over `a`. Two objects are merged member by member: a null in `b`
/// takes the member away, any other value is laid over the member that `a` has
/// there. In every other case `b` takes the place of `a`.
pub open spec fn merged(a: JsonView, b: JsonView) -> JsonView
    decreases b,
{
    match (a, b) {
        (JsonView::Object(x), JsonView::Object(y)) => JsonView::Object(
            Map::new(
                |k: Seq<char>|
                    if y.contains_key(k) {
                        y[k] !is Null
                    } else {
                        x.contains_key(k)
                    },
                |k: Seq<char>|
                    if y.contains_key(k) {
                        merged(member_or_null(x, k), y[k])
                    } else {
                        x[k]
                    },
            ),
        ),
        _ => b,
    }
}

/// Lays `b` over `a`.
fn merge_value(a: Json, b: Json) -> (r: Json)
    requires
        a.wf(),
        b.wf(),
    ensures
        r.wf(),
        r.view() == merged(a.view(), b.view()),
    decreases b,
{
    let ghost whole = b;
    match (a, b) {
        (Json::Object(mut x), Json::Object(mut y)) => {
            let ghost x0 = x;
            let ghost y0 = y;
            proof {
                object_view(x0);
                object_view(y0);
                assert(x0.wf());
            }
            let ghost old_x = members(x0);
            let ghost old_y = members(y0);
            while y.entries.len() > 0
                invariant
                    whole == b,
                    whole == Json::Object(y0),
                    y0.wf(),
                    members_wf(y0),
                    members_wf(x),
                    old_x == members(x0),
                    old_y == members(y0),
                    y.entries@ == y0.entries@.take(y.entries@.len() as int),
                    y.entries@.len() <= y0.entries@.len(),
                    forall|k: Seq<char>| #[trigger]
                        members(x).contains_key(k) == (if old_y.contains_key(k) && y0.index(k)
                            >= y.entries@.len() {
                            old_y[k] !is Null
                        } else {
                            old_x.contains_key(k)
                        }),
                    forall|k: Seq<char>| #[trigger]
                        members(x).contains_key(k) ==> members(x)[k] == (if old_y.contains_key(k)
                            && y0.index(k) >= y.entries@.len() {
                            merged(member_or_null(old_x, k), old_y[k])
                        } else {
                            old_x[k]
                        }),
                decreases y.entries@.len(),
            {
                let ghost n = y.entries@.len() - 1;
                let ghost before = x;
                let ghost entry = y0.entries@[n];
                proof {
                    assert(y.entries@[n] == entry);
                }
                let last = y.entries.pop();
                let (k, v) = last.unwrap();
                let ghost key = k@;
                proof {
                    assert((k, v) == entry);
                    assert(y0.holds_at(key, n));
                    y0.index_is_unique(key, n);
                    assert(y0@.contains_key(key));
                    assert(v.wf());
                    assert(old_y[key] == v.view());
                    assert(decreases_to!(whole => whole->Object_0));
                    assert(decreases_to!(y0 => y0.entries));
                    assert(decreases_to!(y0.entries => y0.entries@));
                    assert(decreases_to!(y0.entries@ => y0.entries@[n]));
                    assert(decreases_to!(y0.entries@[n] => y0.entries@[n].1));
                    assert(decreases_to!(whole => v));
                    assert forall|j: Seq<char>| old_y.contains_key(j) && j != key implies y0.index(
                        j,
                    ) != n by {
                        assert(y0.holds_at(j, y0.index(j)));
                    }
                }
                match v {
                    Json::Null => {
                        let _ = x.remove(k.as_str());
                        assert(members(x) =~= members(before).remove(key));
                    },
                    value => {
                        let held = x.remove(k.as_str());
                        let base = match held {
                            Some(j) => j,
                            None => Json::Null,
                        };
                        assert(base.view() == member_or_null(members(before), key));
                        assert(members(before).contains_key(key) == old_x.contains_key(key));
                        let ghost removed = x;
                        let laid = merge_value(base, value);
                        x.insert(k, laid);
                        assert(x@ == before@.insert(key, laid));
                        assert(members(x) =~= members(before).insert(key, laid.view()));
                        proof {
                            merged_is_null_only_for_null(member_or_null(old_x, key), value.view());
                        }
                    },
                }
            }
            let r = Json::Object(x);
            proof {
                object_view(x);
                assert forall|k: Seq<char>| old_y.contains_key(k) implies y0.index(k) >= 0 by {
                    assert(y0.holds_at(k, y0.index(k)));
                }
                match merged(JsonView::Object(old_x), JsonView::Object(old_y)) {
                    JsonView::Object(z) => {
                        assert(members(x) =~= z);
                    },
                    _ => {},
                }
            }
            r
        },
        (_, other) => other,
    }
}

proof fn merged_is_null_only_for_null(a: JsonView, b: JsonView)
    ensures
        merged(a, b) is Null ==> b is Null,
{
}

/// Lays `b` over `a` in place.
pub fn merge_json(a: &mut Json, b: Json)
    requires
        old(a).wf(),
        b.wf(),
    ensures
        final(a).wf(),
        final(a).view() == merged(old(a).view(), b.view()),
{
    let mut base = Json::Null;
    std::mem::swap(a, &mut base);
    *a = merge_value(base, b);
}

/// No object in `b` has a null member.
pub open spec fn null_free(b: JsonView) -> bool
    decreases b,
{
    match b {
        JsonView::Object(y) => forall|k: Seq<char>| #[trigger]
            y.contains_key(k) ==> y[k] !is Null && null_free(y[k]),
        _ => true,
    }
}

/// Nothing of `b` comes to stand in the merged value as it is with a null member
/// in it: wherever `a` has no object to merge with, `b` has no null.
pub open spec fn settles(a: JsonView, b: JsonView) -> bool
    decreases b,
{
    match (a, b) {
        (JsonView::Object(x), JsonView::Object(y)) => forall|k: Seq<char>| #[trigger]
            y.contains_key(k) && y[k] !is Null ==> settles(member_or_null(x, k), y[k]),
        _ => null_free(b),
    }
}

proof fn merged_with_itself(b: JsonView)
    requires
        null_free(b),
    ensures
        merged(b, b) == b,
    decreases b,
{
    if let JsonView::Object(y) = b {
        assert forall|k: Seq<char>| #[trigger] y.contains_key(k) implies merged(y[k], y[k])
            == y[k] by {
            merged_with_itself(y[k]);
        }
        if let JsonView::Object(z) = merged(b, b) {
            assert(z =~= y);
        }
    }
}

/// Laying the same value over twice is laying it over once, unless a null was
/// carried over into the merged value, where the second time finds it.
pub proof fn merge_twice_is_merge_once(a: JsonView, b: JsonView)
    requires
        settles(a, b),
    ensures
        merged(merged(a, b), b) == merged(a, b),
    decreases b,
{
    match (a, b) {
        (JsonView::Object(x), JsonView::Object(y)) => {
            if let JsonView::Object(z) = merged(a, b) {
                assert forall|k: Seq<char>| #[trigger]
                    y.contains_key(k) && y[k] !is Null implies merged(member_or_null(z, k), y[k])
                    == z[k] by {
                    merge_twice_is_merge_once(member_or_null(x, k), y[k]);
                }
                if let JsonView::Object(w) = merged(merged(a, b), b) {
                    assert(w =~= z);
                }
            }
        },
        _ => {
            merged_with_itself(b);
        },
    }
}

/// Laying an empty object over an object changes nothing.
pub proof fn merge_nothing(x: Map<Seq<char>, JsonView>)
    ensures
        merged(JsonView::Object(x), JsonView::Object(Map::empty())) == JsonView::Object(x),
{
    if let JsonView::Object(z) = merged(JsonView::Object(x), JsonView::Object(Map::empty())) {
        assert(z =~= x);
    }
}

/// Laying over an object with one member, a plain value, sets that member and
/// leaves every other as it was.
pub proof fn merge_one_member(x: Map<Seq<char>, JsonView>, k: Seq<char>, v: JsonView)
    requires
        v !is Null,
        v !is Object,
    ensures
        merged(JsonView::Object(x), JsonView::Object(map![k => v])) == JsonView::Object(
            x.insert(k, v),
        ),
{
    assert(merged(member_or_null(x, k), v) == v);
    if let JsonView::Object(z) = merged(JsonView::Object(x), JsonView::Object(map![k => v])) {
        assert(z =~= x.insert(k, v));
    }
}

impl JsonView {
    /// The member `k` of an object, and null where there is none.
    pub open spec fn member(self, k: Seq<char>) -> JsonView {
        match self {
            JsonView::Object(m) => member_or_null(m, k),
            _ => JsonView::Null,
        }
    }

    /// The item `i` of an array, and null where there is none.
    pub open spec fn item(self, i: int) -> JsonView {
        match self {
            JsonView::Array(list) => if 0 <= i < list.len() {
                list[i]
            } else {
                JsonView::Null
            },
            _ => JsonView::Null,
        }
    }
}

impl Json {
    /// The member `k`, if the value is an object that has it.
    pub fn get(&self, k: &str) -> (r: Option<&Json>)
        requires
            self.wf(),
        ensures
            match r {
                Some(j) => j.wf() && j.view() == self.view().member(k@) && (self.view() matches
                    JsonView::Object(m) && m.contains_key(k@)),
                None => self.view().member(k@) is Null && !(self.view() matches JsonView::Object(m)
                    && m.contains_key(k@)),
            },
    {
        match self {
            Json::Object(m) => {
                proof {
                    object_view(*m);
                }
                m.get(k)
            },
            _ => None,
        }
    }

    /// The item `i`, if the value is an array that has it.
    pub fn item(&self, i: usize) -> (r: Option<&Json>)
        requires
            self.wf(),
        ensures
            match r {
                Some(j) => j.wf() && j.view() == self.view().item(i as int) && (self.view() matches
                    JsonView::Array(list) && i < list.len()),
                None => self.view().item(i as int) is Null && !(self.view() matches
                    JsonView::Array(list) && i < list.len()),
            },
    {
        match self {
            Json::Array(list) => if i < list.len() {
                Some(&list[i])
            } else {
                None
            },
            _ => None,
        }
    }

    /// The text, if the value is one.
    pub fn as_str(&self) -> (r: Option<&str>)
        ensures
            match r {
                Some(s) => self.view() == JsonView::Str(s@),
                None => self.view() !is Str,
            },
    {
        match self {
            Json::Str(s) => Some(s.as_str()),
            _ => None,
        }
    }

    /// The number, if the value is an integer that fits.
    pub fn as_i64(&self) -> (r: Option<i64>)
        requires
            self.wf(),
        ensures
            match r {
                Some(n) => self.view() == JsonView::Int(n as int),
                None => !(self.view() matches JsonView::Int(n) && i64::MIN <= n <= i64::MAX),
            },
    {
        match self {
            Json::Unsigned(n) => if *n <= i64::MAX as u64 {
                Some(*n as i64)
            } else {
                None
            },
            Json::Negative(n) => Some(*n),
            _ => None,
        }
    }

    /// The number, if the value is an integer that is not negative.
    pub fn as_u64(&self) -> (r: Option<u64>)
        requires
            self.wf(),
        ensures
            match r {
                Some(n) => self.view() == JsonView::Int(n as int),
                None => !(self.view() matches JsonView::Int(n) && 0 <= n <= u64::MAX),
            },
    {
        match self {
            Json::Unsigned(n) => Some(*n),
            _ => None,
        }
    }

    /// An integer.
    pub fn integer(n: i64) -> (r: Json)
        ensures
            r.wf(),
            r.view() == JsonView::Int(n as int),
    {
        if n < 0 {
            Json::Negative(n)
        } else {
            Json::Unsigned(n as u64)
        }
    }

    /// A text.
    pub fn text(s: &str) -> (r: Json)
        ensures
            r.wf(),
            r.view() == JsonView::Str(s@),
    {
        Json::Str(s.to_string())
    }

    /// An array of texts.
    pub fn text_list(list: &Vec<String>) -> (r: Json)
        ensures
            r.wf(),
            r.view() == JsonView::Array(texts(list@).map_values(|s: Seq<char>| JsonView::Str(s))),
    {
        let mut items: Vec<Json> = Vec::new();
        let mut i: usize = 0;
        while i < list.len()
            invariant
                i <= list@.len(),
                items@.len() == i,
                forall|j: int|
                    0 <= j < i ==> (#[trigger] items@[j]).wf() && items@[j].view()
                        == JsonView::Str(list@[j]@),
            decreases list@.len() - i,
        {
            items.push(Json::text(list[i].as_str()));
            i = i + 1;
        }
        let r = Json::Array(items);
        proof {
            if let JsonView::Array(v) = r.view() {
                assert(v =~= texts(list@).map_values(|s: Seq<char>| JsonView::Str(s)));
            }
        }
        r
    }

    /// An object whose members are texts.
    pub fn text_map(m: &StrMap<String>) -> (r: Json)
        requires
            m.wf(),
        ensures
            r.wf(),
            r.view() == JsonView::Object(m@.map_values(|s: String| JsonView::Str(s@))),
    {
        let mut o: StrMap<Json> = StrMap::new();
        let mut i: usize = 0;
        while i < m.entries.len()
            invariant
                i <= m.entries@.len(),
                m.wf(),
                members_wf(o),
                forall|k: Seq<char>| #[trigger]
                    members(o).contains_key(k) == (m.has(k) && m.index(k) < i),
                forall|k: Seq<char>| #[trigger]
                    members(o).contains_key(k) ==> members(o)[k] == JsonView::Str(m@[k]@),
            decreases m.entries@.len() - i,
        {
            let ghost before = o;
            let ghost key = m.key(i as int);
            let value = Json::text(m.entries[i].1.as_str());
            o.insert(m.entries[i].0.clone(), value);
            proof {
                assert(m.holds_at(key, i as int));
                m.index_is_unique(key, i as int);
                assert(members(o) =~= members(before).insert(key, value.view()));
                assert forall|k: Seq<char>| m.has(k) && k != key implies m.index(k) != i by {
                    assert(m.holds_at(k, m.index(k)));
                }
            }
            i = i + 1;
        }
        let r = Json::Object(o);
        proof {
            object_view(o);
            assert forall|k: Seq<char>| m.has(k) implies m.index(k) < m.entries@.len() by {
                assert(m.holds_at(k, m.index(k)));
            }
            assert(members(o) =~= m@.map_values(|s: String| JsonView::Str(s@)));
        }
        r
    }

    /// An object without members.
    pub fn object() -> (r: Json)
        ensures
            r.wf(),
            r.view() == JsonView::Object(Map::empty()),
    {
        let m: StrMap<Json> = StrMap::new();
        proof {
            object_view(m);
            assert(members(m) =~= Map::<Seq<char>, JsonView>::empty());
        }
        Json::Object(m)
    }

    /// The object with the member `k` set.
    pub fn with(self, k: &str, v: Json) -> (r: Json)
        requires
            self.wf(),
            v.wf(),
            self.view() is Object,
        ensures
            r.wf(),
            r.view() == JsonView::Object(self.view()->Object_0.insert(k@, v.view())),
    {
        match self {
            Json::Object(mut m) => {
                let ghost before = m;
                proof {
                    object_view(before);
                }
                m.insert(k.to_string(), v);
                proof {
                    assert(members(m) =~= members(before).insert(k@, v.view()));
                    object_view(m);
                }
                Json::Object(m)
            },
            other => other,
        }
    }
}

/// A hexadecimal digit, with small letters.
pub open spec fn hex_digit(n: int) -> char {
    if n < 10 {
        ('0' as int + n) as char
    } else {
        ('a' as int + n - 10) as char
    }
}

/// A character as it stands in a text of JSON: the quote, the backslash and the
/// control characters are escaped, five of these with a letter and the others with
/// their number.
pub open spec fn json_escaped(c: char) -> Seq<char> {
    let n = c as int;
    if c == '"' || c == '\\' {
        seq!['\\', c]
    } else if n == 0x8 {
        seq!['\\', 'b']
    } else if n == 0x9 {
        seq!['\\', 't']
    } else if n == 0xA {
        seq!['\\', 'n']
    } else if n == 0xC {
        seq!['\\', 'f']
    } else if n == 0xD {
        seq!['\\', 'r']
    } else if n < 0x20 {
        seq!['\\', 'u', '0', '0', hex_digit(n / 16), hex_digit(n % 16)]
    } else {
        seq![c]
    }
}

/// A text as JSON writes it: in double quotes, with escapes.
pub open spec fn json_quoted(s: Seq<char>) -> Seq<char> {
    seq!['"'] + s.map_values(|c: char| json_escaped(c)).flatten() + seq!['"']
}

/// `serde_json::to_string` of a text gives the text as JSON writes it, in double
/// quotes, with only those characters escaped that have to be. Writing a text to a
/// `String` never fails.
#[verifier::external_body]
fn quote_json(s: &str) -> (r: String)
    ensures
        r@ == json_quoted(s@),
{
    serde_json::to_string(s).unwrap_or_default()
}

/// What is written for the members of an object, in the order of their keys.
pub open spec fn shown_members(entries: Seq<(String, Json)>) -> Seq<Seq<char>>
    decreases entries,
{
    Seq::new(
        entries.len(),
        |i: int|
            if 0 <= i < entries.len() {
                json_quoted(entries[i].0@) + ":"@ + shown(entries[i].1)
            } else {
                Seq::empty()
            },
    )
}

/// What is written for the items of an array.
pub open spec fn shown_items(items: Seq<Json>) -> Seq<Seq<char>>
    decreases items,
{
    Seq::new(
        items.len(),
        |i: int|
            if 0 <= i < items.len() {
                shown(items[i])
            } else {
                Seq::empty()
            },
    )
}

/// A value as JSON text, without spaces.
pub open spec fn shown(j: Json) -> Seq<char>
    decreases j,
{
    match j {
        Json::Null => "null"@,
        Json::Bool(b) => if b {
            "true"@
        } else {
            "false"@
        },
        Json::Unsigned(n) => decimal_int(n as int),
        Json::Negative(n) => decimal_int(n as int),
        Json::Float(t) => t@,
        Json::Str(s) => json_quoted(s@),
        Json::Array(items) => "["@ + join(shown_items(items@), ","@) + "]"@,
        Json::Object(m) => "{"@ + join(shown_members(m.entries@), ","@) + "}"@,
    }
}

impl Json {
    /// The value as JSON text.
    pub fn display(&self) -> (r: String)
        ensures
            r@ == shown(*self),
        decreases self,
    {
        match self {
            Json::Null => "null".to_string(),
            Json::Bool(b) => if *b {
                "true".to_string()
            } else {
                "false".to_string()
            },
            Json::Unsigned(n) => unsigned_text(*n),
            Json::Negative(n) => signed_text(*n),
            Json::Float(t) => t.clone(),
            Json::Str(s) => quote_json(s.as_str()),
            Json::Array(items) => {
                let mut parts: Vec<String> = Vec::new();
                let mut i: usize = 0;
                while i < items.len()
                    invariant
                        i <= items@.len(),
                        *self == Json::Array(*items),
                        texts(parts@) == shown_items(items@).take(i as int),
                    decreases items@.len() - i,
                {
                    let ghost before = texts(parts@);
                    proof {
                        assert(decreases_to!(self => self->Array_0));
                        assert(decreases_to!(items@ => items@[i as int]));
                    }
                    parts.push(items[i].display());
                    assert(texts(parts@) == before.push(shown(items@[i as int])));
                    i = i + 1;
                }
                assert(shown_items(items@).take(i as int) == shown_items(items@));
                let list = join_texts(&parts, ",");
                "[".to_string().concat(list.as_str()).concat("]")
            },
            Json::Object(m) => {
                let mut parts: Vec<String> = Vec::new();
                let mut i: usize = 0;
                while i < m.entries.len()
                    invariant
                        i <= m.entries@.len(),
                        *self == Json::Object(*m),
                        texts(parts@) == shown_members(m.entries@).take(i as int),
                    decreases m.entries@.len() - i,
                {
                    let ghost before = texts(parts@);
                    proof {
                        assert(decreases_to!(self => self->Object_0));
                        assert(decreases_to!(self->Object_0 => m.entries));
                        assert(decreases_to!(m.entries => m.entries@));
                        assert(decreases_to!(m.entries@ => m.entries@[i as int]));
                        assert(decreases_to!(m.entries@[i as int] => m.entries@[i as int].1));
                    }
                    let key = quote_json(m.entries[i].0.as_str());
                    let value = m.entries[i].1.display();
                    parts.push(key.concat(":").concat(value.as_str()));
                    assert(texts(parts@) == before.push(
                        json_quoted(m.entries@[i as int].0@) + ":"@ + shown(m.entries@[i as int].1),
                    ));
                    i = i + 1;
                }
                assert(shown_members(m.entries@).take(i as int) == shown_members(m.entries@));
                let list = join_texts(&parts, ",");
                "{".to_string().concat(list.as_str()).concat("}")
            },
        }
    }
}

/// A JSON value of serde_json.
#[verifier::external_type_specification]
#[verifier::external_body]
pub struct ExValue(serde_json::Value);

/// What a value of serde_json holds.
pub uninterp spec fn held(value: serde_json::Value) -> JsonView;

/// The value that a text is in JSON, and nothing where the text is no JSON.
pub uninterp spec fn json_of(text: Seq<char>) -> Option<JsonView>;

/// `serde_json::from_str` reads a text as a value, or refuses it. Which texts are
/// JSON and what they hold is the grammar of JSON as serde_json reads it. Where a
/// key stands twice in an object, the last value counts. Nesting is limited.
#[verifier::external_body]
fn read_value(text: &str) -> (r: Option<serde_json::Value>)
    ensures
        match r {
            Some(value) => json_of(text@) == Some(held(value)),
            None => json_of(text@) is None,
        },
{
    serde_json::from_str(text).ok()
}

/// A value of serde_json, with what is directly inside it.
pub enum ValueParts<'a> {
    Null,
    Bool(bool),
    Unsigned(u64),
    Negative(i64),
    Float(String),
    Str(&'a String),
    Array(&'a Vec<serde_json::Value>),
    Object(Vec<(&'a String, &'a serde_json::Value)>),
}

/// Whether these are the parts of a value.
pub open spec fn are_parts(parts: ValueParts, value: JsonView) -> bool {
    match parts {
        ValueParts::Null => value == JsonView::Null,
        ValueParts::Bool(b) => value == JsonView::Bool(b),
        ValueParts::Unsigned(n) => value == JsonView::Int(n as int),
        ValueParts::Negative(n) => n < 0 && value == JsonView::Int(n as int),
        ValueParts::Float(t) => value == JsonView::Float(t@),
        ValueParts::Str(s) => value == JsonView::Str(s@),
        ValueParts::Array(items) => value == JsonView::Array(
            Seq::new(items@.len(), |i: int| held(items@[i])),
        ),
        ValueParts::Object(entries) => value matches JsonView::Object(m) && {
            &&& forall|i: int|
                #![trigger entries@[i]]
                0 <= i < entries@.len() ==> m.contains_key(entries@[i].0@) && m[entries@[i].0@]
                    == held(*entries@[i].1)
            &&& forall|k: Seq<char>| #[trigger]
                m.contains_key(k) ==> exists|i: int|
                    0 <= i < entries@.len() && (#[trigger] entries@[i]).0@ == k
        },
    }
}

/// The variants of `serde_json::Value`, with what they hold. A number is a `u64`
/// where `Number::as_u64` gives one, else an `i64` where `Number::as_i64` gives one,
/// which is then negative, and else the text that `Number` is displayed as. The
/// entries of an object are all that `Map::iter` gives.
#[verifier::external_body]
fn value_parts(value: &serde_json::Value) -> (r: ValueParts<'_>)
    ensures
        are_parts(r, held(*value)),
{
    match value {
        serde_json::Value::Null => ValueParts::Null,
        serde_json::Value::Bool(b) => ValueParts::Bool(*b),
        serde_json::Value::Number(n) => match (n.as_u64(), n.as_i64()) {
            (Some(n), _) => ValueParts::Unsigned(n),
            (None, Some(n)) => ValueParts::Negative(n),
            (None, None) => ValueParts::Float(n.to_string()),
        },
        serde_json::Value::String(s) => ValueParts::Str(s),
        serde_json::Value::Array(items) => ValueParts::Array(items),
        serde_json::Value::Object(m) => ValueParts::Object(m.iter().collect()),
    }
}

/// What a value of serde_json holds.
pub fn value_held(value: &serde_json::Value) -> (r: Json)
    ensures
        r.wf(),
        r.view() == held(*value),
    decreases held(*value),
{
    let ghost whole = held(*value);
    match value_parts(value) {
        ValueParts::Null => Json::Null,
        ValueParts::Bool(b) => Json::Bool(b),
        ValueParts::Unsigned(n) => Json::Unsigned(n),
        ValueParts::Negative(n) => Json::Negative(n),
        ValueParts::Float(t) => Json::Float(t),
        ValueParts::Str(s) => Json::text(s.as_str()),
        ValueParts::Array(items) => {
            let mut list: Vec<Json> = Vec::new();
            let mut i: usize = 0;
            while i < items.len()
                invariant
                    i <= items@.len(),
                    list@.len() == i,
                    whole == held(*value),
                    are_parts(ValueParts::Array(items), whole),
                    forall|j: int|
                        0 <= j < i ==> (#[trigger] list@[j]).wf() && list@[j].view() == held(
                            items@[j],
                        ),
                decreases items@.len() - i,
            {
                assert(whole->Array_0[i as int] == held(items@[i as int]));
                list.push(value_held(&items[i]));
                i += 1;
            }
            let r = Json::Array(list);
            assert(r.view()->Array_0 =~= whole->Array_0);
            r
        },
        ValueParts::Object(entries) => {
            let ghost all = whole->Object_0;
            let mut m: StrMap<Json> = StrMap::new();
            let mut i: usize = 0;
            while i < entries.len()
                invariant
                    i <= entries@.len(),
                    whole == held(*value),
                    whole == JsonView::Object(all),
                    are_parts(ValueParts::Object(entries), whole),
                    members_wf(m),
                    forall|k: Seq<char>| #[trigger]
                        m@.contains_key(k) ==> all.contains_key(k) && m@[k].view() == all[k],
                    forall|j: int|
                        0 <= j < i ==> m@.contains_key((#[trigger] entries@[j]).0@),
                decreases entries@.len() - i,
            {
                let ghost key = entries@[i as int].0@;
                assert(all[key] == held(*entries@[i as int].1));
                let entry = &entries[i];
                m.insert(entry.0.clone(), value_held(entry.1));
                i += 1;
            }
            proof {
                object_view(m);
                assert(members(m) =~= all);
            }
            Json::Object(m)
        },
    }
}

/// The value that a text is in JSON, if it is JSON.
pub fn parse_json(text: &str) -> (r: Option<Json>)
    ensures
        match r {
            Some(j) => j.wf() && json_of(text@) == Some(j.view()),
            None => json_of(text@) is None,
        },
{
    match read_value(text) {
        Some(value) => Some(value_held(&value)),
        None => None,
    }
}

/// Merging goes member by member. A member that is laid over with null is gone, one that
/// is laid over with an object is merged with it where it is an object too, one that is
/// laid over with anything else takes that value, and every other member stays. Where one
/// of the two is no object, what is laid over takes the place of the whole.
pub proof fn members_are_merged_one_by_one(
    before: Json,
    over: Json,
    after: Json,
    k: Seq<char>,
    member_before: Json,
    member_over: Json,
    member_after: Json,
)
    requires
        exists|a: &mut Json|
            *a == before && *final(a) == after && #[trigger] call_ensures(merge_json, (a, over), ()),
        exists|a: &mut Json|
            *a == member_before && *final(a) == member_after && #[trigger] call_ensures(
                merge_json,
                (a, member_over),
                (),
            ),
    ensures
        !(before.view() is Object && over.view() is Object) ==> after.view() == over.view(),
        before.view() matches JsonView::Object(x) ==> (over.view() matches JsonView::Object(y) ==> (
        after.view() matches JsonView::Object(z) && {
            &&& !y.contains_key(k) ==> z.contains_key(k) == x.contains_key(k) && (
            x.contains_key(k) ==> z[k] == x[k])
            &&& y.contains_key(k) && y[k] is Null ==> !z.contains_key(k)
            &&& y.contains_key(k) && y[k] !is Null ==> z.contains_key(k)
            &&& y.contains_key(k) && y[k] !is Null && !(x.contains_key(k) && x[k] is Object
                && y[k] is Object) ==> z[k] == y[k]
            &&& y.contains_key(k) && x.contains_key(k) && y[k] !is Null && x[k]
                == member_before.view() && y[k] == member_over.view() ==> z[k]
                == member_after.view()
        })),
{
    reveal_with_fuel(merged, 2);
    if let JsonView::Object(x) = before.view() {
        if let JsonView::Object(y) = over.view() {
            let whole = merged(before.view(), over.view());
            assert(whole is Object);
            if y.contains_key(k) && y[k] !is Null {
                assert(whole->Object_0[k] == merged(member_or_null(x, k), y[k]));
            }
        }
    }
}

/// A member that was set is found, every other member is found as before, and an object
/// that was made without members has none.
pub proof fn set_member_is_found(
    before: Json,
    k: &str,
    v: Json,
    after: &Json,
    held: &Json,
    other: &str,
    found: Option<&Json>,
    other_found: Option<&Json>,
    other_before: Option<&Json>,
    none: Json,
    none_held: &Json,
    none_found: Option<&Json>,
)
    requires
        before.view() is Object,
        *held == before,
        call_ensures(Json::with, (before, k, v), *after),
        call_ensures(Json::get, (after, k), found),
        other@ != k@,
        call_ensures(Json::get, (after, other), other_found),
        call_ensures(Json::get, (held, other), other_before),
        call_ensures(Json::object, (), none),
        *none_held == none,
        call_ensures(Json::get, (none_held, k), none_found),
    ensures
        found matches Some(j) && j.view() == v.view(),
        other_found is Some == other_before is Some,
        other_found matches Some(j) ==> (other_before matches Some(i) ==> j.view() == i.view()),
        none_found is None,
{
}

/// The items of a list of texts are these texts, in order.
pub proof fn listed_texts_are_the_items(
    list: &Vec<String>,
    held: &Json,
    i: usize,
    found: Option<&Json>,
    text: Option<&str>,
)
    requires
        call_ensures(Json::text_list, (list,), *held),
        call_ensures(Json::item, (held, i), found),
        found matches Some(j) ==> call_ensures(Json::as_str, (j,), text),
    ensures
        found is Some <==> i < list@.len(),
        i < list@.len() ==> (text matches Some(t) && t@ == list@[i as int]@),
{
    if i < list@.len() {
        assert(texts(list@)[i as int] == list@[i as int]@);
    }
}

/// The members of a map of texts are these texts, each under its key.
pub proof fn mapped_texts_are_the_members(
    m: &StrMap<String>,
    held: &Json,
    k: &str,
    found: Option<&Json>,
    text: Option<&str>,
)
    requires
        call_ensures(Json::text_map, (m,), *held),
        call_ensures(Json::get, (held, k), found),
        found matches Some(j) ==> call_ensures(Json::as_str, (j,), text),
    ensures
        found is Some <==> m@.contains_key(k@),
        m@.contains_key(k@) ==> (text matches Some(t) && t@ == m@[k@]@),
{
}

/// A number that was put in is read back, and a text is no number.
pub proof fn numbers_are_held(
    n: i64,
    held: &Json,
    signed: Option<i64>,
    unsigned: Option<u64>,
    s: &str,
    text: &Json,
    text_signed: Option<i64>,
    text_read: Option<&str>,
    number_read: Option<&str>,
)
    requires
        call_ensures(Json::integer, (n,), *held),
        call_ensures(Json::as_i64, (held,), signed),
        call_ensures(Json::as_u64, (held,), unsigned),
        call_ensures(Json::as_str, (held,), number_read),
        call_ensures(Json::text, (s,), *text),
        call_ensures(Json::as_i64, (text,), text_signed),
        call_ensures(Json::as_str, (text,), text_read),
    ensures
        signed == Some(n),
        n >= 0 ==> (unsigned matches Some(u) && u == n),
        n < 0 ==> unsigned is None,
        number_read is None,
        text_signed is None,
        text_read matches Some(t) && t@ == s@,
{
}

proof fn joined_with_one_more(parts: Seq<Seq<char>>, more: Seq<char>, separator: Seq<char>)
    requires
        parts.len() > 0,
    ensures
        join(parts.push(more), separator) == join(parts, separator) + separator + more,
{
    assert(parts.push(more).drop_last() =~= parts);
}

/// An array is written item by item: nothing between the brackets, then the first item,
/// and each item that follows behind a comma.
pub proof fn items_are_written_one_by_one(
    items: Vec<Json>,
    last: Json,
    more: Vec<Json>,
    r: String,
    longer: String,
    one: String,
)
    requires
        more@ == items@.push(last),
        call_ensures(Json::display, (&Json::Array(items),), r),
        call_ensures(Json::display, (&Json::Array(more),), longer),
        call_ensures(Json::display, (&last,), one),
    ensures
        items@.len() == 0 ==> r@ == seq!['[', ']'] && longer@ == seq!['['] + one@ + seq![']'],
        items@.len() > 0 ==> longer@ == r@.drop_last() + seq![','] + one@ + seq![']'],
{
    reveal_strlit("[");
    reveal_strlit("]");
    reveal_strlit(",");
    let parts = shown_items(items@);
    assert(shown_items(more@) =~= parts.push(shown(last))) by {
        assert forall|i: int| 0 <= i < more@.len() implies shown_items(more@)[i] == parts.push(
            shown(last),
        )[i] by {
            if i < items@.len() {
                assert(more@[i] == items@[i]);
            }
        }
    }
    assert("["@ =~= seq!['['] && "]"@ =~= seq![']'] && ","@ =~= seq![',']);
    if items@.len() == 0 {
        assert(parts =~= Seq::empty());
        reveal_with_fuel(join, 2);
        assert(join(parts, ","@) =~= Seq::<char>::empty());
        assert(join(parts.push(shown(last)), ","@) =~= shown(last));
        assert(r@ =~= seq!['[', ']']);
    } else {
        joined_with_one_more(parts, shown(last), ","@);
        assert(r@.drop_last() =~= "["@ + join(parts, ","@));
        assert(longer@ =~= r@.drop_last() + seq![','] + one@ + seq![']']);
    }
}

/// An object is written member by member, in the order of the entries: the key as a text,
/// a colon and the value, with commas between the members.
pub proof fn members_are_written_one_by_one(
    m: StrMap<Json>,
    last: (String, Json),
    more: StrMap<Json>,
    r: String,
    longer: String,
    key: String,
    one: String,
)
    requires
        more.entries@ == m.entries@.push(last),
        call_ensures(Json::display, (&Json::Object(m),), r),
        call_ensures(Json::display, (&Json::Object(more),), longer),
        call_ensures(Json::display, (&Json::Str(last.0),), key),
        call_ensures(Json::display, (&last.1,), one),
    ensures
        m.entries@.len() == 0 ==> r@ == seq!['{', '}'] && longer@ == seq!['{'] + (key@ + seq![':']
            + one@) + seq!['}'],
        m.entries@.len() > 0 ==> longer@ == r@.drop_last() + seq![','] + (key@ + seq![':'] + one@)
            + seq!['}'],
{
    reveal_strlit("{");
    reveal_strlit("}");
    reveal_strlit(",");
    reveal_strlit(":");
    let parts = shown_members(m.entries@);
    let part = json_quoted(last.0@) + ":"@ + shown(last.1);
    assert(shown_members(more.entries@) =~= parts.push(part)) by {
        assert forall|i: int| 0 <= i < more.entries@.len() implies shown_members(more.entries@)[i]
            == parts.push(part)[i] by {
            if i < m.entries@.len() {
                assert(more.entries@[i] == m.entries@[i]);
            }
        }
    }
    assert("{"@ =~= seq!['{'] && "}"@ =~= seq!['}'] && ","@ =~= seq![','] && ":"@ =~= seq![':']);
    if m.entries@.len() == 0 {
        assert(parts =~= Seq::empty());
        reveal_with_fuel(join, 2);
        assert(join(parts, ","@) =~= Seq::<char>::empty());
        assert(join(parts.push(part), ","@) =~= part);
        assert(r@ =~= seq!['{', '}']);
    } else {
        joined_with_one_more(parts, part, ","@);
        assert(r@.drop_last() =~= "{"@ + join(parts, ","@));
        assert(longer@ =~= r@.drop_last() + seq![','] + part + seq!['}']);
    }
}

/// Numbers, truth values and null are written as they are known, and a text stands in
/// double quotes.
pub proof fn plain_values_are_written(
    n: i64,
    b: bool,
    s: String,
    number: String,
    truth: String,
    null: String,
    text: String,
)
    requires
        call_ensures(Json::display, (&Json::Negative(n),), number),
        call_ensures(Json::display, (&Json::Bool(b),), truth),
        call_ensures(Json::display, (&Json::Null,), null),
        call_ensures(Json::display, (&Json::Str(s),), text),
    ensures
        number@ == decimal_int(n as int),
        truth@ == if b {
            "true"@
        } else {
            "false"@
        },
        null@ == "null"@,
        text@.first() == '"' && text@.last() == '"' && text@.len() >= 2,
{
}

} // verus!
