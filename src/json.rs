use vstd::prelude::*;

verus! {

broadcast use {vstd::std_specs::vec::group_vec_axioms, vstd::seq::group_seq_axioms};

/// A JSON value as the wire mapping reads and writes it.
///
/// Integers that fit in an `i64` are held as `Int`; any other number is held
/// as its JSON text in `Number`.
pub enum JsonValue {
    Null,
    Bool(bool),
    Int(i64),
    Number(String),
    Str(String),
    Array(Vec<JsonValue>),
    Object(Vec<(String, JsonValue)>),
}

/// The mathematical model of a `JsonValue`.
pub enum Json {
    Null,
    Bool(bool),
    Int(i64),
    Number(Seq<char>),
    Str(Seq<char>),
    Array(Seq<Json>),
    Object(Seq<(Seq<char>, Json)>),
}

impl View for JsonValue {
    type V = Json;

    open spec fn view(&self) -> Json
        decreases self,
    {
        match self {
            JsonValue::Null => Json::Null,
            JsonValue::Bool(b) => Json::Bool(*b),
            JsonValue::Int(n) => Json::Int(*n),
            JsonValue::Number(t) => Json::Number(t@),
            JsonValue::Str(s) => Json::Str(s@),
            JsonValue::Array(items) => Json::Array(
                Seq::new(items@.len(), |i: int|
                    if 0 <= i < items@.len() { items@[i].view() } else { Json::Null },
                ),
            ),
            JsonValue::Object(members) => Json::Object(
                Seq::new(members@.len(), |i: int|
                    if 0 <= i < members@.len() {
                        (members@[i].0@, members@[i].1.view())
                    } else {
                        (Seq::empty(), Json::Null)
                    },
                ),
            ),
        }
    }
}


/// The value of the last member named `key`, as a JSON object with repeated
/// names keeps the last one.
pub open spec fn member(members: Seq<(Seq<char>, Json)>, key: Seq<char>) -> Option<Json>
    decreases members.len(),
{
    if members.len() == 0 {
        None
    } else if members.last().0 == key {
        Some(members.last().1)
    } else {
        member(members.drop_last(), key)
    }
}

/// The decimal digit for `d`, where `d < 10`.
pub open spec fn digit_char(d: nat) -> char {
    if d == 0 { '0' } else if d == 1 { '1' } else if d == 2 { '2' } else if d == 3 { '3' }
    else if d == 4 { '4' } else if d == 5 { '5' } else if d == 6 { '6' } else if d == 7 { '7' }
    else if d == 8 { '8' } else { '9' }
}

/// The decimal digits of `n`, without leading zeros.
pub open spec fn digits(n: nat) -> Seq<char>
    decreases n,
{
    if n < 10 {
        seq![digit_char(n)]
    } else {
        digits(n / 10).push(digit_char(n % 10))
    }
}

/// The JSON text of an integer: its digits, after a minus sign when negative.
pub open spec fn decimal(n: int) -> Seq<char> {
    if n < 0 {
        seq!['-'] + digits((-n) as nat)
    } else {
        digits(n as nat)
    }
}

/// The quoted and escaped JSON text of a string, as serde_json writes it.
pub uninterp spec fn json_string_literal(s: Seq<char>) -> Seq<char>;

/// The compact JSON text of a value: no whitespace, members and items in
/// their order, separated by commas.
pub open spec fn render(j: Json) -> Seq<char>
    decreases j,
{
    match j {
        Json::Null => seq!['n', 'u', 'l', 'l'],
        Json::Bool(b) => if b { seq!['t', 'r', 'u', 'e'] } else { seq!['f', 'a', 'l', 's', 'e'] },
        Json::Int(n) => decimal(n as int),
        Json::Number(t) => t,
        Json::Str(s) => json_string_literal(s),
        Json::Array(items) => seq!['['] + render_items(items) + seq![']'],
        Json::Object(members) => seq!['{'] + render_members(members) + seq!['}'],
    }
}

/// The items of an array, rendered and separated by commas.
pub open spec fn render_items(items: Seq<Json>) -> Seq<char>
    decreases items,
{
    if items.len() == 0 {
        Seq::empty()
    } else if items.len() == 1 {
        render(items[0])
    } else {
        render_items(items.subrange(0, items.len() - 1)) + seq![','] + render(
            items[items.len() - 1],
        )
    }
}

/// One member of an object: its name as a JSON string, a colon, its value.
pub open spec fn render_member(m: (Seq<char>, Json)) -> Seq<char>
    decreases m,
{
    json_string_literal(m.0) + seq![':'] + render(m.1)
}

/// The members of an object, rendered and separated by commas.
pub open spec fn render_members(members: Seq<(Seq<char>, Json)>) -> Seq<char>
    decreases members,
{
    if members.len() == 0 {
        Seq::empty()
    } else if members.len() == 1 {
        render_member(members[0])
    } else {
        render_members(members.subrange(0, members.len() - 1)) + seq![','] + render_member(
            members[members.len() - 1],
        )
    }
}


/// Relies on serde_json's `Display` for `Value`: a string value is written as
/// a quoted JSON string literal, escaped as JSON requires.
#[verifier::external_body]
fn quote(s: &String) -> (r: String)
    ensures
        r@ == json_string_literal(s@),
{
    serde_json::Value::String(s.clone()).to_string()
}

fn digit_str(d: u64) -> (r: &'static str)
    requires
        d < 10,
    ensures
        r@ == seq![digit_char(d as nat)],
{
    if d == 0 {
        proof { reveal_strlit("0"); }
        "0"
    } else if d == 1 {
        proof { reveal_strlit("1"); }
        "1"
    } else if d == 2 {
        proof { reveal_strlit("2"); }
        "2"
    } else if d == 3 {
        proof { reveal_strlit("3"); }
        "3"
    } else if d == 4 {
        proof { reveal_strlit("4"); }
        "4"
    } else if d == 5 {
        proof { reveal_strlit("5"); }
        "5"
    } else if d == 6 {
        proof { reveal_strlit("6"); }
        "6"
    } else if d == 7 {
        proof { reveal_strlit("7"); }
        "7"
    } else if d == 8 {
        proof { reveal_strlit("8"); }
        "8"
    } else {
        proof { reveal_strlit("9"); }
        "9"
    }
}

fn write_digits(n: u64, out: &mut String)
    ensures
        final(out)@ == old(out)@ + digits(n as nat),
    decreases n,
{
    if n >= 10 {
        write_digits(n / 10, out);
    }
    out.append(digit_str(n % 10));
    assert(final(out)@ =~= old(out)@ + digits(n as nat));
}

/// Appends the decimal text of `n`.
pub fn write_int(n: i64, out: &mut String)
    ensures
        final(out)@ == old(out)@ + decimal(n as int),
{
    if n < 0 {
        proof { reveal_strlit("-"); }
        out.append("-");
        let magnitude: u64 = (0i128 - n as i128) as u64;
        write_digits(magnitude, out);
        assert(final(out)@ =~= old(out)@ + decimal(n as int));
    } else {
        write_digits(n as u64, out);
    }
}


/// Appends the compact JSON text of `v`.
pub fn write_json(v: &JsonValue, out: &mut String)
    ensures
        final(out)@ == old(out)@ + render(v@),
    decreases v,
{
    match v {
        JsonValue::Null => {
            proof { reveal_strlit("null"); }
            out.append("null");
        },
        JsonValue::Bool(b) => {
            if *b {
                proof { reveal_strlit("true"); }
                out.append("true");
            } else {
                proof { reveal_strlit("false"); }
                out.append("false");
            }
        },
        JsonValue::Int(n) => {
            write_int(*n, out);
        },
        JsonValue::Number(t) => {
            out.append(t.as_str());
        },
        JsonValue::Str(s) => {
            let q = quote(s);
            out.append(q.as_str());
        },
        JsonValue::Array(items) => {
            let ghost start = out@;
            let ghost js = Seq::new(items@.len(), |k: int| items@[k]@);
            proof {
                lemma_array_view(*items);
                reveal_strlit("[");
                reveal_strlit("]");
            }
            out.append("[");
            let mut i: usize = 0;
            while i < items.len()
                invariant
                    i <= items@.len(),
                    *v == JsonValue::Array(*items),
                    v@ == Json::Array(js),
                    js == Seq::new(items@.len(), |k: int| items@[k]@),
                    out@ == start + seq!['['] + render_items(js.subrange(0, i as int)),
                decreases items@.len() - i,
            {
                let ghost prev = js.subrange(0, i as int);
                let ghost next = js.subrange(0, i + 1);
                proof {
                    reveal_strlit(",");
                    assert(next.subrange(0, i as int) =~= prev);
                    assert(decreases_to!(*v => (*v)->Array_0));
                    assert(decreases_to!(*items => items[i as int]));
                }
                if i > 0 {
                    out.append(",");
                }
                write_json(&items[i], out);
                i = i + 1;
                if i > 1 {
                    assert(render_items(next) == render_items(prev) + seq![','] + render(next[i - 1]));
                }
                assert(out@ =~= start + seq!['['] + render_items(next));
            }
            out.append("]");
            assert(js.subrange(0, i as int) =~= js);
            assert(out@ =~= start + render(v@));
        },
        JsonValue::Object(members) => {
            let ghost start = out@;
            let ghost ms = members_of(members@);
            proof {
                lemma_object_view(*members);
                reveal_strlit("{");
                reveal_strlit("}");
            }
            out.append("{");
            let mut i: usize = 0;
            while i < members.len()
                invariant
                    i <= members@.len(),
                    *v == JsonValue::Object(*members),
                    v@ == Json::Object(ms),
                    ms == members_of(members@),
                    out@ == start + seq!['{'] + render_members(ms.subrange(0, i as int)),
                decreases members@.len() - i,
            {
                let ghost prev = ms.subrange(0, i as int);
                let ghost next = ms.subrange(0, i + 1);
                proof {
                    reveal_strlit(",");
                    reveal_strlit(":");
                    assert(next.subrange(0, i as int) =~= prev);
                    assert(decreases_to!(*v => (*v)->Object_0));
                    assert(decreases_to!(*members => members[i as int]));
                    assert(decreases_to!(members[i as int] => members[i as int].1));
                }
                if i > 0 {
                    out.append(",");
                }
                let ghost sep = out@;
                let key = quote(&members[i].0);
                out.append(key.as_str());
                out.append(":");
                write_json(&members[i].1, out);
                assert(out@ =~= sep + render_member(next[i as int]));
                i = i + 1;
                if i > 1 {
                    assert(render_members(next) == render_members(prev) + seq![','] + render_member(next[i - 1]));
                }
                assert(out@ =~= start + seq!['{'] + render_members(next));
            }
            out.append("}");
            assert(ms.subrange(0, i as int) =~= ms);
            assert(out@ =~= start + render(v@));
        },
    }
}

/// The compact JSON text of `v`.
pub fn to_json_text(v: &JsonValue) -> (r: String)
    ensures
        r@ == render(v@),
{
    let mut out = String::new();
    write_json(v, &mut out);
    assert(out@ =~= render(v@));
    out
}


/// The error of reading a record from a JSON value: a member is present with
/// a value that cannot stand for the field's type, or an object is expected
/// and something else is found.
#[derive(Debug, PartialEq, Eq, Structural)]
pub struct DeserializationError;

/// The members of an object, as its model holds them.
pub open spec fn members_of(members: Seq<(String, JsonValue)>) -> Seq<(Seq<char>, Json)> {
    Seq::new(members.len(), |i: int| (members[i].0@, members[i].1@))
}

/// The model of an object holds the models of its members, in order.
pub proof fn lemma_object_view(members: Vec<(String, JsonValue)>)
    ensures
        JsonValue::Object(members)@ == Json::Object(members_of(members@)),
{
    reveal_with_fuel(<JsonValue as View>::view, 2);
    assert(JsonValue::Object(members)@->Object_0 =~= members_of(members@));
}

/// The model of an array holds the models of its items, in order.
pub proof fn lemma_array_view(items: Vec<JsonValue>)
    ensures
        JsonValue::Array(items)@ == Json::Array(Seq::new(items@.len(), |i: int| items@[i]@)),
{
    reveal_with_fuel(<JsonValue as View>::view, 2);
    assert(JsonValue::Array(items)@->Array_0 =~= Seq::new(items@.len(), |i: int| items@[i]@));
}

/// The position of the member named `key` that an object keeps: the last one.
pub fn find_member(members: &Vec<(String, JsonValue)>, key: &String) -> (r: Option<usize>)
    ensures
        match r {
            Some(i) => i < members@.len() && member(members_of(members@), key@) == Some(
                members@[i as int].1@,
            ),
            None => member(members_of(members@), key@) is None,
        },
{
    let ghost ms = members_of(members@);
    let mut found: Option<usize> = None;
    let mut i: usize = 0;
    while i < members.len()
        invariant
            i <= members@.len(),
            ms == members_of(members@),
            match found {
                Some(j) => j < i && member(ms.subrange(0, i as int), key@) == Some(
                    members@[j as int].1@,
                ),
                None => member(ms.subrange(0, i as int), key@) is None,
            },
        decreases members@.len() - i,
    {
        assert(ms.subrange(0, i + 1).drop_last() =~= ms.subrange(0, i as int));
        if members[i].0 == *key {
            found = Some(i);
        }
        i = i + 1;
    }
    assert(ms.subrange(0, i as int) =~= ms);
    found
}

/// What an optional integer member reads as: absent or null is no value, an
/// integer is that value, anything else is an error.
pub open spec fn int_field(j: Option<Json>) -> Result<Option<i64>, DeserializationError> {
    match j {
        None => Ok(None),
        Some(Json::Null) => Ok(None),
        Some(Json::Int(n)) => Ok(Some(n)),
        Some(_) => Err(DeserializationError),
    }
}

/// What an optional string member reads as: absent or null is no value, a
/// string is that value, anything else is an error.
pub open spec fn str_field(j: Option<Json>) -> Result<Option<Seq<char>>, DeserializationError> {
    match j {
        None => Ok(None),
        Some(Json::Null) => Ok(None),
        Some(Json::Str(s)) => Ok(Some(s)),
        Some(_) => Err(DeserializationError),
    }
}

/// Reads the optional integer member named `key`.
pub fn int_member(members: &Vec<(String, JsonValue)>, key: &String) -> (r: Result<
    Option<i64>,
    DeserializationError,
>)
    ensures
        r == int_field(member(members_of(members@), key@)),
{
    match find_member(members, key) {
        None => Ok(None),
        Some(i) => match &members[i].1 {
            JsonValue::Null => Ok(None),
            JsonValue::Int(n) => Ok(Some(*n)),
            _ => Err(DeserializationError),
        },
    }
}

/// Reads the optional string member named `key`.
pub fn str_member(members: &Vec<(String, JsonValue)>, key: &String) -> (r: Result<
    Option<String>,
    DeserializationError,
>)
    ensures
        r is Ok <==> str_field(member(members_of(members@), key@)) is Ok,
        r is Ok ==> str_field(member(members_of(members@), key@))->Ok_0 == r->Ok_0.deep_view(),
{
    match find_member(members, key) {
        None => Ok(None),
        Some(i) => match &members[i].1 {
            JsonValue::Null => Ok(None),
            JsonValue::Str(s) => Ok(Some(s.clone())),
            _ => Err(DeserializationError),
        },
    }
}


/// The model of an optional exec value.
pub open spec fn opt_view(v: Option<JsonValue>) -> Option<Json> {
    match v {
        Some(x) => Some(x@),
        None => None,
    }
}

/// An optional string as an optional JSON string.
pub open spec fn str_json(o: Option<Seq<char>>) -> Option<Json> {
    match o {
        Some(s) => Some(Json::Str(s)),
        None => None,
    }
}

/// An optional integer as an optional JSON integer.
pub open spec fn int_json(o: Option<i64>) -> Option<Json> {
    match o {
        Some(n) => Some(Json::Int(n)),
        None => None,
    }
}

/// The members written for an optional field: one when it is present, none
/// when it is absent.
pub open spec fn opt_member(key: Seq<char>, v: Option<Json>) -> Seq<(Seq<char>, Json)> {
    match v {
        Some(j) => seq![(key, j)],
        None => Seq::empty(),
    }
}

/// What a lookup finds after the members of an optional field are appended.
pub proof fn lemma_member_after_opt(
    members: Seq<(Seq<char>, Json)>,
    k: Seq<char>,
    v: Option<Json>,
    key: Seq<char>,
)
    ensures
        member(members + opt_member(k, v), key) == if v is Some && k == key {
            v
        } else {
            member(members, key)
        },
{
    let all = members + opt_member(k, v);
    if v is Some {
        assert(all.drop_last() =~= members);
    } else {
        assert(all =~= members);
    }
}

/// A member under another name does not change what `key` finds, wherever it
/// stands.
pub proof fn lemma_member_insert_other(
    members: Seq<(Seq<char>, Json)>,
    i: int,
    m: (Seq<char>, Json),
    key: Seq<char>,
)
    requires
        0 <= i <= members.len(),
        m.0 != key,
    ensures
        member(members.insert(i, m), key) == member(members, key),
    decreases members.len(),
{
    let all = members.insert(i, m);
    if i == members.len() {
        assert(all.drop_last() =~= members);
    } else {
        assert(all.last() == members.last());
        assert(all.drop_last() =~= members.drop_last().insert(i, m));
        if members.last().0 != key {
            lemma_member_insert_other(members.drop_last(), i, m, key);
        }
    }
}

/// An object without members has no member under any name.
pub proof fn lemma_member_of_empty(key: Seq<char>)
    ensures
        member(Seq::empty(), key) is None,
{
}

/// An optional string as an optional JSON string.
pub fn str_value(o: &Option<String>) -> (r: Option<JsonValue>)
    ensures
        opt_view(r) == str_json(o.deep_view()),
{
    match o {
        Some(s) => Some(JsonValue::Str(s.clone())),
        None => None,
    }
}

/// An optional integer as an optional JSON integer.
pub fn int_value(o: Option<i64>) -> (r: Option<JsonValue>)
    ensures
        opt_view(r) == int_json(o),
{
    match o {
        Some(n) => Some(JsonValue::Int(n)),
        None => None,
    }
}

/// Appends a member named `key` when `value` is present.
pub fn push_member(members: &mut Vec<(String, JsonValue)>, key: &str, value: Option<JsonValue>)
    ensures
        members_of(final(members)@) == members_of(old(members)@) + opt_member(key@, opt_view(value)),
{
    match value {
        Some(v) => {
            let ghost j = v@;
            members.push((String::from_str(key), v));
            assert(members_of(members@) =~= members_of(old(members)@) + opt_member(key@, Some(j)));
        },
        None => {
            assert(members_of(members@) =~= members_of(old(members)@) + opt_member(key@, None));
        },
    }
}

} // verus!
