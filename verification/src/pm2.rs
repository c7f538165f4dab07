//! The apps under PM2, from the JSON that `pm2 jlist` prints.
use crate::chars::{chars_of, find, first_at, text_of, trim, trimmed};
use crate::model::{pm2_views, Pm2App, Pm2View};
use serde_json::Value;
use vstd::prelude::*;
use vstd::slice::slice_subrange;

verus! {

/// Lists the apps. An absent pm2 is normal, not an error: it lists none.
pub const PM2_COMMAND: &'static str =
    "command -v pm2 >/dev/null 2>&1 && pm2 jlist 2>/dev/null || echo '[]'";

// ---------------------------------------------------------------------------
// JSON
// ---------------------------------------------------------------------------
/// A JSON value.
pub enum Json {
    Null,
    Bool(bool),
    /// A number as an unsigned integer where it is one, and as the bits of a
    /// double-precision number.
    Number { unsigned: Option<u64>, bits: Option<u64> },
    Text(Seq<char>),
    Array(Seq<Json>),
    Object(Map<Seq<char>, Json>),
}

/// A parsed JSON value of `serde_json`.
#[verifier::external_type_specification]
#[verifier::external_body]
pub struct ExValue(serde_json::Value);

/// What a value of `serde_json` holds.
pub uninterp spec fn json_of(v: serde_json::Value) -> Json;

/// What `serde_json` reads from a text; `None` where it is no JSON.
pub uninterp spec fn json_text(s: Seq<char>) -> Option<Json>;

pub open spec fn jsons_of(v: Seq<serde_json::Value>) -> Seq<Json> {
    v.map_values(|x: serde_json::Value| json_of(x))
}

/// `serde_json::from_str` for a `Value`: what it reads depends on the text alone, and
/// an error tells that the text is no JSON.
#[verifier::external_body]
fn parse(s: &str) -> (r: Option<Value>)
    ensures
        json_text(s@) == (match r {
            Some(v) => Some(json_of(v)),
            None => None,
        }),
{
    serde_json::from_str(s).ok()
}

/// `Value::as_array`: the items of an array, in order; nothing of any other value.
#[verifier::external_body]
fn items(v: &Value) -> (r: Option<&Vec<Value>>)
    ensures
        match r {
            Some(a) => json_of(*v) == Json::Array(jsons_of(a@)),
            None => !(json_of(*v) is Array),
        },
{
    v.as_array()
}

/// The index operator of `Value` with a string: the value under that key of an object;
/// null where there is no such key, and of any other value.
#[verifier::external_body]
fn field<'a>(v: &'a Value, key: &str) -> (r: &'a Value)
    ensures
        json_of(*r) == member(json_of(*v), key@),
{
    &v[key]
}

/// `Value::as_str`: the text of a string; nothing of any other value.
#[verifier::external_body]
fn text(v: &Value) -> (r: Option<&str>)
    ensures
        match r {
            Some(s) => json_of(*v) == Json::Text(s@),
            None => !(json_of(*v) is Text),
        },
{
    v.as_str()
}

/// `Value::as_u64`: a number that is an unsigned 64-bit integer; nothing of any other
/// value.
#[verifier::external_body]
fn unsigned(v: &Value) -> (r: Option<u64>)
    ensures
        r == unsigned_in(json_of(*v)),
{
    v.as_u64()
}

/// `Value::as_f64`: a number in double precision, by its bits; nothing of a value that
/// is no number.
#[verifier::external_body]
fn bits(v: &Value) -> (r: Option<u64>)
    ensures
        r == bits_in(json_of(*v)),
{
    v.as_f64().map(|x| x.to_bits())
}

/// The value under a key; null where there is none.
pub open spec fn member(v: Json, key: Seq<char>) -> Json {
    match v {
        Json::Object(m) => if m.contains_key(key) {
            m[key]
        } else {
            Json::Null
        },
        _ => Json::Null,
    }
}

pub open spec fn text_in(v: Json) -> Option<Seq<char>> {
    match v {
        Json::Text(s) => Some(s),
        _ => None,
    }
}

pub open spec fn unsigned_in(v: Json) -> Option<u64> {
    match v {
        Json::Number { unsigned, bits } => unsigned,
        _ => None,
    }
}

pub open spec fn bits_in(v: Json) -> Option<u64> {
    match v {
        Json::Number { unsigned, bits } => bits,
        _ => None,
    }
}

// ---------------------------------------------------------------------------
// Apps
// ---------------------------------------------------------------------------
/// What an item of the list says of an app.
#[derive(Debug)]
pub struct Pm2Fields {
    pub name: Option<String>,
    pub status: Option<String>,
    pub cpu_bits: Option<u64>,
    pub memory: Option<u64>,
    pub restarts: Option<u64>,
}

pub struct FieldsView {
    pub name: Option<Seq<char>>,
    pub status: Option<Seq<char>>,
    pub cpu_bits: Option<u64>,
    pub memory: Option<u64>,
    pub restarts: Option<u64>,
}

impl View for Pm2Fields {
    type V = FieldsView;

    open spec fn view(&self) -> FieldsView {
        FieldsView {
            name: match self.name {
                Some(s) => Some(s@),
                None => None,
            },
            status: match self.status {
                Some(s) => Some(s@),
                None => None,
            },
            cpu_bits: self.cpu_bits,
            memory: self.memory,
            restarts: self.restarts,
        }
    }
}

/// Where an item has the fields of an app.
pub open spec fn fields_in(item: Json) -> FieldsView {
    FieldsView {
        name: text_in(member(item, "name"@)),
        status: text_in(member(member(item, "pm2_env"@), "status"@)),
        cpu_bits: bits_in(member(member(item, "monit"@), "cpu"@)),
        memory: unsigned_in(member(member(item, "monit"@), "memory"@)),
        restarts: unsigned_in(member(member(item, "pm2_env"@), "restart_time"@)),
    }
}

/// A text, or a question mark.
pub open spec fn or_unknown(s: Option<Seq<char>>) -> Seq<char> {
    match s {
        Some(s) => s,
        None => "?"@,
    }
}

/// A number, or 0. All bits 0 are the double-precision 0.
pub open spec fn or_none(n: Option<u64>) -> u64 {
    match n {
        Some(n) => n,
        None => 0,
    }
}

/// The app that an item describes. What is missing reads as unknown or 0.
pub open spec fn app_of(f: FieldsView) -> Pm2View {
    Pm2View {
        name: or_unknown(f.name),
        status: or_unknown(f.status),
        cpu_bits: or_none(f.cpu_bits),
        memory: or_none(f.memory),
        restarts: or_none(f.restarts),
    }
}

/// The apps in a list; none where the value is no list, or where there is none.
pub open spec fn apps_in(v: Option<Json>) -> Seq<Pm2View> {
    match v {
        Some(Json::Array(items)) => items.map_values(|item: Json| app_of(fields_in(item))),
        _ => Seq::empty(),
    }
}

/// The JSON in the output: what begins at the first `[`. `pm2` may print notices in
/// front of it.
pub open spec fn json_in(out: Seq<char>) -> Seq<char> {
    let t = trimmed(out);
    let at = first_at(t, '[');
    if at < t.len() {
        t.skip(at)
    } else {
        t
    }
}

/// The JSON in the output of `pm2 jlist`.
pub fn pm2_json(out: &str) -> (r: String)
    ensures
        r@ == json_in(out@),
{
    let all = chars_of(out);
    let t = trim(all.as_slice());
    let at = find(t, '[');
    if at < t.len() {
        let rest = slice_subrange(t, at, t.len());
        assert(rest@ =~= t@.skip(at as int));
        text_of(rest)
    } else {
        text_of(t)
    }
}

/// The app that an item of the list describes.
pub fn pm2_app(f: Pm2Fields) -> (r: Pm2App)
    ensures
        r@ == app_of(f@),
{
    Pm2App {
        name: match f.name {
            Some(s) => s,
            None => "?".to_owned(),
        },
        status: match f.status {
            Some(s) => s,
            None => "?".to_owned(),
        },
        cpu_bits: match f.cpu_bits {
            Some(n) => n,
            None => 0,
        },
        memory: match f.memory {
            Some(n) => n,
            None => 0,
        },
        restarts: match f.restarts {
            Some(n) => n,
            None => 0,
        },
    }
}

fn owned(s: Option<&str>) -> (r: Option<String>)
    ensures
        match r {
            Some(x) => s is Some && x@ == s->Some_0@,
            None => s is None,
        },
{
    match s {
        Some(s) => Some(s.to_owned()),
        None => None,
    }
}

/// The fields of an item of the list.
fn pm2_fields(item: &Value) -> (r: Pm2Fields)
    ensures
        r@ == fields_in(json_of(*item)),
{
    let monit = field(item, "monit");
    let env = field(item, "pm2_env");
    Pm2Fields {
        name: owned(text(field(item, "name"))),
        status: owned(text(field(env, "status"))),
        cpu_bits: bits(field(monit, "cpu")),
        memory: unsigned(field(monit, "memory")),
        restarts: unsigned(field(env, "restart_time")),
    }
}

/// The apps in the output of `pm2 jlist`; none where it is no JSON list.
pub fn pm2(out: &str) -> (r: Vec<Pm2App>)
    ensures
        pm2_views(r@) == apps_in(json_text(json_in(out@))),
{
    let mut apps: Vec<Pm2App> = Vec::new();
    assert(pm2_views(apps@) =~= Seq::empty());
    match parse(pm2_json(out).as_str()) {
        None => apps,
        Some(v) => match items(&v) {
            None => apps,
            Some(list) => {
                let ghost want = apps_in(Some(json_of(v)));
                let mut i: usize = 0;
                while i < list.len()
                    invariant
                        i <= list.len(),
                        want == jsons_of(list@).map_values(|item: Json| app_of(fields_in(item))),
                        apps@.len() == i,
                        forall|j: int| 0 <= j < i ==> #[trigger] apps@[j]@ == want[j],
                    decreases list.len() - i,
                {
                    apps.push(pm2_app(pm2_fields(&list[i])));
                    i += 1;
                }
                assert(pm2_views(apps@) =~= want);
                apps
            },
        },
    }
}

} // verus!
