//! Reading the QingWear gateway's records (JSON objects whose field names
//! vary), the provider's settings, and which records are paid.
use vstd::prelude::*;
use crate::text::{trim, trim_chars, string_from_chars, str_eq, concat_str};
use crate::numbers::{parse_u64, parse_u64_str, nat_text, u64_to_text};
use crate::json::{JsonValue, json_get, json_as_str, json_as_u64, json_as_bool, take_member};
use crate::config::{nonblank, nonblank_text, ov};
use crate::qw_price::{f64_text_positive, text_is_positive_f64};

verus! {

/// The first of the keys present in an object, and its value.
pub open spec fn first_member(v: JsonValue, keys: Seq<Seq<char>>) -> Option<JsonValue>
    decreases keys.len(),
{
    if keys.len() == 0 {
        None
    } else {
        match json_get(v, keys[0]) {
            Some(x) => Some(x),
            None => first_member(v, keys.drop_first()),
        }
    }
}

pub open spec fn key_seq(keys: Seq<&str>) -> Seq<Seq<char>> {
    keys.map_values(|k: &str| k@)
}

/// The value under the first of the keys that is present.
pub fn first_member_of<'a>(v: &'a JsonValue, keys: &[&str]) -> (r: Option<&'a JsonValue>)
    ensures
        match r {
            Some(x) => first_member(*v, key_seq(keys@)) == Some(*x),
            None => first_member(*v, key_seq(keys@)) is None,
        },
{
    let ghost ks = key_seq(keys@);
    let mut i: usize = 0;
    proof {
        assert(ks.skip(0) =~= ks);
    }
    while i < keys.len()
        invariant
            i <= keys@.len(),
            ks == key_seq(keys@),
            first_member(*v, ks) == first_member(*v, ks.skip(i as int)),
        decreases keys@.len() - i,
    {
        proof {
            let rest = ks.skip(i as int);
            assert(rest[0] == keys@[i as int]@);
            assert(rest.drop_first() =~= ks.skip(i + 1));
        }
        match v.get(keys[i]) {
            Some(x) => {
                return Some(x);
            },
            None => {},
        }
        i = i + 1;
    }
    proof {
        assert(ks.skip(i as int) =~= Seq::<Seq<char>>::empty());
    }
    None
}


/// The value under the first of the keys that is present, moved out.
pub fn take_first_member(v: JsonValue, keys: &[&str]) -> (r: Option<JsonValue>)
    ensures
        r == first_member(v, key_seq(keys@)),
{
    let ghost ks = key_seq(keys@);
    let mut i: usize = 0;
    proof {
        assert(ks.skip(0) =~= ks);
    }
    while i < keys.len()
        invariant
            i <= keys@.len(),
            ks == key_seq(keys@),
            first_member(v, ks) == first_member(v, ks.skip(i as int)),
        decreases keys@.len() - i,
    {
        proof {
            let rest = ks.skip(i as int);
            assert(rest[0] == keys@[i as int]@);
            assert(rest.drop_first() =~= ks.skip(i + 1));
        }
        if v.get(keys[i]).is_some() {
            return take_member(v, keys[i]);
        }
        i = i + 1;
    }
    proof {
        assert(ks.skip(i as int) =~= Seq::<Seq<char>>::empty());
    }
    None
}

/// `record_string`: the trimmed text (a string, or a number's text) of the
/// first key present, when not blank.
pub open spec fn record_text(v: JsonValue, keys: Seq<Seq<char>>) -> Option<Seq<char>> {
    match first_member(v, keys) {
        Some(x) => match x {
            JsonValue::Str(s) => nonblank(Some(s@)),
            JsonValue::Number(t) => nonblank(Some(t@)),
            _ => None,
        },
        None => None,
    }
}

pub fn record_string(v: &JsonValue, keys: &[&str]) -> (r: Option<String>)
    ensures
        ov(r) == record_text(*v, key_seq(keys@)),
{
    match first_member_of(v, keys) {
        Some(x) => match x {
            JsonValue::Str(s) => nonblank_text(Some(s.as_str())),
            JsonValue::Number(t) => nonblank_text(Some(t.as_str())),
            _ => None,
        },
        None => None,
    }
}

/// `record_u64`: the first key present, as a number that is a `u64`, or a
/// string that (trimmed) parses as one.
pub open spec fn record_number(v: JsonValue, keys: Seq<Seq<char>>) -> Option<u64> {
    match first_member(v, keys) {
        Some(x) => match x {
            JsonValue::Number(_) => json_as_u64(x),
            JsonValue::Str(s) => parse_u64(trim(s@)),
            _ => None,
        },
        None => None,
    }
}

pub fn record_u64(v: &JsonValue, keys: &[&str]) -> (r: Option<u64>)
    ensures
        r == record_number(*v, key_seq(keys@)),
{
    match first_member_of(v, keys) {
        Some(x) => match x {
            JsonValue::Number(_) => x.as_u64(),
            JsonValue::Str(s) => {
                let t = string_from_chars(trim_chars(s.as_str()).as_slice());
                parse_u64_str(t.as_str())
            },
            _ => None,
        },
        None => None,
    }
}

/// The id a value gives: a non-blank string as it is, or a number's text.
pub open spec fn id_value(x: JsonValue) -> Option<Seq<char>> {
    match x {
        JsonValue::Str(s) => if trim(s@).len() > 0 {
            Some(s@)
        } else {
            None
        },
        JsonValue::Number(t) => Some(t@),
        _ => None,
    }
}

/// The id under the first of the keys that gives one.
pub open spec fn id_from(v: JsonValue, keys: Seq<Seq<char>>) -> Option<Seq<char>>
    decreases keys.len(),
{
    if keys.len() == 0 {
        None
    } else {
        let here = match json_get(v, keys[0]) {
            Some(x) => id_value(x),
            None => None,
        };
        match here {
            Some(i) => Some(i),
            None => id_from(v, keys.drop_first()),
        }
    }
}

pub open spec fn id_keys() -> Seq<Seq<char>> {
    seq!["id"@, "appId"@, "_id"@, "uuid"@]
}

/// `record_id`: the id of a record, from `id`, `appId`, `_id` or `uuid`.
pub open spec fn record_id_of(v: JsonValue) -> Option<Seq<char>> {
    id_from(v, id_keys())
}

pub fn record_id(v: &JsonValue) -> (r: Option<String>)
    ensures
        ov(r) == record_id_of(*v),
{
    let keys: &[&str] = &["id", "appId", "_id", "uuid"];
    proof {
        assert(key_seq(keys@) =~= id_keys());
    }
    let ghost ks = id_keys();
    let mut i: usize = 0;
    proof {
        assert(ks.skip(0) =~= ks);
    }
    while i < keys.len()
        invariant
            i <= keys@.len(),
            ks == key_seq(keys@),
            ks == id_keys(),
            id_from(*v, ks) == id_from(*v, ks.skip(i as int)),
        decreases keys@.len() - i,
    {
        proof {
            let rest = ks.skip(i as int);
            assert(rest[0] == keys@[i as int]@);
            assert(rest.drop_first() =~= ks.skip(i + 1));
        }
        match v.get(keys[i]) {
            Some(x) => match x {
                JsonValue::Str(s) => {
                    if trim_chars(s.as_str()).len() > 0 {
                        let r = s.clone();
                        proof {
                            let rest = ks.skip(i as int);
                            assert(json_get(*v, rest[0]) == Some(*x));
                            assert(id_value(*x) == Some(s@));
                            assert(id_from(*v, rest) == Some(s@));
                        }
                        return Some(r);
                    }
                },
                JsonValue::Number(t) => {
                    let r = t.clone();
                    proof {
                        let rest = ks.skip(i as int);
                        assert(json_get(*v, rest[0]) == Some(*x));
                        assert(id_value(*x) == Some(t@));
                        assert(id_from(*v, rest) == Some(t@));
                    }
                    return Some(r);
                },
                _ => {},
            },
            None => {},
        }
        i = i + 1;
    }
    proof {
        assert(ks.skip(i as int) =~= Seq::<Seq<char>>::empty());
    }
    None
}

// ----------------------------------------------------------------------------
// Paid records.
/// Whether a value read as a price is above zero: a number, or a string
/// that (trimmed) parses as a floating-point number, greater than zero.
pub open spec fn price_positive(x: Option<JsonValue>) -> bool {
    match x {
        Some(v) => match v {
            JsonValue::Number(t) => f64_text_positive(t@),
            JsonValue::Str(s) => f64_text_positive(trim(s@)),
            _ => false,
        },
        None => false,
    }
}

pub open spec fn price_keys() -> Seq<Seq<char>> {
    seq!["price"@, "coin"@, "cost"@]
}

pub open spec fn price_type_keys() -> Seq<Seq<char>> {
    seq!["priceType"@]
}

/// `resolve_paid_type`: a price type of 2 or more is force-paid; a price
/// type of 1, or a price above zero, is paid; anything else is free.
pub open spec fn qw_paid_type(v: JsonValue) -> Option<Seq<char>> {
    let price_type = match record_number(v, price_type_keys()) {
        Some(t) => t,
        None => 0,
    };
    if price_type >= 2 {
        Some("force_paid"@)
    } else if price_type == 1 || price_positive(first_member(v, price_keys())) {
        Some("paid"@)
    } else {
        None
    }
}

pub fn resolve_paid_type(v: &JsonValue) -> (r: Option<&'static str>)
    ensures
        match r {
            Some(s) => qw_paid_type(*v) == Some(s@),
            None => qw_paid_type(*v) is None,
        },
{
    let tkeys: &[&str] = &["priceType"];
    let pkeys: &[&str] = &["price", "coin", "cost"];
    proof {
        assert(key_seq(tkeys@) =~= price_type_keys());
        assert(key_seq(pkeys@) =~= price_keys());
    }
    let price_type = match record_u64(v, tkeys) {
        Some(t) => t,
        None => 0,
    };
    if price_type >= 2 {
        return Some("force_paid");
    }
    let positive = match first_member_of(v, pkeys) {
        Some(x) => match x {
            JsonValue::Number(t) => text_is_positive_f64(t.as_str()),
            JsonValue::Str(s) => {
                let t = string_from_chars(trim_chars(s.as_str()).as_slice());
                text_is_positive_f64(t.as_str())
            },
            _ => false,
        },
        None => false,
    };
    if price_type == 1 || positive {
        Some("paid")
    } else {
        None
    }
}

/// What a record's price makes it: a price type of 2 or more is force-paid
/// whatever the price; paid holds exactly when the price type is below 2
/// and is 1 or the price (first of `price`, `coin`, `cost`) is above zero;
/// otherwise the record is free.
pub proof fn law_paid_type_by_price(v: JsonValue)
    ensures
        (record_number(v, seq!["priceType"@]) matches Some(t) && t >= 2) ==> qw_paid_type(v) == Some(
            "force_paid"@,
        ),
        qw_paid_type(v) == Some("paid"@) <==> !(record_number(v, seq!["priceType"@]) matches Some(t) && t >= 2)
            && (record_number(v, seq!["priceType"@]) == Some(1u64) || price_positive(
            first_member(v, seq!["price"@, "coin"@, "cost"@]),
        )),
        qw_paid_type(v) is None <==> !(record_number(v, seq!["priceType"@]) matches Some(t) && t >= 1)
            && !price_positive(first_member(v, seq!["price"@, "coin"@, "cost"@])),
{
    reveal_strlit("paid");
    reveal_strlit("force_paid");
    assert(price_type_keys() =~= seq!["priceType"@]);
    assert(price_keys() =~= seq!["price"@, "coin"@, "cost"@]);
    assert("paid"@ != "force_paid"@) by {
        assert("paid"@.len() != "force_paid"@.len());
    }
}

pub open spec fn is_paid(v: JsonValue) -> bool {
    qw_paid_type(v) is Some
}

/// `is_paid_resource`.
pub fn is_paid_resource(v: &JsonValue) -> (r: bool)
    ensures
        r == is_paid(*v),
{
    resolve_paid_type(v).is_some()
}

// ----------------------------------------------------------------------------
// Settings.
/// The QingWear provider's settings.
#[derive(Debug)]
pub struct QwConfig {
    pub device_type: Option<String>,
}

impl View for QwConfig {
    type V = Option<Seq<char>>;

    open spec fn view(&self) -> Option<Seq<char>> {
        ov(self.device_type)
    }
}

pub open spec fn qw_default_device() -> Seq<char> {
    "watch-square"@
}

/// The device type a setting gives: the setting when not blank, else
/// `watch-square`.
pub open spec fn qw_device_of(o: Option<Seq<char>>) -> Seq<char> {
    match o {
        Some(d) => if trim(d).len() > 0 {
            d
        } else {
            qw_default_device()
        },
        None => qw_default_device(),
    }
}

pub open spec fn device_keys() -> Seq<Seq<char>> {
    seq!["deviceType"@, "device_type"@, "type"@, "device"@]
}

/// The device an object names: its first device key present, when that is
/// a non-blank string, trimmed.
pub open spec fn json_device(v: JsonValue) -> Option<Seq<char>> {
    match first_member(v, device_keys()) {
        Some(x) => match json_as_str(x) {
            Some(s) => nonblank(Some(s)),
            None => None,
        },
        None => None,
    }
}

/// `merge_json`: the device an object names replaces the setting.
pub open spec fn json_merged(o: Option<Seq<char>>, v: JsonValue) -> Option<Seq<char>> {
    match json_device(v) {
        Some(d) => Some(d),
        None => o,
    }
}

/// `merge_raw`: a blank text changes nothing; text that reads as JSON
/// (`parsed`, its reading) is merged as such; other text is the device,
/// trimmed.
pub open spec fn raw_merged(o: Option<Seq<char>>, raw: Seq<char>, parsed: Option<JsonValue>) -> Option<Seq<char>> {
    if trim(raw).len() == 0 {
        o
    } else {
        match parsed {
            Some(p) => json_merged(o, p),
            None => Some(trim(raw)),
        }
    }
}

/// A refresh's settings: the settings object (when given and not null), then the
/// raw settings text, merged into empty settings.
pub open spec fn refreshed_device(json: Option<JsonValue>, raw: Option<Seq<char>>, parsed: Option<JsonValue>) -> Option<Seq<char>> {
    let c1 = match json {
        Some(v) => if v is Null {
            None
        } else {
            json_merged(None, v)
        },
        None => None,
    };
    match raw {
        Some(t) => raw_merged(c1, t, parsed),
        None => c1,
    }
}

impl QwConfig {
    pub fn new() -> (r: QwConfig)
        ensures
            r@ is None,
    {
        QwConfig { device_type: None }
    }

    pub fn device_type(&self) -> (r: String)
        ensures
            r@ == qw_device_of(self@),
    {
        match &self.device_type {
            Some(d) => if trim_chars(d.as_str()).len() > 0 {
                d.clone()
            } else {
                String::from_str("watch-square")
            },
            None => String::from_str("watch-square"),
        }
    }

    pub fn merge_json(&mut self, v: &JsonValue)
        ensures
            final(self)@ == json_merged(old(self)@, *v),
    {
        let keys: &[&str] = &["deviceType", "device_type", "type", "device"];
        proof {
            assert(key_seq(keys@) =~= device_keys());
        }
        let found = match first_member_of(v, keys) {
            Some(x) => nonblank_text(x.as_str()),
            None => None,
        };
        match found {
            Some(d) => {
                self.device_type = Some(d);
            },
            None => {},
        }
    }

    /// `parsed` is what the trimmed `raw` reads as in JSON, if it does.
    pub fn merge_raw(&mut self, raw: &str, parsed: &Option<JsonValue>)
        ensures
            final(self)@ == raw_merged(old(self)@, raw@, *parsed),
    {
        let t = trim_chars(raw);
        if t.len() == 0 {
            return;
        }
        match parsed {
            Some(v) => {
                self.merge_json(v);
            },
            None => {
                self.device_type = Some(string_from_chars(t.as_slice()));
            },
        }
    }
}

/// A refresh's settings; `parsed` is the JSON reading of the trimmed
/// raw text, if it has one.
pub fn qw_refresh_config(json: Option<&JsonValue>, raw: Option<&str>, parsed: &Option<JsonValue>) -> (r: QwConfig)
    ensures
        r@ == refreshed_device(
            match json { Some(v) => Some(*v), None => None },
            match raw { Some(t) => Some(t@), None => None },
            *parsed,
        ),
{
    let mut c = QwConfig::new();
    match json {
        Some(v) => {
            if !v.is_null() {
                c.merge_json(v);
            }
        },
        None => {},
    }
    match raw {
        Some(t) => {
            c.merge_raw(t, parsed);
        },
        None => {},
    }
    c
}


// ----------------------------------------------------------------------------
// The provider protocol.
/// The checks of an action's envelope: version 1, this
/// provider.
pub fn check_qw_envelope(version: u64, provider: &str) -> (r: Result<(), String>)
    ensures
        match r {
            Ok(()) => version == 1 && provider@ == "轻腕社区"@,
            Err(e) => if version != 1 {
                e@ == "unsupported provider payload version: "@ + nat_text(version as nat)
            } else {
                provider@ != "轻腕社区"@ && e@ == "provider mismatch: expected "@ + "轻腕社区"@ + ", got "@ + provider@
            },
        },
{
    if version != 1 {
        let v = u64_to_text(version);
        return Err(concat_str("unsupported provider payload version: ", v.as_str()));
    }
    if !str_eq(provider, "轻腕社区") {
        let a = concat_str("provider mismatch: expected ", "轻腕社区");
        let b = concat_str(a.as_str(), ", got ");
        return Err(concat_str(b.as_str(), provider));
    }
    Ok(())
}

} // verus!
