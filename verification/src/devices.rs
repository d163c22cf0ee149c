//! Watch models of the mibandtool community: the device list offered to the
//! user, the models hidden from it, and how a requested model is resolved.
use vstd::prelude::*;
use crate::text::{
    trim, lower, eq_ignore_case, starts_with, trim_chars, trim_str, lower_chars, chars_eq,
    chars_eq_ignore_case, chars_of, chars_starts_with, slice_range, string_from_chars, str_eq,
    concat_str,
};
use crate::config::ov;

verus! {

/// A watch model: its model code and display name.
#[derive(Clone, Debug)]
pub struct DeviceInfo {
    pub model: String,
    pub name: String,
}

/// The (model, name) texts of a device.
pub open spec fn dv(d: DeviceInfo) -> (Seq<char>, Seq<char>) {
    (d.model@, d.name@)
}

pub open spec fn dvs(d: Seq<DeviceInfo>) -> Seq<(Seq<char>, Seq<char>)> {
    d.map_values(|x: DeviceInfo| dv(x))
}

/// The built-in device list.
pub open spec fn fallback_devices() -> Seq<(Seq<char>, Seq<char>)> {
    seq![
        ("mi7"@, "小米手环7"@),
        ("mi8"@, "小米手环8"@),
        ("mi7pro"@, "小米手环7 Pro"@),
        ("mi8pro"@, "小米手环8 Pro"@),
        ("ws3"@, "小米手表S3/S4 Sport"@),
        ("rw4"@, "红米手表4"@),
        ("N66"@, "小米手环9"@),
        ("N67"@, "小米手环9 Pro"@),
        ("O62"@, "小米手表S4"@),
        ("o65"@, "红米手表5"@),
        ("o66"@, "小米手环10"@),
        ("o67"@, "小米手环10 Pro"@),
        ("p65"@, "红米手表6"@),
        ("P62"@, "小米手表S5 46mm"@),
        ("mi5"@, "小米手环5"@),
        ("mi4"@, "小米手环4"@),
        ("gtr47"@, "Amazfit GTR 47mm"@),
        ("gvlite"@, "小米手表 Lite"@),
    ]
}

/// Models that the host does not support.
pub open spec fn hidden_models() -> Seq<Seq<char>> {
    seq!["mi7"@, "mi8"@, "mi7pro"@, "mi8pro"@, "rw4"@, "mi5"@, "mi4"@, "gtr47"@, "gvlite"@]
}

/// Display names of the models that the host does not support.
pub open spec fn hidden_names() -> Seq<Seq<char>> {
    seq![
        "小米手环7"@,
        "小米手环8"@,
        "小米手环7 Pro"@,
        "小米手环8 Pro"@,
        "红米手表4"@,
        "小米手环5"@,
        "小米手环4"@,
        "Amazfit GTR 47mm"@,
        "小米手表 Lite"@,
    ]
}

pub open spec fn hidden_model(model: Seq<char>) -> bool {
    exists|i: int| 0 <= i < hidden_models().len() && eq_ignore_case(hidden_models()[i], trim(model))
}

pub open spec fn hidden_name(name: Seq<char>) -> bool {
    hidden_names().contains(trim(name))
}

pub open spec fn hidden_device(d: (Seq<char>, Seq<char>)) -> bool {
    hidden_model(d.0) || hidden_name(d.1)
}

/// The devices that are not hidden, in order.
pub open spec fn supported(d: Seq<(Seq<char>, Seq<char>)>) -> Seq<(Seq<char>, Seq<char>)>
    decreases d.len(),
{
    if d.len() == 0 {
        seq![]
    } else if hidden_device(d.last()) {
        supported(d.drop_last())
    } else {
        supported(d.drop_last()).push(d.last())
    }
}

/// Some device has this model, letters compared without case.
pub open spec fn has_model(d: Seq<(Seq<char>, Seq<char>)>, model: Seq<char>) -> bool {
    exists|i: int| 0 <= i < d.len() && eq_ignore_case(d[i].0, model)
}

/// The fallback devices appended, in order, when no listed device has their model.
pub open spec fn with_fallbacks(d: Seq<(Seq<char>, Seq<char>)>, f: Seq<(Seq<char>, Seq<char>)>) -> Seq<(Seq<char>, Seq<char>)>
    decreases f.len(),
{
    if f.len() == 0 {
        d
    } else if has_model(d, f[0].0) {
        with_fallbacks(d, f.drop_first())
    } else {
        with_fallbacks(d.push(f[0]), f.drop_first())
    }
}

/// The device list, given what the server sent (`None` when the request
/// failed): the server list topped up with the fallback devices, or else the
/// fallback devices; hidden models removed.
pub open spec fn device_list(remote: Option<Seq<(Seq<char>, Seq<char>)>>) -> Seq<(Seq<char>, Seq<char>)> {
    match remote {
        Some(d) => if d.len() > 0 {
            supported(with_fallbacks(d, fallback_devices()))
        } else {
            supported(fallback_devices())
        },
        None => supported(fallback_devices()),
    }
}

impl DeviceInfo {
    pub fn duplicate(&self) -> (r: DeviceInfo)
        ensures
            r == *self,
    {
        DeviceInfo { model: self.model.clone(), name: self.name.clone() }
    }
}

/// Whether the model is one of the hidden ones (ignoring case and surrounding space).
pub fn is_hidden_device_model(model: &str) -> (r: bool)
    ensures
        r == hidden_model(model@),
{
    let hidden: &[&str] = &["mi7", "mi8", "mi7pro", "mi8pro", "rw4", "mi5", "mi4", "gtr47", "gvlite"];
    proof {
        assert(hidden@.map_values(|k: &str| k@) =~= hidden_models());
    }
    let t = trim_chars(model);
    let mut i: usize = 0;
    while i < hidden.len()
        invariant
            i <= hidden@.len(),
            hidden@.map_values(|k: &str| k@) == hidden_models(),
            t@ == trim(model@),
            forall|k: int| 0 <= k < i ==> !eq_ignore_case(hidden_models()[k], t@),
        decreases hidden@.len() - i,
    {
        let h = chars_of(hidden[i]);
        if chars_eq_ignore_case(h.as_slice(), t.as_slice()) {
            assert(hidden_models()[i as int] == hidden@[i as int]@);
            return true;
        }
        i = i + 1;
    }
    false
}

/// Whether the name is one of the hidden ones (ignoring surrounding space).
pub fn is_hidden_device_name(name: &str) -> (r: bool)
    ensures
        r == hidden_name(name@),
{
    let hidden: &[&str] = &[
        "小米手环7",
        "小米手环8",
        "小米手环7 Pro",
        "小米手环8 Pro",
        "红米手表4",
        "小米手环5",
        "小米手环4",
        "Amazfit GTR 47mm",
        "小米手表 Lite",
    ];
    proof {
        assert(hidden@.map_values(|k: &str| k@) =~= hidden_names());
    }
    let t = trim_chars(name);
    let mut i: usize = 0;
    while i < hidden.len()
        invariant
            i <= hidden@.len(),
            hidden@.map_values(|k: &str| k@) == hidden_names(),
            t@ == trim(name@),
            forall|k: int| 0 <= k < i ==> hidden_names()[k] != t@,
        decreases hidden@.len() - i,
    {
        let h = chars_of(hidden[i]);
        if chars_eq(h.as_slice(), t.as_slice()) {
            assert(hidden_names()[i as int] == hidden@[i as int]@);
            return true;
        }
        i = i + 1;
    }
    false
}

pub fn is_hidden_device_info(device: &DeviceInfo) -> (r: bool)
    ensures
        r == hidden_device(dv(*device)),
{
    is_hidden_device_model(device.model.as_str()) || is_hidden_device_name(device.name.as_str())
}

/// The built-in device list.
pub fn fallback_device_list() -> (r: Vec<DeviceInfo>)
    ensures
        dvs(r@) == fallback_devices(),
{
    let table: &[(&str, &str)] = &[
        ("mi7", "小米手环7"),
        ("mi8", "小米手环8"),
        ("mi7pro", "小米手环7 Pro"),
        ("mi8pro", "小米手环8 Pro"),
        ("ws3", "小米手表S3/S4 Sport"),
        ("rw4", "红米手表4"),
        ("N66", "小米手环9"),
        ("N67", "小米手环9 Pro"),
        ("O62", "小米手表S4"),
        ("o65", "红米手表5"),
        ("o66", "小米手环10"),
        ("o67", "小米手环10 Pro"),
        ("p65", "红米手表6"),
        ("P62", "小米手表S5 46mm"),
        ("mi5", "小米手环5"),
        ("mi4", "小米手环4"),
        ("gtr47", "Amazfit GTR 47mm"),
        ("gvlite", "小米手表 Lite"),
    ];
    proof {
        assert(table@.map_values(|p: (&str, &str)| (p.0@, p.1@)) =~= fallback_devices());
    }
    let mut out: Vec<DeviceInfo> = Vec::new();
    let mut i: usize = 0;
    while i < table.len()
        invariant
            i <= table@.len(),
            table@.map_values(|p: (&str, &str)| (p.0@, p.1@)) == fallback_devices(),
            dvs(out@) == fallback_devices().subrange(0, i as int),
        decreases table@.len() - i,
    {
        let m = table[i].0;
        let n = table[i].1;
        let ghost before = dvs(out@);
        out.push(DeviceInfo { model: String::from_str(m), name: String::from_str(n) });
        proof {
            assert(table@.map_values(|p: (&str, &str)| (p.0@, p.1@))[i as int] == (m@, n@));
            assert(fallback_devices()[i as int] == (m@, n@));
            assert(dvs(out@) =~= before.push((m@, n@)));
            assert(dvs(out@) =~= fallback_devices().subrange(0, i + 1));
        }
        i = i + 1;
    }
    proof {
        assert(fallback_devices().subrange(0, table@.len() as int) =~= fallback_devices());
    }
    out
}

/// The devices that are not hidden, in order.
pub fn filter_supported_devices(devices: &[DeviceInfo]) -> (r: Vec<DeviceInfo>)
    ensures
        dvs(r@) == supported(dvs(devices@)),
{
    let mut out: Vec<DeviceInfo> = Vec::new();
    let mut i: usize = 0;
    while i < devices.len()
        invariant
            i <= devices@.len(),
            dvs(out@) == supported(dvs(devices@.subrange(0, i as int))),
        decreases devices@.len() - i,
    {
        proof {
            let s = dvs(devices@.subrange(0, i + 1));
            assert(s.drop_last() =~= dvs(devices@.subrange(0, i as int)));
            assert(s.last() == dv(devices@[i as int]));
        }
        if !is_hidden_device_info(&devices[i]) {
            out.push(devices[i].duplicate());
            proof {
                assert(dvs(out@) =~= supported(dvs(devices@.subrange(0, i as int))).push(
                    dv(devices@[i as int]),
                ));
            }
        }
        i = i + 1;
    }
    proof {
        assert(devices@.subrange(0, devices@.len() as int) =~= devices@);
    }
    out
}

/// Whether some device has the model, letters compared without case.
pub fn any_model_matches(devices: &[DeviceInfo], model: &[char]) -> (r: bool)
    ensures
        r == has_model(dvs(devices@), model@),
{
    let mut i: usize = 0;
    while i < devices.len()
        invariant
            i <= devices@.len(),
            forall|k: int| 0 <= k < i ==> !eq_ignore_case(#[trigger] devices@[k].model@, model@),
        decreases devices@.len() - i,
    {
        let m = chars_of(devices[i].model.as_str());
        if chars_eq_ignore_case(m.as_slice(), model) {
            assert(dvs(devices@)[i as int].0 == devices@[i as int].model@);
            return true;
        }
        i = i + 1;
    }
    proof {
        assert forall|k: int| 0 <= k < dvs(devices@).len() implies !eq_ignore_case(
            #[trigger] dvs(devices@)[k].0,
            model@,
        ) by {
            assert(dvs(devices@)[k].0 == devices@[k].model@);
        }
    }
    false
}

/// Appends each fallback device whose model is not listed yet.
pub fn append_missing_fallback_devices(devices: &mut Vec<DeviceInfo>)
    ensures
        dvs(final(devices)@) == with_fallbacks(dvs(old(devices)@), fallback_devices()),
{
    let fallback = fallback_device_list();
    let mut i: usize = 0;
    proof {
        assert(fallback_devices().skip(0) =~= fallback_devices());
    }
    while i < fallback.len()
        invariant
            i <= fallback@.len(),
            dvs(fallback@) == fallback_devices(),
            with_fallbacks(dvs(old(devices)@), fallback_devices()) == with_fallbacks(
                dvs(devices@),
                fallback_devices().skip(i as int),
            ),
        decreases fallback@.len() - i,
    {
        let ghost f = fallback_devices().skip(i as int);
        proof {
            assert(f[0] == dv(fallback@[i as int]));
            assert(f.drop_first() =~= fallback_devices().skip(i + 1));
        }
        let m = chars_of(fallback[i].model.as_str());
        if !any_model_matches(devices.as_slice(), m.as_slice()) {
            let ghost before = dvs(devices@);
            devices.push(fallback[i].duplicate());
            proof {
                assert(dvs(devices@) =~= before.push(f[0]));
            }
        }
        i = i + 1;
    }
    proof {
        assert(fallback_devices().skip(i as int) =~= Seq::<(Seq<char>, Seq<char>)>::empty());
    }
}

/// The device list, given the one the server sent (`None` when the
/// request failed).
pub fn resolve_device_list(remote: Option<Vec<DeviceInfo>>) -> (r: Vec<DeviceInfo>)
    ensures
        dvs(r@) == device_list(match remote { Some(d) => Some(dvs(d@)), None => None }),
{
    match remote {
        Some(mut d) => {
            if d.len() > 0 {
                append_missing_fallback_devices(&mut d);
                filter_supported_devices(d.as_slice())
            } else {
                filter_supported_devices(fallback_device_list().as_slice())
            }
        },
        None => filter_supported_devices(fallback_device_list().as_slice()),
    }
}


/// The distinct model codes (trimmed, first spelling kept, compared without case).
pub open spec fn device_types(d: Seq<(Seq<char>, Seq<char>)>) -> Seq<Seq<char>>
    decreases d.len(),
{
    if d.len() == 0 {
        seq![]
    } else {
        let r = device_types(d.drop_last());
        let m = trim(d.last().0);
        if m.len() == 0 || (exists|j: int| 0 <= j < r.len() && lower(r[j]) == lower(m)) {
            r
        } else {
            r.push(m)
        }
    }
}

pub open spec fn category_prefix() -> Seq<char> {
    "设备:"@
}

/// The model or name a category names: the text after the device prefix, or the whole text.
pub open spec fn category_candidate(t: Seq<char>) -> Seq<char> {
    if starts_with(t, category_prefix()) {
        trim(t.subrange(category_prefix().len() as int, t.len() as int))
    } else {
        t
    }
}

/// The model of the first device whose model (without case) or name is `cand`.
pub open spec fn first_matching_model(d: Seq<(Seq<char>, Seq<char>)>, cand: Seq<char>) -> Option<Seq<char>>
    decreases d.len(),
{
    if d.len() == 0 {
        None
    } else if eq_ignore_case(d[0].0, cand) || d[0].1 == cand {
        Some(d[0].0)
    } else {
        first_matching_model(d.drop_first(), cand)
    }
}

/// `match_device_category`.
pub open spec fn category_model(category: Seq<char>, d: Seq<(Seq<char>, Seq<char>)>) -> Option<Seq<char>> {
    let t = trim(category);
    if t.len() == 0 {
        None
    } else {
        first_matching_model(d, category_candidate(t))
    }
}

/// The model of the first category that names a device.
pub open spec fn first_category_model(cats: Seq<Seq<char>>, d: Seq<(Seq<char>, Seq<char>)>) -> Option<Seq<char>>
    decreases cats.len(),
{
    if cats.len() == 0 {
        None
    } else {
        match category_model(cats[0], d) {
            Some(m) => Some(m),
            None => first_category_model(cats.drop_first(), d),
        }
    }
}

/// The first device's model, `mi7` when there is none.
pub open spec fn first_model_or_default(d: Seq<(Seq<char>, Seq<char>)>) -> Seq<char> {
    if d.len() > 0 {
        d[0].0
    } else {
        "mi7"@
    }
}

/// `normalize_ui_device_type`: the requested model (trimmed) when a device has
/// it, else the first device's model, else `mi7`.
pub open spec fn ui_device_type(sel: Option<Seq<char>>, d: Seq<(Seq<char>, Seq<char>)>) -> Seq<char> {
    match sel {
        Some(s) => if trim(s).len() > 0 && has_model(d, trim(s)) {
            trim(s)
        } else {
            first_model_or_default(d)
        },
        None => first_model_or_default(d),
    }
}

/// `resolve_requested_device_type`.
pub open spec fn requested_device_type(
    configured: Seq<char>,
    cats: Seq<Seq<char>>,
    d: Seq<(Seq<char>, Seq<char>)>,
) -> Seq<char> {
    match first_category_model(cats, d) {
        Some(m) => m,
        None => if has_model(d, configured) {
            configured
        } else if d.len() > 0 {
            d[0].0
        } else {
            configured
        },
    }
}

/// The distinct model codes of the devices (`supported_device_types`).
pub fn supported_device_types(devices: &[DeviceInfo]) -> (r: Vec<String>)
    ensures
        r@.map_values(|s: String| s@) == device_types(dvs(devices@)),
{
    let mut out: Vec<String> = Vec::new();
    let mut seen: Vec<Vec<char>> = Vec::new();
    let mut i: usize = 0;
    while i < devices.len()
        invariant
            i <= devices@.len(),
            out@.map_values(|s: String| s@) == device_types(dvs(devices@.subrange(0, i as int))),
            seen@.len() == out@.len(),
            forall|j: int| 0 <= j < seen@.len() ==> seen@[j]@ == lower(#[trigger] out@[j]@),
        decreases devices@.len() - i,
    {
        let ghost prev = device_types(dvs(devices@.subrange(0, i as int)));
        proof {
            let s = dvs(devices@.subrange(0, i + 1));
            assert(s.drop_last() =~= dvs(devices@.subrange(0, i as int)));
            assert(s.last() == dv(devices@[i as int]));
        }
        let m = trim_chars(devices[i].model.as_str());
        if m.len() > 0 {
            let l = lower_chars(m.as_slice());
            let mut found = false;
            let mut j: usize = 0;
            while j < seen.len()
                invariant
                    j <= seen@.len(),
                    seen@.len() == out@.len(),
                    prev == out@.map_values(|s: String| s@),
                    l@ == lower(m@),
                    forall|k: int| 0 <= k < seen@.len() ==> seen@[k]@ == lower(#[trigger] out@[k]@),
                    found == exists|k: int| 0 <= k < j && lower(prev[k]) == lower(m@),
                decreases seen@.len() - j,
            {
                if chars_eq(seen[j].as_slice(), l.as_slice()) {
                    found = true;
                }
                proof {
                    assert(prev[j as int] == out@[j as int]@);
                }
                j = j + 1;
            }
            if !found {
                out.push(string_from_chars(m.as_slice()));
                seen.push(l);
                proof {
                    assert(out@.map_values(|s: String| s@) =~= prev.push(m@));
                }
            }
        }
        i = i + 1;
    }
    proof {
        assert(devices@.subrange(0, devices@.len() as int) =~= devices@);
    }
    out
}

/// `match_device_category`: the model of the device a category names.
pub fn match_device_category(category: &str, devices: &[DeviceInfo]) -> (r: Option<String>)
    ensures
        ov(r) == category_model(category@, dvs(devices@)),
{
    let t = trim_chars(category);
    if t.len() == 0 {
        return None;
    }
    let prefix = chars_of("设备:");
    let cand = if chars_starts_with(t.as_slice(), prefix.as_slice()) {
        let rest = slice_range(t.as_slice(), prefix.len(), t.len());
        trim_chars(string_from_chars(rest.as_slice()).as_str())
    } else {
        t
    };
    let cand_str = string_from_chars(cand.as_slice());
    let mut i: usize = 0;
    proof {
        assert(dvs(devices@).skip(0) =~= dvs(devices@));
    }
    while i < devices.len()
        invariant
            i <= devices@.len(),
            cand@ == category_candidate(trim(category@)),
            trim(category@).len() > 0,
            cand_str@ == cand@,
            first_matching_model(dvs(devices@), cand@) == first_matching_model(
                dvs(devices@).skip(i as int),
                cand@,
            ),
        decreases devices@.len() - i,
    {
        proof {
            let rest = dvs(devices@).skip(i as int);
            assert(rest[0] == dv(devices@[i as int]));
            assert(rest.drop_first() =~= dvs(devices@).skip(i + 1));
        }
        let m = chars_of(devices[i].model.as_str());
        if chars_eq_ignore_case(m.as_slice(), cand.as_slice()) || str_eq(
            devices[i].name.as_str(),
            cand_str.as_str(),
        ) {
            return Some(devices[i].model.clone());
        }
        i = i + 1;
    }
    None
}

/// The first device's model, `mi7` when there is none.
pub fn first_model_or_default_exec(devices: &[DeviceInfo]) -> (r: String)
    ensures
        r@ == first_model_or_default(dvs(devices@)),
{
    if devices.len() > 0 {
        devices[0].model.clone()
    } else {
        String::from_str("mi7")
    }
}

/// `normalize_ui_device_type`.
pub fn normalize_ui_device_type(selected: Option<&str>, devices: &[DeviceInfo]) -> (r: String)
    ensures
        r@ == ui_device_type(match selected { Some(s) => Some(s@), None => None }, dvs(devices@)),
{
    match selected {
        Some(s) => {
            let t = trim_chars(s);
            if t.len() > 0 && any_model_matches(devices, t.as_slice()) {
                return string_from_chars(t.as_slice());
            }
            first_model_or_default_exec(devices)
        },
        None => first_model_or_default_exec(devices),
    }
}

/// The model of the first category that names a device.
pub fn first_category_device(categories: &[String], devices: &[DeviceInfo]) -> (r: Option<String>)
    ensures
        ov(r) == first_category_model(categories@.map_values(|s: String| s@), dvs(devices@)),
{
    let ghost cats = categories@.map_values(|s: String| s@);
    let mut i: usize = 0;
    proof {
        assert(cats.skip(0) =~= cats);
    }
    while i < categories.len()
        invariant
            i <= categories@.len(),
            cats == categories@.map_values(|s: String| s@),
            first_category_model(cats, dvs(devices@)) == first_category_model(
                cats.skip(i as int),
                dvs(devices@),
            ),
        decreases categories@.len() - i,
    {
        proof {
            let rest = cats.skip(i as int);
            assert(rest[0] == categories@[i as int]@);
            assert(rest.drop_first() =~= cats.skip(i + 1));
        }
        match match_device_category(categories[i].as_str(), devices) {
            Some(m) => {
                return Some(m);
            },
            None => {},
        }
        i = i + 1;
    }
    None
}

/// `resolve_requested_device_type`: the device a category names, else the
/// configured model when listed, else the first device's model, else the
/// configured model.
pub fn resolve_requested_device_type(configured: &str, categories: &[String], devices: &[DeviceInfo]) -> (r: String)
    ensures
        r@ == requested_device_type(configured@, categories@.map_values(|s: String| s@), dvs(devices@)),
{
    match first_category_device(categories, devices) {
        Some(m) => m,
        None => {
            let c = chars_of(configured);
            if any_model_matches(devices, c.as_slice()) {
                String::from_str(configured)
            } else if devices.len() > 0 {
                devices[0].model.clone()
            } else {
                String::from_str(configured)
            }
        },
    }
}
} // verus!
