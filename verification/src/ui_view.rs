//! The work-bench's element tree. Each builder's contract is its spec twin
//! (`..._v`), made of the same element steps.
use vstd::prelude::*;
use crate::text::{trim, trim_chars, concat_str, str_eq};
use crate::numbers::{nat_text, u64_to_text, i64_to_text, int_text};
use crate::element::{ElementKind, UiEventKind, Style, Sv, UiElement, Ev, ev, evs, node};
use crate::session::{UiAccountSnapshot, UiDeviceChoice};
use crate::uploads::UiMyShareItem;
use crate::ui::{ActivePanel, NoticeTone, NoticeState, ProgressState, PickedAsset, UiState};

verus! {

// ----------------------------------------------------------------------------
// Basic pieces.
pub open spec fn div_v() -> Ev {
    node(ElementKind::Div, None)
}

pub fn div() -> (r: UiElement)
    ensures
        ev(r) == div_v(),
{
    UiElement::new(ElementKind::Div, None)
}

fn color(c: &str) -> (r: Style)
    ensures
        crate::element::sv(r) == Sv::TextColor(c@),
{
    Style::TextColor(String::from_str(c))
}

pub open spec fn title_v(c: Seq<char>, size: u32) -> Ev {
    node(ElementKind::P, Some(c)).with(Sv::Size(size)).with(Sv::TextColor("#f7f8fc"@))
}

pub fn title(content: &str, size: u32) -> (r: UiElement)
    ensures
        ev(r) == title_v(content@, size),
{
    UiElement::new(ElementKind::P, Some(content)).style(Style::Size(size)).style(color("#f7f8fc"))
}

pub open spec fn label_v(c: Seq<char>) -> Ev {
    node(ElementKind::Span, Some(c)).with(Sv::Size(12)).with(Sv::TextColor("#8d97b0"@)).with(Sv::Opacity(82))
}

pub fn label(content: &str) -> (r: UiElement)
    ensures
        ev(r) == label_v(content@),
{
    UiElement::new(ElementKind::Span, Some(content)).style(Style::Size(12)).style(color("#8d97b0")).style(
        Style::Opacity(82),
    )
}

/// Body text; `opacity` in hundredths.
pub open spec fn body_v(c: Seq<char>, size: u32, opacity: u32) -> Ev {
    node(ElementKind::P, Some(c)).with(Sv::Size(size)).with(Sv::TextColor("#c7cfde"@)).with(Sv::Opacity(opacity))
}

pub fn body(content: &str, size: u32, opacity: u32) -> (r: UiElement)
    ensures
        ev(r) == body_v(content@, size, opacity),
{
    UiElement::new(ElementKind::P, Some(content)).style(Style::Size(size)).style(color("#c7cfde")).style(
        Style::Opacity(opacity),
    )
}

pub open spec fn badge_v(c: Seq<char>, col: Seq<char>) -> Ev {
    node(ElementKind::Badge, Some(c)).prop("variant"@, "soft"@).prop("color"@, col).prop("radius"@, "full"@)
}

pub fn badge(content: &str, col: &str) -> (r: UiElement)
    ensures
        ev(r) == badge_v(content@, col@),
{
    UiElement::new(ElementKind::Badge, Some(content)).prop("variant", "soft").prop("color", col).prop(
        "radius",
        "full",
    )
}

pub open spec fn separator_v() -> Ev {
    node(ElementKind::Separator, None).prop("color"@, "gray"@).with(Sv::WidthFull).with(Sv::Opacity(28))
}

pub fn separator() -> (r: UiElement)
    ensures
        ev(r) == separator_v(),
{
    UiElement::new(ElementKind::Separator, None).prop("color", "gray").style(Style::WidthFull).style(
        Style::Opacity(28),
    )
}

/// A column: flex, column direction, then the gap.
pub open spec fn column_v(gap: u32) -> Ev {
    div_v().with(Sv::Flex).with(Sv::Column).with(Sv::Gap(gap))
}

fn column(gap: u32) -> (r: UiElement)
    ensures
        ev(r) == column_v(gap),
{
    div().style(Style::Flex).style(Style::Column).style(Style::Gap(gap))
}

pub open spec fn section_v(t: Seq<char>, d: Seq<char>) -> Ev {
    column_v(14).with(Sv::WidthFull).child(title_v(t, 22)).child(body_v(d, 14, 68))
}

pub fn section(t: &str, d: &str) -> (r: UiElement)
    ensures
        ev(r) == section_v(t@, d@),
{
    column(14).style(Style::WidthFull).child(title(t, 22)).child(body(d, 14, 68))
}

pub open spec fn subsection_title_v(c: Seq<char>) -> Ev {
    title_v(c, 16).with(Sv::Opacity(96))
}

pub fn subsection_title(c: &str) -> (r: UiElement)
    ensures
        ev(r) == subsection_title_v(c@),
{
    title(c, 16).style(Style::Opacity(96))
}

pub open spec fn field_props_v(e: Ev, value: Seq<char>, placeholder: Seq<char>) -> Ev {
    e.prop("default-value"@, value).prop("placeholder"@, placeholder).prop("size"@, "3"@).prop(
        "variant"@,
        "surface"@,
    ).prop("color"@, "gray"@).prop("radius"@, "large"@)
}

fn field_props(e: UiElement, value: &str, placeholder: &str) -> (r: UiElement)
    ensures
        ev(r) == field_props_v(ev(e), value@, placeholder@),
{
    e.prop("default-value", value).prop("placeholder", placeholder).prop("size", "3").prop(
        "variant",
        "surface",
    ).prop("color", "gray").prop("radius", "large")
}

pub open spec fn input_field_v(value: Seq<char>, placeholder: Seq<char>, event_id: Seq<char>, input_type: Seq<char>) -> Ev {
    field_props_v(node(ElementKind::Input, None), value, placeholder).prop("type"@, input_type).on(
        UiEventKind::Input,
        event_id,
    ).with(Sv::WidthFull)
}

pub fn input_field(value: &str, placeholder: &str, event_id: &str, input_type: &str) -> (r: UiElement)
    ensures
        ev(r) == input_field_v(value@, placeholder@, event_id@, input_type@),
{
    field_props(UiElement::new(ElementKind::Input, None), value, placeholder).prop("type", input_type).on(
        UiEventKind::Input,
        event_id,
    ).style(Style::WidthFull)
}

pub open spec fn textarea_field_v(value: Seq<char>, placeholder: Seq<char>, event_id: Seq<char>) -> Ev {
    field_props_v(node(ElementKind::Textarea, None), value, placeholder).on(UiEventKind::Input, event_id).with(
        Sv::WidthFull,
    )
}

pub fn textarea_field(value: &str, placeholder: &str, event_id: &str) -> (r: UiElement)
    ensures
        ev(r) == textarea_field_v(value@, placeholder@, event_id@),
{
    field_props(UiElement::new(ElementKind::Textarea, None), value, placeholder).on(UiEventKind::Input, event_id).style(
        Style::WidthFull,
    )
}

pub open spec fn action_button_v(l: Seq<char>, event_id: Seq<char>, col: Seq<char>, subtle: bool, disabled: bool) -> Ev {
    let b = node(ElementKind::Button, Some(l)).prop("variant"@, if subtle { "ghost"@ } else { "soft"@ }).prop(
        "color"@,
        col,
    ).prop("radius"@, "full"@).on(UiEventKind::Click, event_id);
    if disabled {
        b.disable()
    } else {
        b
    }
}

pub fn action_button(l: &str, event_id: &str, col: &str, subtle: bool, disabled: bool) -> (r: UiElement)
    ensures
        ev(r) == action_button_v(l@, event_id@, col@, subtle, disabled),
{
    let b = UiElement::new(ElementKind::Button, Some(l)).prop("variant", if subtle { "ghost" } else { "soft" }).prop(
        "color",
        col,
    ).prop("radius", "full").on(UiEventKind::Click, event_id);
    if disabled {
        b.disabled()
    } else {
        b
    }
}

/// The element with the given children added in order.
pub open spec fn with_children(e: Ev, cs: Seq<Ev>) -> Ev
    decreases cs.len(),
{
    if cs.len() == 0 {
        e
    } else {
        with_children(e, cs.drop_last()).child(cs.last())
    }
}

pub open spec fn row_base_v() -> Ev {
    div_v().with(Sv::Flex).with(Sv::Gap(10)).with(Sv::WidthFull).with(Sv::AlignCenter)
}

pub open spec fn action_row_v(buttons: Seq<Ev>) -> Ev {
    with_children(row_base_v(), buttons)
}

pub fn action_row(buttons: Vec<UiElement>) -> (r: UiElement)
    ensures
        ev(r) == action_row_v(evs(buttons@)),
{
    let ghost all = evs(buttons@);
    let total = buttons.len();
    let mut row = div().style(Style::Flex).style(Style::Gap(10)).style(Style::WidthFull).style(Style::AlignCenter);
    let mut rest = buttons;
    let mut k: usize = 0;
    let ghost orig = rest@;
    proof {
        assert(orig.skip(0) =~= orig);
        assert(all.take(0) =~= Seq::<Ev>::empty());
        lemma_evs_len(orig);
    }
    while rest.len() > 0
        invariant
            k <= orig.len(),
            orig.len() == total,
            all == evs(orig),
            all.len() == orig.len(),
            rest@ == orig.skip(k as int),
            ev(row) == with_children(row_base_v(), all.take(k as int)),
        decreases rest@.len(),
    {
        let b = rest.remove(0);
        proof {
            assert(orig.skip(k as int)[0] == b);
            assert(orig.skip(k as int).remove(0) =~= orig.skip(k + 1));
            lemma_evs_index(orig, k as int);
            assert(all.take(k + 1).drop_last() =~= all.take(k as int));
            assert(all.take(k + 1).last() == ev(b));
        }
        row = row.child(b);
        k = k + 1;
    }
    proof {
        lemma_evs_len(orig);
        assert(all.take(k as int) =~= all);
    }
    row
}

pub proof fn lemma_evs_len(s: Seq<UiElement>)
    ensures
        evs(s).len() == s.len(),
    decreases s.len(),
{
    if s.len() > 0 {
        lemma_evs_len(s.drop_last());
    }
}

pub proof fn lemma_evs_index(s: Seq<UiElement>, i: int)
    requires
        0 <= i < s.len(),
    ensures
        evs(s)[i] == ev(s[i]),
    decreases s.len(),
{
    lemma_evs_len(s);
    lemma_evs_len(s.drop_last());
    if i < s.len() - 1 {
        lemma_evs_index(s.drop_last(), i);
    }
}

pub open spec fn bool_text(b: bool) -> Seq<char> {
    if b {
        "true"@
    } else {
        "false"@
    }
}

pub fn bool_str(b: bool) -> (r: &'static str)
    ensures
        r@ == bool_text(b),
{
    if b {
        "true"
    } else {
        "false"
    }
}

pub proof fn lemma_with_children_push(e: Ev, s: Seq<Ev>, x: Ev)
    ensures
        with_children(e, s.push(x)) == with_children(e, s).child(x),
{
    assert(s.push(x).drop_last() =~= s);
}

fn push_el(v: &mut Vec<UiElement>, e: UiElement)
    ensures
        evs(final(v)@) == evs(old(v)@).push(ev(e)),
{
    let ghost before = v@;
    v.push(e);
    proof {
        assert(v@.drop_last() =~= before);
    }
}

fn row2(a: UiElement, b: UiElement) -> (r: UiElement)
    ensures
        ev(r) == action_row_v(seq![ev(a), ev(b)]),
{
    let mut v: Vec<UiElement> = Vec::new();
    let ghost (av, bv) = (ev(a), ev(b));
    push_el(&mut v, a);
    push_el(&mut v, b);
    proof {
        assert(evs(v@) =~= seq![av, bv]);
    }
    action_row(v)
}

fn row3(a: UiElement, b: UiElement, c: UiElement) -> (r: UiElement)
    ensures
        ev(r) == action_row_v(seq![ev(a), ev(b), ev(c)]),
{
    let mut v: Vec<UiElement> = Vec::new();
    let ghost (av, bv, cv) = (ev(a), ev(b), ev(c));
    push_el(&mut v, a);
    push_el(&mut v, b);
    push_el(&mut v, c);
    proof {
        assert(evs(v@) =~= seq![av, bv, cv]);
    }
    action_row(v)
}

fn row1(a: UiElement) -> (r: UiElement)
    ensures
        ev(r) == action_row_v(seq![ev(a)]),
{
    let mut v: Vec<UiElement> = Vec::new();
    let ghost av = ev(a);
    push_el(&mut v, a);
    proof {
        assert(evs(v@) =~= seq![av]);
    }
    action_row(v)
}

// ----------------------------------------------------------------------------
// The account panel.
pub open spec fn device_option_v(d: UiDeviceChoice) -> Ev {
    node(ElementKind::SelectOption, Some(d.name@)).prop("value"@, d.model@)
}

pub open spec fn with_device_options(e: Ev, d: Seq<UiDeviceChoice>) -> Ev
    decreases d.len(),
{
    if d.len() == 0 {
        e
    } else {
        with_device_options(e, d.drop_last()).child(device_option_v(d.last()))
    }
}

pub open spec fn select_base_v(value: Seq<char>) -> Ev {
    node(ElementKind::Select, None).prop("value"@, value).prop("size"@, "3"@).prop("variant"@, "surface"@).prop(
        "color"@,
        "gray"@,
    ).prop("radius"@, "large"@).prop("position"@, "popper"@).prop("content-variant"@, "solid"@).prop(
        "placeholder"@,
        "选择上传目标设备"@,
    ).on(UiEventKind::Change, "field:device"@).with(Sv::WidthFull)
}

/// `build_device_select`: the device picker, one option per device.
pub open spec fn device_select_v(st: UiState) -> Ev {
    column_v(8).with(Sv::WidthFull).child(label_v("上传目标设备"@)).child(
        with_device_options(select_base_v(st.account.device_type@), st.devices@),
    )
}

pub fn build_device_select(st: &UiState) -> (r: UiElement)
    ensures
        ev(r) == device_select_v(*st),
{
    let mut select = UiElement::new(ElementKind::Select, None).prop("value", st.account.device_type.as_str()).prop(
        "size",
        "3",
    ).prop("variant", "surface").prop("color", "gray").prop("radius", "large").prop("position", "popper").prop(
        "content-variant",
        "solid",
    ).prop("placeholder", "选择上传目标设备").on(UiEventKind::Change, "field:device").style(Style::WidthFull);
    let ghost base = ev(select);
    let mut i: usize = 0;
    while i < st.devices.len()
        invariant
            i <= st.devices@.len(),
            base == select_base_v(st.account.device_type@),
            ev(select) == with_device_options(base, st.devices@.take(i as int)),
        decreases st.devices@.len() - i,
    {
        let d = &st.devices[i];
        select = select.child(UiElement::new(ElementKind::SelectOption, Some(d.name.as_str())).prop("value", d.model.as_str()));
        proof {
            let t = st.devices@.take(i + 1);
            assert(t.drop_last() =~= st.devices@.take(i as int));
            assert(t.last() == st.devices@[i as int]);
        }
        i = i + 1;
    }
    proof {
        assert(st.devices@.take(i as int) =~= st.devices@);
    }
    column(8).style(Style::WidthFull).child(label("上传目标设备")).child(select)
}

pub open spec fn empty_hint() -> Seq<char> {
    "登录后可以上传资源、管理自己的社区内容，并和前端 provider 共用同一份会话。"@
}

/// `build_account_status`: badges for the login, the device and a donor;
/// the session line or the hint; the last login error.
pub open spec fn account_status_v(a: UiAccountSnapshot) -> Ev {
    let b0 = div_v().with(Sv::Flex).with(Sv::Gap(10)).with(Sv::WidthFull).child(
        badge_v(if a.logged_in { "已登录"@ } else { "未登录"@ }, if a.logged_in { "green"@ } else { "gray"@ }),
    ).child(badge_v(a.device_name@, "blue"@));
    let badges = if a.donation@ == "1"@ {
        b0.child(badge_v("赞助用户"@, "amber"@))
    } else {
        b0
    };
    let c0 = column_v(10).with(Sv::WidthFull).child(badges);
    let c1 = match a.nickname {
        Some(n) => c0.child(
            body_v(
                "当前会话："@ + n@ + " · "@ + match a.openid_masked {
                    Some(m) => m@,
                    None => "未提供 openid"@,
                },
                14,
                82,
            ),
        ),
        None => c0.child(body_v(empty_hint(), 14, 62)),
    };
    match a.last_error {
        Some(e) => c1.child(body_v("最近一次登录失败："@ + e@, 13, 88).with(Sv::TextColor("#ff6b82"@))),
        None => c1,
    }
}

pub fn build_account_status(st: &UiState) -> (r: UiElement)
    ensures
        ev(r) == account_status_v(st.account),
{
    let a = &st.account;
    let mut badges = div().style(Style::Flex).style(Style::Gap(10)).style(Style::WidthFull).child(
        badge(if a.logged_in { "已登录" } else { "未登录" }, if a.logged_in { "green" } else { "gray" }),
    ).child(badge(a.device_name.as_str(), "blue"));
    if str_eq(a.donation.as_str(), "1") {
        badges = badges.child(badge("赞助用户", "amber"));
    }
    let mut container = column(10).style(Style::WidthFull).child(badges);
    match &a.nickname {
        Some(n) => {
            let masked = match &a.openid_masked {
                Some(m) => m.as_str(),
                None => "未提供 openid",
            };
            let t1 = concat_str("当前会话：", n.as_str());
            let t2 = concat_str(t1.as_str(), " · ");
            let t3 = concat_str(t2.as_str(), masked);
            container = container.child(body(t3.as_str(), 14, 82));
        },
        None => {
            container = container.child(
                body("登录后可以上传资源、管理自己的社区内容，并和前端 provider 共用同一份会话。", 14, 62),
            );
        },
    }
    match &a.last_error {
        Some(e) => {
            let t = concat_str("最近一次登录失败：", e.as_str());
            container = container.child(body(t.as_str(), 13, 88).style(color("#ff6b82")));
        },
        None => {},
    }
    container
}

/// `build_account_panel`.
pub open spec fn account_panel_v(st: UiState) -> Ev {
    let busy = st.busy;
    section_v("账号与会话"@, "这里的登录会直接复用给 provider 浏览、下载与上传管理。"@).child(device_select_v(st)).child(
        account_status_v(st.account),
    ).child(separator_v()).child(subsection_title_v("账号密码登录"@)).child(
        input_field_v(st.login_username@, "米坛账号"@, "field:login.username"@, "text"@).with(Sv::WidthFull),
    ).child(
        input_field_v(st.login_password@, "密码"@, "field:login.password"@, "password"@).with(Sv::WidthFull),
    ).child(action_row_v(seq![action_button_v("登录"@, "action:login.password"@, "blue"@, false, busy)])).child(
        separator_v(),
    ).child(subsection_title_v("网页登录 / APP 授权码登录"@)).child(
        body_v(
            "AstroBox 里无法像原 app 那样直接接管 OAuth 回跳，因此需要先打开米坛授权页，再把回调链接里的 code 或整个链接粘回来。"@,
            13,
            64,
        ),
    ).child(
        textarea_field_v(st.login_code@, "粘贴 code 或完整回调链接"@, "field:login.code"@).with(Sv::WidthFull).with(
            Sv::MinHeight(92),
        ),
    ).child(
        action_row_v(
            seq![
                action_button_v("打开授权页"@, "action:oauth.open"@, "gray"@, true, busy),
                action_button_v("使用 code 登录"@, "action:login.code"@, "blue"@, false, busy),
            ],
        ),
    ).child(separator_v()).child(subsection_title_v("手动会话注入"@)).child(
        body_v(
            "如果你已经从别处拿到了 openid 和 valid_token，这里可以直接注入到插件会话里，不需要再次走登录。"@,
            13,
            64,
        ),
    ).child(input_field_v(st.manual_openid@, "openid"@, "field:manual.openid"@, "text"@)).child(
        input_field_v(st.manual_token@, "valid_token"@, "field:manual.token"@, "password"@).with(Sv::WidthFull),
    ).child(
        input_field_v(st.manual_nickname@, "昵称（可选）"@, "field:manual.nickname"@, "text"@).with(Sv::WidthFull),
    ).child(
        action_row_v(
            seq![
                action_button_v("应用会话"@, "action:login.manual"@, "blue"@, false, busy),
                action_button_v("退出登录"@, "action:logout"@, "red"@, true, busy),
                action_button_v("清理插件缓存"@, "action:cache.clear"@, "gray"@, true, busy),
            ],
        ),
    ).child(
        body_v(
            "上传与“我的上传”接口都依赖登录态。未登录时 provider 仍可浏览公开资源，但无法管理个人内容。"@,
            13,
            58,
        ),
    )
}

pub fn build_account_panel(st: &UiState) -> (r: UiElement)
    ensures
        ev(r) == account_panel_v(*st),
{
    let busy = st.busy;
    let mut panel = section("账号与会话", "这里的登录会直接复用给 provider 浏览、下载与上传管理。");
    panel = panel.child(build_device_select(st));
    panel = panel.child(build_account_status(st));
    panel = panel.child(separator());
    panel = panel.child(subsection_title("账号密码登录"));
    panel = panel.child(
        input_field(st.login_username.as_str(), "米坛账号", "field:login.username", "text").style(Style::WidthFull),
    );
    panel = panel.child(
        input_field(st.login_password.as_str(), "密码", "field:login.password", "password").style(Style::WidthFull),
    );
    panel = panel.child(row1(action_button("登录", "action:login.password", "blue", false, busy)));
    panel = panel.child(separator());
    panel = panel.child(subsection_title("网页登录 / APP 授权码登录"));
    panel = panel.child(
        body(
            "AstroBox 里无法像原 app 那样直接接管 OAuth 回跳，因此需要先打开米坛授权页，再把回调链接里的 code 或整个链接粘回来。",
            13,
            64,
        ),
    );
    panel = panel.child(
        textarea_field(st.login_code.as_str(), "粘贴 code 或完整回调链接", "field:login.code").style(Style::WidthFull).style(
            Style::MinHeight(92),
        ),
    );
    panel = panel.child(
        row2(
            action_button("打开授权页", "action:oauth.open", "gray", true, busy),
            action_button("使用 code 登录", "action:login.code", "blue", false, busy),
        ),
    );
    panel = panel.child(separator());
    panel = panel.child(subsection_title("手动会话注入"));
    panel = panel.child(
        body(
            "如果你已经从别处拿到了 openid 和 valid_token，这里可以直接注入到插件会话里，不需要再次走登录。",
            13,
            64,
        ),
    );
    panel = panel.child(input_field(st.manual_openid.as_str(), "openid", "field:manual.openid", "text"));
    panel = panel.child(
        input_field(st.manual_token.as_str(), "valid_token", "field:manual.token", "password").style(Style::WidthFull),
    );
    panel = panel.child(
        input_field(st.manual_nickname.as_str(), "昵称（可选）", "field:manual.nickname", "text").style(Style::WidthFull),
    );
    panel = panel.child(
        row3(
            action_button("应用会话", "action:login.manual", "blue", false, busy),
            action_button("退出登录", "action:logout", "red", true, busy),
            action_button("清理插件缓存", "action:cache.clear", "gray", true, busy),
        ),
    );
    panel = panel.child(
        body(
            "上传与“我的上传”接口都依赖登录态。未登录时 provider 仍可浏览公开资源，但无法管理个人内容。",
            13,
            58,
        ),
    );
    panel
}

// ----------------------------------------------------------------------------
// The upload panel.
pub open spec fn switch_row_v(t: Seq<char>, d: Seq<char>, event_id: Seq<char>, checked: bool) -> Ev {
    div_v().with(Sv::Flex).with(Sv::WidthFull).with(Sv::Gap(12)).with(Sv::AlignCenter).child(
        node(ElementKind::Switch, None).prop("checked"@, bool_text(checked)).prop("color"@, "blue"@).on(
            UiEventKind::Change,
            event_id,
        ),
    ).child(column_v(4).child(title_v(t, 15)).child(body_v(d, 12, 52)))
}

pub fn build_switch_row(t: &str, d: &str, event_id: &str, checked: bool) -> (r: UiElement)
    ensures
        ev(r) == switch_row_v(t@, d@, event_id@, checked),
{
    div().style(Style::Flex).style(Style::WidthFull).style(Style::Gap(12)).style(Style::AlignCenter).child(
        UiElement::new(ElementKind::Switch, None).prop("checked", bool_str(checked)).prop("color", "blue").on(
            UiEventKind::Change,
            event_id,
        ),
    ).child(column(4).child(title(t, 15)).child(body(d, 12, 52)))
}

pub open spec fn picker_image_v(url: Seq<char>, opacity: u32) -> Ev {
    node(ElementKind::Image, Some(url)).with(Sv::Width(144)).with(Sv::Height(144)).with(Sv::Radius(16)).with(
        Sv::Opacity(opacity),
    )
}

fn picker_image(url: &str, opacity: u32) -> (r: UiElement)
    ensures
        ev(r) == picker_image_v(url@, opacity),
{
    UiElement::new(ElementKind::Image, Some(url)).style(Style::Width(144)).style(Style::Height(144)).style(
        Style::Radius(16),
    ).style(Style::Opacity(opacity))
}

/// `build_file_picker_line`: the picker's title; a pick button and, with a
/// file or an online preview, a clear button; the picked file's name and
/// size, or else a note on the online preview (with the image, for images);
/// and for a picked image its preview.
pub open spec fn file_picker_line_v(
    l: Seq<char>,
    local: Option<PickedAsset>,
    remote: Option<Seq<char>>,
    pick_event: Seq<char>,
    clear_event: Seq<char>,
    is_image: bool,
    busy: bool,
) -> Ev {
    let line0 = column_v(8).with(Sv::WidthFull).child(title_v(l, 15));
    let pick = action_button_v("选择文件"@, pick_event, "blue"@, true, busy);
    let buttons = if local is Some || remote is Some {
        seq![pick, action_button_v("清空"@, clear_event, "gray"@, true, busy)]
    } else {
        seq![pick]
    };
    let line1 = line0.child(action_row_v(buttons));
    let line2 = match local {
        Some(a) => line1.child(
            div_v().with(Sv::Flex).with(Sv::Gap(8)).with(Sv::AlignCenter).with(Sv::WidthFull).child(
                badge_v("已选择"@, "green"@),
            ).child(body_v(a.name@ + " · "@ + a.size_text@, 13, 76).with(Sv::WidthFull)),
        ),
        None => match remote {
            Some(u) => if trim(u).len() > 0 {
                let l2 = line1.child(body_v("当前线上资源将作为回显参考。"@, 13, 58));
                if is_image {
                    l2.child(picker_image_v(u, 94))
                } else {
                    l2
                }
            } else {
                line1
            },
            None => line1,
        },
    };
    if is_image {
        match local {
            Some(a) => match a.preview_url {
                Some(p) => line2.child(picker_image_v(p@, 96)),
                None => line2,
            },
            None => line2,
        }
    } else {
        line2
    }
}

pub fn build_file_picker_line(
    l: &str,
    local: Option<&PickedAsset>,
    remote: Option<&str>,
    pick_event: &str,
    clear_event: &str,
    is_image: bool,
    busy: bool,
) -> (r: UiElement)
    ensures
        ev(r) == file_picker_line_v(
            l@,
            match local { Some(a) => Some(*a), None => None },
            match remote { Some(u) => Some(u@), None => None },
            pick_event@,
            clear_event@,
            is_image,
            busy,
        ),
{
    let mut line = column(8).style(Style::WidthFull).child(title(l, 15));
    let pick = action_button("选择文件", pick_event, "blue", true, busy);
    let actions = if local.is_some() || remote.is_some() {
        row2(pick, action_button("清空", clear_event, "gray", true, busy))
    } else {
        row1(pick)
    };
    line = line.child(actions);
    match local {
        Some(a) => {
            let t1 = concat_str(a.name.as_str(), " · ");
            let t2 = concat_str(t1.as_str(), a.size_text.as_str());
            line = line.child(
                div().style(Style::Flex).style(Style::Gap(8)).style(Style::AlignCenter).style(Style::WidthFull).child(
                    badge("已选择", "green"),
                ).child(body(t2.as_str(), 13, 76).style(Style::WidthFull)),
            );
        },
        None => match remote {
            Some(u) => {
                if trim_chars(u).len() > 0 {
                    line = line.child(body("当前线上资源将作为回显参考。", 13, 58));
                    if is_image {
                        line = line.child(picker_image(u, 94));
                    }
                }
            },
            None => {},
        },
    }
    if is_image {
        match local {
            Some(a) => match &a.preview_url {
                Some(p) => {
                    line = line.child(picker_image(p.as_str(), 96));
                },
                None => {},
            },
            None => {},
        }
    }
    line
}

fn opt_str(o: &Option<String>) -> (r: Option<&str>)
    ensures
        match r { Some(s) => Some(s@), None => None } == match *o { Some(s) => Some(s@), None => None },
{
    match o {
        Some(s) => Some(s.as_str()),
        None => None,
    }
}

fn opt_asset(o: &Option<PickedAsset>) -> (r: Option<&PickedAsset>)
    ensures
        match r { Some(a) => Some(*a), None => None } == *o,
{
    match o {
        Some(a) => Some(a),
        None => None,
    }
}

pub open spec fn text_opt(o: Option<String>) -> Option<Seq<char>> {
    match o {
        Some(s) => Some(s@),
        None => None,
    }
}

/// The head of the upload panel: the entry being edited (with a way out),
/// or the note on new uploads.
pub open spec fn upload_head_v(st: UiState) -> Ev {
    let p0 = section_v(
        "上传资源"@,
        "支持原 app 里的预览图上传、表盘资源上传，以及对已上传条目的重新提交。"@,
    );
    match st.upload_edit.upload_id {
        Some(id) => p0.child(
            action_row_v(
                seq![
                    badge_v("编辑条目 #"@ + id@, "amber"@),
                    action_button_v("退出编辑"@, "action:upload.reset"@, "gray"@, true, st.busy),
                ],
            ),
        ),
        None => p0.child(body_v("新建上传默认会提交到当前选中的设备类型。"@, 13, 62)),
    }
}

fn build_upload_head(st: &UiState) -> (r: UiElement)
    ensures
        ev(r) == upload_head_v(*st),
{
    let panel = section("上传资源", "支持原 app 里的预览图上传、表盘资源上传，以及对已上传条目的重新提交。");
    match &st.upload_edit.upload_id {
        Some(id) => {
            let t = concat_str("编辑条目 #", id.as_str());
            panel.child(
                row2(badge(t.as_str(), "amber"), action_button("退出编辑", "action:upload.reset", "gray", true, st.busy)),
            )
        },
        None => panel.child(body("新建上传默认会提交到当前选中的设备类型。", 13, 62)),
    }
}

/// The form fields and the switches with their always-on-display pickers.
pub open spec fn upload_form_v(st: UiState) -> Ev {
    let busy = st.busy;
    let p1 = upload_head_v(st).child(device_select_v(st)).child(
        input_field_v(st.upload_name@, "资源名称"@, "field:upload.name"@, "text"@),
    ).child(
        textarea_field_v(st.upload_desc@, "资源简介 / 更新说明"@, "field:upload.desc"@).with(Sv::MinHeight(128)).with(
            Sv::WidthFull,
        ),
    ).child(
        input_field_v(st.upload_mitantid@, "关联米坛帖子/资源 ID（可选）"@, "field:upload.mitantid"@, "text"@),
    ).child(
        switch_row_v("米坛链接按帖子处理"@, "关闭后会按资源页处理。"@, "toggle:upload.thread"@, st.upload_use_thread_link),
    ).child(
        switch_row_v("静态 PNG 预览"@, "和原 app 的 staticPng 参数保持一致。"@, "toggle:upload.static-png"@, st.upload_static_png),
    ).child(
        switch_row_v("启用 AOD 预览 1"@, "动态表盘可额外上传 Always-On 预览。"@, "toggle:upload.aod1"@, st.upload_enable_aod1),
    );
    let p2 = if st.upload_enable_aod1 {
        p1.child(
            file_picker_line_v(
                "AOD 预览 1"@,
                st.upload_preview_aod1,
                text_opt(st.upload_edit.remote_preview_aod_url),
                "action:upload.pick.aod1"@,
                "action:upload.clear.aod1"@,
                true,
                busy,
            ),
        )
    } else {
        p1
    };
    let p3 = p2.child(switch_row_v("启用 AOD 预览 2"@, "多状态表盘可继续追加。"@, "toggle:upload.aod2"@, st.upload_enable_aod2));
    let p4 = if st.upload_enable_aod2 {
        p3.child(
            file_picker_line_v(
                "AOD 预览 2"@,
                st.upload_preview_aod2,
                text_opt(st.upload_edit.remote_preview_aod2_url),
                "action:upload.pick.aod2"@,
                "action:upload.clear.aod2"@,
                true,
                busy,
            ),
        )
    } else {
        p3
    };
    let p5 = p4.child(
        switch_row_v("启用 AOD 预览 3"@, "极少数动态表盘需要第三张。"@, "toggle:upload.aod3"@, st.upload_enable_aod3),
    );
    if st.upload_enable_aod3 {
        p5.child(
            file_picker_line_v(
                "AOD 预览 3"@,
                st.upload_preview_aod3,
                text_opt(st.upload_edit.remote_preview_aod3_url),
                "action:upload.pick.aod3"@,
                "action:upload.clear.aod3"@,
                true,
                busy,
            ),
        )
    } else {
        p5
    }
}

fn build_upload_form(st: &UiState) -> (r: UiElement)
    ensures
        ev(r) == upload_form_v(*st),
{
    let busy = st.busy;
    let mut panel = build_upload_head(st);
    panel = panel.child(build_device_select(st));
    panel = panel.child(input_field(st.upload_name.as_str(), "资源名称", "field:upload.name", "text"));
    panel = panel.child(
        textarea_field(st.upload_desc.as_str(), "资源简介 / 更新说明", "field:upload.desc").style(Style::MinHeight(128)).style(
            Style::WidthFull,
        ),
    );
    panel = panel.child(
        input_field(st.upload_mitantid.as_str(), "关联米坛帖子/资源 ID（可选）", "field:upload.mitantid", "text"),
    );
    panel = panel.child(
        build_switch_row("米坛链接按帖子处理", "关闭后会按资源页处理。", "toggle:upload.thread", st.upload_use_thread_link),
    );
    panel = panel.child(
        build_switch_row("静态 PNG 预览", "和原 app 的 staticPng 参数保持一致。", "toggle:upload.static-png", st.upload_static_png),
    );
    panel = panel.child(
        build_switch_row("启用 AOD 预览 1", "动态表盘可额外上传 Always-On 预览。", "toggle:upload.aod1", st.upload_enable_aod1),
    );
    if st.upload_enable_aod1 {
        panel = panel.child(
            build_file_picker_line(
                "AOD 预览 1",
                opt_asset(&st.upload_preview_aod1),
                opt_str(&st.upload_edit.remote_preview_aod_url),
                "action:upload.pick.aod1",
                "action:upload.clear.aod1",
                true,
                busy,
            ),
        );
    }
    panel = panel.child(build_switch_row("启用 AOD 预览 2", "多状态表盘可继续追加。", "toggle:upload.aod2", st.upload_enable_aod2));
    if st.upload_enable_aod2 {
        panel = panel.child(
            build_file_picker_line(
                "AOD 预览 2",
                opt_asset(&st.upload_preview_aod2),
                opt_str(&st.upload_edit.remote_preview_aod2_url),
                "action:upload.pick.aod2",
                "action:upload.clear.aod2",
                true,
                busy,
            ),
        );
    }
    panel = panel.child(
        build_switch_row("启用 AOD 预览 3", "极少数动态表盘需要第三张。", "toggle:upload.aod3", st.upload_enable_aod3),
    );
    if st.upload_enable_aod3 {
        panel = panel.child(
            build_file_picker_line(
                "AOD 预览 3",
                opt_asset(&st.upload_preview_aod3),
                opt_str(&st.upload_edit.remote_preview_aod3_url),
                "action:upload.pick.aod3",
                "action:upload.clear.aod3",
                true,
                busy,
            ),
        );
    }
    panel
}

/// `build_upload_panel`: the form, the face file and main preview pickers,
/// the submit and reset buttons, and the community's upload notes when there
/// are any.
pub open spec fn upload_panel_v(st: UiState) -> Ev {
    let busy = st.busy;
    let p = upload_form_v(st).child(separator_v()).child(
        file_picker_line_v(
            "资源文件"@,
            st.upload_binary,
            None,
            "action:upload.pick.binary"@,
            "action:upload.clear.binary"@,
            false,
            busy,
        ),
    ).child(
        file_picker_line_v(
            "主预览图"@,
            st.upload_preview_main,
            text_opt(st.upload_edit.remote_preview_url),
            "action:upload.pick.preview"@,
            "action:upload.clear.preview"@,
            true,
            busy,
        ),
    ).child(
        action_row_v(
            seq![
                action_button_v("提交上传"@, "action:upload.submit"@, "blue"@, false, busy),
                action_button_v("清空表单"@, "action:upload.reset"@, "gray"@, true, busy),
            ],
        ),
    );
    if trim(st.upload_tips@).len() > 0 {
        p.child(separator_v()).child(subsection_title_v("社区上传须知"@)).child(
            node(ElementKind::ScrollArea, None).with(Sv::WidthFull).with(Sv::MaxHeight(180)).child(
                body_v(st.upload_tips@, 13, 60).with(Sv::WidthFull).with(Sv::PaddingRight(10)),
            ),
        )
    } else {
        p
    }
}

pub fn build_upload_panel(st: &UiState) -> (r: UiElement)
    ensures
        ev(r) == upload_panel_v(*st),
{
    let busy = st.busy;
    let mut panel = build_upload_form(st);
    panel = panel.child(separator());
    panel = panel.child(
        build_file_picker_line(
            "资源文件",
            opt_asset(&st.upload_binary),
            None,
            "action:upload.pick.binary",
            "action:upload.clear.binary",
            false,
            busy,
        ),
    );
    panel = panel.child(
        build_file_picker_line(
            "主预览图",
            opt_asset(&st.upload_preview_main),
            opt_str(&st.upload_edit.remote_preview_url),
            "action:upload.pick.preview",
            "action:upload.clear.preview",
            true,
            busy,
        ),
    );
    panel = panel.child(
        row2(
            action_button("提交上传", "action:upload.submit", "blue", false, busy),
            action_button("清空表单", "action:upload.reset", "gray", true, busy),
        ),
    );
    if trim_chars(st.upload_tips.as_str()).len() > 0 {
        panel = panel.child(separator());
        panel = panel.child(subsection_title("社区上传须知"));
        panel = panel.child(
            UiElement::new(ElementKind::ScrollArea, None).style(Style::WidthFull).style(Style::MaxHeight(180)).child(
                body(st.upload_tips.as_str(), 13, 60).style(Style::WidthFull).style(Style::PaddingRight(10)),
            ),
        );
    }
    panel
}

// ----------------------------------------------------------------------------
// The manage panel.
pub open spec fn review_badge_v(is_review: i64) -> Ev {
    if is_review == 1 {
        badge_v("审核通过"@, "green"@)
    } else if is_review == 0 {
        badge_v("未通过"@, "red"@)
    } else {
        badge_v("审核中"@, "amber"@)
    }
}

pub open spec fn item_event(prefix: Seq<char>, id: i64) -> Seq<char> {
    prefix + int_text(id as int)
}

/// `build_manage_item`: the name, badges for the device, sharing and review,
/// the description when not blank, the download count, the preview when
/// there is one, and the item's actions (the reason only for a refused one).
pub open spec fn manage_item_v(item: UiMyShareItem, busy: bool) -> Ev {
    let meta = div_v().with(Sv::Flex).with(Sv::Gap(8)).with(Sv::WidthFull).child(badge_v(item.device_name@, "blue"@)).child(
        badge_v(if item.is_share { "已公开"@ } else { "未公开"@ }, if item.is_share { "green"@ } else { "gray"@ }),
    ).child(review_badge_v(item.is_review));
    let r0 = column_v(10).with(Sv::WidthFull).child(title_v(item.display_name@, 18).with(Sv::WidthFull)).child(meta);
    let r1 = if trim(item.description@).len() > 0 {
        r0.child(body_v(item.description@, 14, 68))
    } else {
        r0
    };
    let r2 = r1.child(body_v("下载 "@ + nat_text(item.download_times as nat) + " 次"@, 13, 52));
    let r3 = if trim(item.preview_url@).len() > 0 {
        r2.child(
            node(ElementKind::Image, Some(item.preview_url@)).with(Sv::Width(160)).with(Sv::Height(160)).with(
                Sv::Radius(18),
            ).with(Sv::Opacity(96)),
        )
    } else {
        r2
    };
    r3.child(
        action_row_v(
            seq![
                action_button_v(
                    if item.is_share { "下架"@ } else { "公开"@ },
                    item_event("action:manage.share:"@, item.id),
                    if item.is_share { "red"@ } else { "green"@ },
                    true,
                    busy,
                ),
                action_button_v("顶贴"@, item_event("action:manage.top:"@, item.id), "blue"@, true, busy),
                action_button_v("载入表单"@, item_event("action:manage.edit:"@, item.id), "gray"@, true, busy),
                action_button_v(
                    "驳回原因"@,
                    item_event("action:manage.reason:"@, item.id),
                    "gray"@,
                    true,
                    busy || item.is_review != 0,
                ),
                action_button_v("删除"@, item_event("action:manage.delete:"@, item.id), "red"@, true, busy),
            ],
        ),
    )
}

fn event_for(prefix: &str, id: i64) -> (r: String)
    ensures
        r@ == item_event(prefix@, id),
{
    let t = i64_to_text(id);
    concat_str(prefix, t.as_str())
}

pub fn build_manage_item(item: &UiMyShareItem, busy: bool) -> (r: UiElement)
    ensures
        ev(r) == manage_item_v(*item, busy),
{
    let review = if item.is_review == 1 {
        badge("审核通过", "green")
    } else if item.is_review == 0 {
        badge("未通过", "red")
    } else {
        badge("审核中", "amber")
    };
    let meta = div().style(Style::Flex).style(Style::Gap(8)).style(Style::WidthFull).child(
        badge(item.device_name.as_str(), "blue"),
    ).child(
        badge(if item.is_share { "已公开" } else { "未公开" }, if item.is_share { "green" } else { "gray" }),
    ).child(review);
    let mut row = column(10).style(Style::WidthFull).child(title(item.display_name.as_str(), 18).style(Style::WidthFull)).child(
        meta,
    );
    if trim_chars(item.description.as_str()).len() > 0 {
        row = row.child(body(item.description.as_str(), 14, 68));
    }
    let n = u64_to_text(item.download_times);
    let t1 = concat_str("下载 ", n.as_str());
    let t2 = concat_str(t1.as_str(), " 次");
    row = row.child(body(t2.as_str(), 13, 52));
    if trim_chars(item.preview_url.as_str()).len() > 0 {
        row = row.child(
            UiElement::new(ElementKind::Image, Some(item.preview_url.as_str())).style(Style::Width(160)).style(
                Style::Height(160),
            ).style(Style::Radius(18)).style(Style::Opacity(96)),
        );
    }
    let share = event_for("action:manage.share:", item.id);
    let top = event_for("action:manage.top:", item.id);
    let edit = event_for("action:manage.edit:", item.id);
    let reason = event_for("action:manage.reason:", item.id);
    let delete = event_for("action:manage.delete:", item.id);
    let mut v: Vec<UiElement> = Vec::new();
    let b1 = action_button(
        if item.is_share { "下架" } else { "公开" },
        share.as_str(),
        if item.is_share { "red" } else { "green" },
        true,
        busy,
    );
    let b2 = action_button("顶贴", top.as_str(), "blue", true, busy);
    let b3 = action_button("载入表单", edit.as_str(), "gray", true, busy);
    let b4 = action_button("驳回原因", reason.as_str(), "gray", true, busy || item.is_review != 0);
    let b5 = action_button("删除", delete.as_str(), "red", true, busy);
    let ghost bs = seq![ev(b1), ev(b2), ev(b3), ev(b4), ev(b5)];
    push_el(&mut v, b1);
    push_el(&mut v, b2);
    push_el(&mut v, b3);
    push_el(&mut v, b4);
    push_el(&mut v, b5);
    proof {
        assert(evs(v@) =~= bs);
    }
    row.child(action_row(v))
}

/// The list's children: each item, with a separator between two items.
pub open spec fn manage_list_children(items: Seq<UiMyShareItem>, busy: bool, total: int) -> Seq<Ev>
    decreases items.len(),
{
    if items.len() == 0 {
        seq![]
    } else {
        let r = manage_list_children(items.drop_last(), busy, total).push(manage_item_v(items.last(), busy));
        if items.len() != total {
            r.push(separator_v())
        } else {
            r
        }
    }
}

pub open spec fn manage_list_base_v() -> Ev {
    column_v(18).with(Sv::WidthFull)
}

/// `build_manage_panel`: refresh and load-more (the latter only while there
/// is more), then a sign-in hint, an empty-list hint, or the list.
pub open spec fn manage_panel_v(st: UiState) -> Ev {
    let p = section_v("我的上传"@, "这里补齐了原 app 里的列表、上下架、删除、顶贴和驳回原因查看能力。"@).child(
        action_row_v(
            seq![
                action_button_v("刷新列表"@, "action:manage.refresh"@, "blue"@, true, st.busy),
                action_button_v("加载更多"@, "action:manage.load-more"@, "gray"@, true, st.busy || !st.uploads_has_more),
            ],
        ),
    );
    if !st.account.logged_in {
        p.child(body_v("请先登录米坛账号，然后这里才会显示你的上传内容。"@, 14, 62))
    } else if st.uploads@.len() == 0 {
        p.child(body_v("还没有任何已上传资源。先去上传页提交一个新条目。"@, 14, 62))
    } else {
        p.child(
            node(ElementKind::ScrollArea, None).with(Sv::WidthFull).with(Sv::MaxHeight(720)).child(
                with_children(
                    manage_list_base_v(),
                    manage_list_children(st.uploads@, st.busy, st.uploads@.len() as int),
                ),
            ),
        )
    }
}

pub fn build_manage_panel(st: &UiState) -> (r: UiElement)
    ensures
        ev(r) == manage_panel_v(*st),
{
    let panel = section("我的上传", "这里补齐了原 app 里的列表、上下架、删除、顶贴和驳回原因查看能力。").child(
        row2(
            action_button("刷新列表", "action:manage.refresh", "blue", true, st.busy),
            action_button("加载更多", "action:manage.load-more", "gray", true, st.busy || !st.uploads_has_more),
        ),
    );
    if !st.account.logged_in {
        return panel.child(body("请先登录米坛账号，然后这里才会显示你的上传内容。", 14, 62));
    }
    if st.uploads.len() == 0 {
        return panel.child(body("还没有任何已上传资源。先去上传页提交一个新条目。", 14, 62));
    }
    let n = st.uploads.len();
    let mut list = column(18).style(Style::WidthFull);
    let mut i: usize = 0;
    proof {
        assert(st.uploads@.take(0) =~= Seq::<UiMyShareItem>::empty());
    }
    while i < n
        invariant
            i <= n,
            n == st.uploads@.len(),
            ev(list) == with_children(
                manage_list_base_v(),
                manage_list_children(st.uploads@.take(i as int), st.busy, n as int),
            ),
        decreases n - i,
    {
        let ghost prev = manage_list_children(st.uploads@.take(i as int), st.busy, n as int);
        let item_el = build_manage_item(&st.uploads[i], st.busy);
        proof {
            let t = st.uploads@.take(i + 1);
            assert(t.drop_last() =~= st.uploads@.take(i as int));
            assert(t.last() == st.uploads@[i as int]);
            lemma_with_children_push(manage_list_base_v(), prev, ev(item_el));
        }
        list = list.child(item_el);
        if i + 1 != n {
            proof {
                lemma_with_children_push(
                    manage_list_base_v(),
                    prev.push(manage_item_v(st.uploads@[i as int], st.busy)),
                    separator_v(),
                );
            }
            list = list.child(separator());
        }
        i = i + 1;
    }
    proof {
        assert(st.uploads@.take(n as int) =~= st.uploads@);
    }
    panel.child(
        UiElement::new(ElementKind::ScrollArea, None).style(Style::WidthFull).style(Style::MaxHeight(720)).child(list),
    )
}

// ----------------------------------------------------------------------------
// The frame.
pub open spec fn progress_block_v(p: ProgressState) -> Ev {
    column_v(8).with(Sv::WidthFull).child(body_v(p.label@, 13, 76)).child(
        node(ElementKind::Progress, None).prop("value"@, nat_text(p.value as nat)).prop("color"@, "blue"@).with(
            Sv::WidthFull,
        ),
    )
}

pub fn build_progress_block(p: &ProgressState) -> (r: UiElement)
    ensures
        ev(r) == progress_block_v(*p),
{
    let v = u64_to_text(p.value as u64);
    column(8).style(Style::WidthFull).child(body(p.label.as_str(), 13, 76)).child(
        UiElement::new(ElementKind::Progress, None).prop("value", v.as_str()).prop("color", "blue").style(
            Style::WidthFull,
        ),
    )
}

pub open spec fn tone_color(t: NoticeTone) -> Seq<char> {
    match t {
        NoticeTone::Info => "#95a0ba"@,
        NoticeTone::Success => "#68d391"@,
        NoticeTone::Error => "#ff6b82"@,
    }
}

pub open spec fn notice_v(n: NoticeState) -> Ev {
    body_v(n.message@, 14, 92).with(Sv::TextColor(tone_color(n.tone)))
}

pub fn build_notice(n: &NoticeState) -> (r: UiElement)
    ensures
        ev(r) == notice_v(*n),
{
    let c = match n.tone {
        NoticeTone::Info => "#95a0ba",
        NoticeTone::Success => "#68d391",
        NoticeTone::Error => "#ff6b82",
    };
    body(n.message.as_str(), 14, 92).style(color(c))
}

pub open spec fn hero_v() -> Ev {
    column_v(8).with(Sv::WidthFull).child(title_v("表盘自定义工具资源社区工作台"@, 30)).child(
        body_v("复刻表盘自定义工具App的资源管理功能，但限制在AstroBox当前支持的新设备范围内。"@, 15, 76),
    )
}

pub fn build_hero() -> (r: UiElement)
    ensures
        ev(r) == hero_v(),
{
    column(8).style(Style::WidthFull).child(title("表盘自定义工具资源社区工作台", 30)).child(
        body("复刻表盘自定义工具App的资源管理功能，但限制在AstroBox当前支持的新设备范围内。", 15, 76),
    )
}

pub open spec fn panel_value(p: ActivePanel) -> Seq<char> {
    match p {
        ActivePanel::Account => "account"@,
        ActivePanel::Upload => "upload"@,
        ActivePanel::Manage => "manage"@,
    }
}

pub fn active_panel_value(p: ActivePanel) -> (r: &'static str)
    ensures
        r@ == panel_value(p),
{
    match p {
        ActivePanel::Account => "account",
        ActivePanel::Upload => "upload",
        ActivePanel::Manage => "manage",
    }
}

pub open spec fn tab_trigger_v(l: Seq<char>, value: Seq<char>, event_id: Seq<char>) -> Ev {
    node(ElementKind::TabsTrigger, Some(l)).prop("value"@, value).on(UiEventKind::Click, event_id)
}

pub fn tab_trigger(l: &str, value: &str, event_id: &str) -> (r: UiElement)
    ensures
        ev(r) == tab_trigger_v(l@, value@, event_id@),
{
    UiElement::new(ElementKind::TabsTrigger, Some(l)).prop("value", value).on(UiEventKind::Click, event_id)
}

pub open spec fn tab_content_v(value: Seq<char>, panel: Ev) -> Ev {
    node(ElementKind::TabsContent, None).prop("value"@, value).with(Sv::PaddingTop(18)).child(panel)
}

fn tab_content(value: &str, panel: UiElement) -> (r: UiElement)
    ensures
        ev(r) == tab_content_v(value@, ev(panel)),
{
    UiElement::new(ElementKind::TabsContent, None).prop("value", value).style(Style::PaddingTop(18)).child(panel)
}

/// `build_tabs_shell`: the three tabs, the active one selected.
pub open spec fn tabs_shell_v(st: UiState) -> Ev {
    node(ElementKind::TabsRoot, None).prop("value"@, panel_value(st.active_panel)).prop("activation-mode"@, "manual"@).with(
        Sv::WidthFull,
    ).child(
        node(ElementKind::TabsList, None).prop("size"@, "2"@).prop("color"@, "blue"@).prop("justify"@, "start"@).with(
            Sv::WidthFull,
        ).child(tab_trigger_v("账号"@, "account"@, "tab:account"@)).child(
            tab_trigger_v("上传"@, "upload"@, "tab:upload"@),
        ).child(tab_trigger_v("我的上传"@, "manage"@, "tab:manage"@)),
    ).child(tab_content_v("account"@, account_panel_v(st))).child(tab_content_v("upload"@, upload_panel_v(st))).child(
        tab_content_v("manage"@, manage_panel_v(st)),
    )
}

pub fn build_tabs_shell(st: &UiState) -> (r: UiElement)
    ensures
        ev(r) == tabs_shell_v(*st),
{
    UiElement::new(ElementKind::TabsRoot, None).prop("value", active_panel_value(st.active_panel)).prop(
        "activation-mode",
        "manual",
    ).style(Style::WidthFull).child(
        UiElement::new(ElementKind::TabsList, None).prop("size", "2").prop("color", "blue").prop("justify", "start").style(
            Style::WidthFull,
        ).child(tab_trigger("账号", "account", "tab:account")).child(tab_trigger("上传", "upload", "tab:upload")).child(
            tab_trigger("我的上传", "manage", "tab:manage"),
        ),
    ).child(tab_content("account", build_account_panel(st))).child(tab_content("upload", build_upload_panel(st))).child(
        tab_content("manage", build_manage_panel(st)),
    )
}

/// `build_main_ui`: the page, with the running operation and the notice
/// above the tabs when there are any.
pub open spec fn main_ui_v(st: UiState) -> Ev {
    let r0 = div_v().with(Sv::Flex).with(Sv::Column).with(Sv::WidthFull).with(Sv::MaxWidth(960)).with(Sv::Padding(28)).with(
        Sv::Gap(18),
    ).with(Sv::AlignStart).prop("data-theme"@, "dark"@).child(hero_v());
    let r1 = match st.progress {
        Some(p) => r0.child(progress_block_v(p)),
        None => r0,
    };
    let r2 = match st.notice {
        Some(n) => r1.child(notice_v(n)),
        None => r1,
    };
    r2.child(tabs_shell_v(st))
}

pub fn build_main_ui(st: &UiState) -> (r: UiElement)
    ensures
        ev(r) == main_ui_v(*st),
{
    let mut root = div().style(Style::Flex).style(Style::Column).style(Style::WidthFull).style(Style::MaxWidth(960)).style(
        Style::Padding(28),
    ).style(Style::Gap(18)).style(Style::AlignStart).prop("data-theme", "dark").child(build_hero());
    match &st.progress {
        Some(p) => {
            root = root.child(build_progress_block(p));
        },
        None => {},
    }
    match &st.notice {
        Some(n) => {
            root = root.child(build_notice(n));
        },
        None => {},
    }
    root.child(build_tabs_shell(st))
}

} // verus!
