//! The work-bench UI of the community provider: its state, the events it
//! routes, and what each event does to the state.
use vstd::prelude::*;
use crate::text::{
    starts_with, str_starts_with, str_eq, chars_of, slice_range, string_from_chars, concat_str, trim,
    trim_chars, eq_ignore_case, chars_eq_ignore_case, contains_text, chars_contain,
};
use crate::numbers::{parse_i64, parse_i64_str, int_text, i64_to_text};
use crate::listing::sat_add;
use crate::codec::{base64_standard, base64_encode};
use crate::faces::{image_mime, guess_image_mime};
use crate::session::{UiAccountSnapshot, UiDeviceChoice};
use crate::uploads::{UiMyShareItem, UiUploadRequest, UiBinaryAsset};

verus! {

/// The tab shown.
#[derive(Clone, Copy, Debug)]
pub enum ActivePanel {
    Account,
    Upload,
    Manage,
}

#[derive(Clone, Copy, Debug)]
pub enum NoticeTone {
    Info,
    Success,
    Error,
}

/// A message shown above the tabs.
#[derive(Debug)]
pub struct NoticeState {
    pub tone: NoticeTone,
    pub message: String,
}

/// A running operation: its label and how far it is, in percent.
#[derive(Debug)]
pub struct ProgressState {
    pub label: String,
    pub value: u32,
}

/// A file picked for an upload: its name, bytes, size as shown, and for an
/// image a data address to preview it by.
#[derive(Debug)]
pub struct PickedAsset {
    pub name: String,
    pub data: Vec<u8>,
    pub size_text: String,
    pub preview_url: Option<String>,
}

/// The upload being edited again: its id and the previews it has online.
#[derive(Debug)]
pub struct UploadEditState {
    pub upload_id: Option<String>,
    pub remote_preview_url: Option<String>,
    pub remote_preview_aod_url: Option<String>,
    pub remote_preview_aod2_url: Option<String>,
    pub remote_preview_aod3_url: Option<String>,
}

/// Everything the work-bench shows and edits.
#[derive(Debug)]
pub struct UiState {
    pub root_element_id: Option<String>,
    pub initialized: bool,
    pub active_panel: ActivePanel,
    pub devices: Vec<UiDeviceChoice>,
    pub account: UiAccountSnapshot,
    pub notice: Option<NoticeState>,
    pub progress: Option<ProgressState>,
    pub busy: bool,
    pub login_username: String,
    pub login_password: String,
    pub login_code: String,
    pub manual_openid: String,
    pub manual_token: String,
    pub manual_nickname: String,
    pub upload_name: String,
    pub upload_desc: String,
    pub upload_mitantid: String,
    pub upload_use_thread_link: bool,
    pub upload_static_png: bool,
    pub upload_enable_aod1: bool,
    pub upload_enable_aod2: bool,
    pub upload_enable_aod3: bool,
    pub upload_binary: Option<PickedAsset>,
    pub upload_preview_main: Option<PickedAsset>,
    pub upload_preview_aod1: Option<PickedAsset>,
    pub upload_preview_aod2: Option<PickedAsset>,
    pub upload_preview_aod3: Option<PickedAsset>,
    pub upload_edit: UploadEditState,
    pub upload_tips: String,
    pub uploads: Vec<UiMyShareItem>,
    pub uploads_page: usize,
    pub uploads_has_more: bool,
}

/// The state before anything is loaded.
pub open spec fn initial_state_ok(s: UiState) -> bool {
    &&& s.root_element_id is None
    &&& !s.initialized
    &&& s.active_panel == ActivePanel::Account
    &&& s.devices@.len() == 0
    &&& !s.account.logged_in
    &&& s.account.device_type@.len() == 0
    &&& s.account.device_name@.len() == 0
    &&& s.account.nickname is None
    &&& s.account.openid_masked is None
    &&& s.account.donation@ == "0"@
    &&& s.account.last_error is None
    &&& s.notice is None
    &&& s.progress is None
    &&& !s.busy
    &&& s.login_username@.len() == 0 && s.login_password@.len() == 0 && s.login_code@.len() == 0
    &&& s.manual_openid@.len() == 0 && s.manual_token@.len() == 0 && s.manual_nickname@.len() == 0
    &&& s.upload_name@.len() == 0 && s.upload_desc@.len() == 0 && s.upload_mitantid@.len() == 0
    &&& s.upload_use_thread_link && s.upload_static_png
    &&& !s.upload_enable_aod1 && !s.upload_enable_aod2 && !s.upload_enable_aod3
    &&& s.upload_binary is None && s.upload_preview_main is None
    &&& s.upload_preview_aod1 is None && s.upload_preview_aod2 is None && s.upload_preview_aod3 is None
    &&& edit_cleared(s.upload_edit)
    &&& s.upload_tips@.len() == 0
    &&& s.uploads@.len() == 0
    &&& s.uploads_page == 1
    &&& !s.uploads_has_more
}

pub open spec fn edit_cleared(e: UploadEditState) -> bool {
    e.upload_id is None && e.remote_preview_url is None && e.remote_preview_aod_url is None
        && e.remote_preview_aod2_url is None && e.remote_preview_aod3_url is None
}

pub fn cleared_edit() -> (r: UploadEditState)
    ensures
        edit_cleared(r),
{
    UploadEditState {
        upload_id: None,
        remote_preview_url: None,
        remote_preview_aod_url: None,
        remote_preview_aod2_url: None,
        remote_preview_aod3_url: None,
    }
}

impl UiState {
    /// The state before anything is loaded.
    pub fn new() -> (r: UiState)
        ensures
            initial_state_ok(r),
    {
        UiState {
            root_element_id: None,
            initialized: false,
            active_panel: ActivePanel::Account,
            devices: Vec::new(),
            account: UiAccountSnapshot {
                logged_in: false,
                device_type: String::new(),
                device_name: String::new(),
                nickname: None,
                openid_masked: None,
                donation: String::from_str("0"),
                last_error: None,
            },
            notice: None,
            progress: None,
            busy: false,
            login_username: String::new(),
            login_password: String::new(),
            login_code: String::new(),
            manual_openid: String::new(),
            manual_token: String::new(),
            manual_nickname: String::new(),
            upload_name: String::new(),
            upload_desc: String::new(),
            upload_mitantid: String::new(),
            upload_use_thread_link: true,
            upload_static_png: true,
            upload_enable_aod1: false,
            upload_enable_aod2: false,
            upload_enable_aod3: false,
            upload_binary: None,
            upload_preview_main: None,
            upload_preview_aod1: None,
            upload_preview_aod2: None,
            upload_preview_aod3: None,
            upload_edit: cleared_edit(),
            upload_tips: String::new(),
            uploads: Vec::new(),
            uploads_page: 1,
            uploads_has_more: false,
        }
    }
}

// ----------------------------------------------------------------------------
// Events.
/// The text fields of the form.
#[derive(Clone, Copy, Debug)]
pub enum TextField {
    LoginUsername,
    LoginPassword,
    LoginCode,
    ManualOpenid,
    ManualToken,
    ManualNickname,
    UploadName,
    UploadDesc,
    UploadMitantid,
}

/// What an event asks for.
#[derive(Debug)]
pub enum UiCommand {
    Nothing,
    ShowPanel(ActivePanel),
    ChangeDevice(String),
    SetText(TextField, String),
    SetThreadLink(bool),
    SetStaticPng(bool),
    ToggleAod(usize, bool),
    LoginPassword,
    LoginCode,
    LoginManual,
    Logout,
    OpenOauth,
    PickBinary,
    PickPreview(usize),
    ClearBinary,
    ClearPreview(usize),
    SubmitUpload,
    ResetUpload,
    LoadUploads(bool),
    ClearPluginCache,
    ToggleShare(String),
    DeleteUpload(String),
    TopUpload(String),
    ShowReason(String),
    EditUpload(String),
}

/// The text after a prefix, when the id starts with it.
pub open spec fn after_prefix(id: Seq<char>, prefix: Seq<char>) -> Option<Seq<char>> {
    if starts_with(id, prefix) {
        Some(id.skip(prefix.len() as int))
    } else {
        None
    }
}

/// The commands of the plain (not per-upload) event ids.
pub open spec fn plain_command_ok(id: Seq<char>, text: Seq<char>, value: Option<Seq<char>>, flag: bool, r: UiCommand) -> bool {
    if id == "tab:account"@ {
        r == UiCommand::ShowPanel(ActivePanel::Account)
    } else if id == "tab:upload"@ {
        r == UiCommand::ShowPanel(ActivePanel::Upload)
    } else if id == "tab:manage"@ {
        r == UiCommand::ShowPanel(ActivePanel::Manage)
    } else if id == "field:device"@ {
        match value {
            Some(v) => r matches UiCommand::ChangeDevice(x) && x@ == v,
            None => r is Nothing,
        }
    } else if id == "field:login.username"@ {
        r matches UiCommand::SetText(f, x) && f == TextField::LoginUsername && x@ == text
    } else if id == "field:login.password"@ {
        r matches UiCommand::SetText(f, x) && f == TextField::LoginPassword && x@ == text
    } else if id == "field:login.code"@ {
        r matches UiCommand::SetText(f, x) && f == TextField::LoginCode && x@ == text
    } else if id == "field:manual.openid"@ {
        r matches UiCommand::SetText(f, x) && f == TextField::ManualOpenid && x@ == text
    } else if id == "field:manual.token"@ {
        r matches UiCommand::SetText(f, x) && f == TextField::ManualToken && x@ == text
    } else if id == "field:manual.nickname"@ {
        r matches UiCommand::SetText(f, x) && f == TextField::ManualNickname && x@ == text
    } else if id == "field:upload.name"@ {
        r matches UiCommand::SetText(f, x) && f == TextField::UploadName && x@ == text
    } else if id == "field:upload.desc"@ {
        r matches UiCommand::SetText(f, x) && f == TextField::UploadDesc && x@ == text
    } else if id == "field:upload.mitantid"@ {
        r matches UiCommand::SetText(f, x) && f == TextField::UploadMitantid && x@ == text
    } else if id == "toggle:upload.thread"@ {
        r == UiCommand::SetThreadLink(flag)
    } else if id == "toggle:upload.static-png"@ {
        r == UiCommand::SetStaticPng(flag)
    } else if id == "toggle:upload.aod1"@ {
        r == UiCommand::ToggleAod(1, flag)
    } else if id == "toggle:upload.aod2"@ {
        r == UiCommand::ToggleAod(2, flag)
    } else if id == "toggle:upload.aod3"@ {
        r == UiCommand::ToggleAod(3, flag)
    } else {
        action_command_ok(id, r)
    }
}

/// The commands of the plain action ids.
pub open spec fn action_command_ok(id: Seq<char>, r: UiCommand) -> bool {
    if id == "action:login.password"@ {
        r is LoginPassword
    } else if id == "action:login.code"@ {
        r is LoginCode
    } else if id == "action:login.manual"@ {
        r is LoginManual
    } else if id == "action:logout"@ {
        r is Logout
    } else if id == "action:oauth.open"@ {
        r is OpenOauth
    } else if id == "action:upload.pick.binary"@ {
        r is PickBinary
    } else if id == "action:upload.pick.preview"@ {
        r == UiCommand::PickPreview(0)
    } else if id == "action:upload.pick.aod1"@ {
        r == UiCommand::PickPreview(1)
    } else if id == "action:upload.pick.aod2"@ {
        r == UiCommand::PickPreview(2)
    } else if id == "action:upload.pick.aod3"@ {
        r == UiCommand::PickPreview(3)
    } else if id == "action:upload.clear.binary"@ {
        r is ClearBinary
    } else if id == "action:upload.clear.preview"@ {
        r == UiCommand::ClearPreview(0)
    } else if id == "action:upload.clear.aod1"@ {
        r == UiCommand::ClearPreview(1)
    } else if id == "action:upload.clear.aod2"@ {
        r == UiCommand::ClearPreview(2)
    } else if id == "action:upload.clear.aod3"@ {
        r == UiCommand::ClearPreview(3)
    } else if id == "action:upload.submit"@ {
        r is SubmitUpload
    } else if id == "action:upload.reset"@ {
        r is ResetUpload
    } else if id == "action:manage.refresh"@ {
        r == UiCommand::LoadUploads(true)
    } else if id == "action:manage.load-more"@ {
        r == UiCommand::LoadUploads(false)
    } else if id == "action:cache.clear"@ {
        r is ClearPluginCache
    } else {
        r is Nothing
    }
}

/// `ui_event_processor`'s routing: while busy, actions are dropped; the
/// per-upload actions carry the id after their prefix; the rest by the table.
pub open spec fn command_ok(busy: bool, id: Seq<char>, value: Option<Seq<char>>, checked: Option<bool>, r: UiCommand) -> bool {
    let text = match value {
        Some(v) => v,
        None => Seq::<char>::empty(),
    };
    let flag = match checked {
        Some(b) => b,
        None => false,
    };
    if starts_with(id, "action:"@) && busy {
        r is Nothing
    } else if let Some(x) = after_prefix(id, "action:manage.share:"@) {
        r matches UiCommand::ToggleShare(y) && y@ == x
    } else if let Some(x) = after_prefix(id, "action:manage.delete:"@) {
        r matches UiCommand::DeleteUpload(y) && y@ == x
    } else if let Some(x) = after_prefix(id, "action:manage.top:"@) {
        r matches UiCommand::TopUpload(y) && y@ == x
    } else if let Some(x) = after_prefix(id, "action:manage.reason:"@) {
        r matches UiCommand::ShowReason(y) && y@ == x
    } else if let Some(x) = after_prefix(id, "action:manage.edit:"@) {
        r matches UiCommand::EditUpload(y) && y@ == x
    } else {
        plain_command_ok(id, text, value, flag, r)
    }
}

fn strip_prefix(id: &str, prefix: &str) -> (r: Option<String>)
    ensures
        match r {
            Some(x) => after_prefix(id@, prefix@) == Some(x@),
            None => after_prefix(id@, prefix@) is None,
        },
{
    if str_starts_with(id, prefix) {
        let c = chars_of(id);
        let p = chars_of(prefix);
        let rest = slice_range(c.as_slice(), p.len(), c.len());
        proof {
            assert(rest@ =~= id@.skip(prefix@.len() as int));
        }
        Some(string_from_chars(rest.as_slice()))
    } else {
        None
    }
}

fn text_command(field: TextField, value: &Option<String>) -> (r: UiCommand)
    ensures
        r matches UiCommand::SetText(f, x) && f == field && x@ == match *value {
            Some(v) => v@,
            None => Seq::<char>::empty(),
        },
{
    match value {
        Some(v) => UiCommand::SetText(field, v.clone()),
        None => UiCommand::SetText(field, String::new()),
    }
}

fn plain_command(event_id: &str, value: &Option<String>, flag: bool) -> (r: UiCommand)
    ensures
        plain_command_ok(
            event_id@,
            match *value { Some(v) => v@, None => Seq::<char>::empty() },
            match *value { Some(v) => Some(v@), None => None },
            flag,
            r,
        ),
{
    if str_eq(event_id, "tab:account") {
        UiCommand::ShowPanel(ActivePanel::Account)
    } else if str_eq(event_id, "tab:upload") {
        UiCommand::ShowPanel(ActivePanel::Upload)
    } else if str_eq(event_id, "tab:manage") {
        UiCommand::ShowPanel(ActivePanel::Manage)
    } else if str_eq(event_id, "field:device") {
        match value {
            Some(v) => UiCommand::ChangeDevice(v.clone()),
            None => UiCommand::Nothing,
        }
    } else if str_eq(event_id, "field:login.username") {
        text_command(TextField::LoginUsername, value)
    } else if str_eq(event_id, "field:login.password") {
        text_command(TextField::LoginPassword, value)
    } else if str_eq(event_id, "field:login.code") {
        text_command(TextField::LoginCode, value)
    } else if str_eq(event_id, "field:manual.openid") {
        text_command(TextField::ManualOpenid, value)
    } else if str_eq(event_id, "field:manual.token") {
        text_command(TextField::ManualToken, value)
    } else if str_eq(event_id, "field:manual.nickname") {
        text_command(TextField::ManualNickname, value)
    } else if str_eq(event_id, "field:upload.name") {
        text_command(TextField::UploadName, value)
    } else if str_eq(event_id, "field:upload.desc") {
        text_command(TextField::UploadDesc, value)
    } else if str_eq(event_id, "field:upload.mitantid") {
        text_command(TextField::UploadMitantid, value)
    } else if str_eq(event_id, "toggle:upload.thread") {
        UiCommand::SetThreadLink(flag)
    } else if str_eq(event_id, "toggle:upload.static-png") {
        UiCommand::SetStaticPng(flag)
    } else if str_eq(event_id, "toggle:upload.aod1") {
        UiCommand::ToggleAod(1, flag)
    } else if str_eq(event_id, "toggle:upload.aod2") {
        UiCommand::ToggleAod(2, flag)
    } else if str_eq(event_id, "toggle:upload.aod3") {
        UiCommand::ToggleAod(3, flag)
    } else {
        action_command(event_id)
    }
}

fn action_command(event_id: &str) -> (r: UiCommand)
    ensures
        action_command_ok(event_id@, r),
{
    if str_eq(event_id, "action:login.password") {
        UiCommand::LoginPassword
    } else if str_eq(event_id, "action:login.code") {
        UiCommand::LoginCode
    } else if str_eq(event_id, "action:login.manual") {
        UiCommand::LoginManual
    } else if str_eq(event_id, "action:logout") {
        UiCommand::Logout
    } else if str_eq(event_id, "action:oauth.open") {
        UiCommand::OpenOauth
    } else if str_eq(event_id, "action:upload.pick.binary") {
        UiCommand::PickBinary
    } else if str_eq(event_id, "action:upload.pick.preview") {
        UiCommand::PickPreview(0)
    } else if str_eq(event_id, "action:upload.pick.aod1") {
        UiCommand::PickPreview(1)
    } else if str_eq(event_id, "action:upload.pick.aod2") {
        UiCommand::PickPreview(2)
    } else if str_eq(event_id, "action:upload.pick.aod3") {
        UiCommand::PickPreview(3)
    } else if str_eq(event_id, "action:upload.clear.binary") {
        UiCommand::ClearBinary
    } else if str_eq(event_id, "action:upload.clear.preview") {
        UiCommand::ClearPreview(0)
    } else if str_eq(event_id, "action:upload.clear.aod1") {
        UiCommand::ClearPreview(1)
    } else if str_eq(event_id, "action:upload.clear.aod2") {
        UiCommand::ClearPreview(2)
    } else if str_eq(event_id, "action:upload.clear.aod3") {
        UiCommand::ClearPreview(3)
    } else if str_eq(event_id, "action:upload.submit") {
        UiCommand::SubmitUpload
    } else if str_eq(event_id, "action:upload.reset") {
        UiCommand::ResetUpload
    } else if str_eq(event_id, "action:manage.refresh") {
        UiCommand::LoadUploads(true)
    } else if str_eq(event_id, "action:manage.load-more") {
        UiCommand::LoadUploads(false)
    } else if str_eq(event_id, "action:cache.clear") {
        UiCommand::ClearPluginCache
    } else {
        UiCommand::Nothing
    }
}

/// `ui_event_processor`: what an event (its id, and the payload's value and
/// checked flag) asks for, given whether an operation is running.
pub fn ui_event_processor(busy: bool, event_id: &str, value: Option<String>, checked: Option<bool>) -> (r: UiCommand)
    ensures
        command_ok(busy, event_id@, match value { Some(v) => Some(v@), None => None }, checked, r),
{
    if busy && str_starts_with(event_id, "action:") {
        return UiCommand::Nothing;
    }
    match strip_prefix(event_id, "action:manage.share:") {
        Some(x) => {
            return UiCommand::ToggleShare(x);
        },
        None => {},
    }
    match strip_prefix(event_id, "action:manage.delete:") {
        Some(x) => {
            return UiCommand::DeleteUpload(x);
        },
        None => {},
    }
    match strip_prefix(event_id, "action:manage.top:") {
        Some(x) => {
            return UiCommand::TopUpload(x);
        },
        None => {},
    }
    match strip_prefix(event_id, "action:manage.reason:") {
        Some(x) => {
            return UiCommand::ShowReason(x);
        },
        None => {},
    }
    match strip_prefix(event_id, "action:manage.edit:") {
        Some(x) => {
            return UiCommand::EditUpload(x);
        },
        None => {},
    }
    let flag = match checked {
        Some(b) => b,
        None => false,
    };
    plain_command(event_id, &value, flag)
}

/// `ui_event_processor_v3`: the same routing; the event's name plays no part.
pub fn ui_event_processor_v3(busy: bool, event_id: &str, event_name: &str, value: Option<String>, checked: Option<bool>) -> (r: UiCommand)
    ensures
        command_ok(busy, event_id@, match value { Some(v) => Some(v@), None => None }, checked, r),
{
    ui_event_processor(busy, event_id, value, checked)
}

// ----------------------------------------------------------------------------
// What events do to the state.
/// A notice with the given tone and text.
pub open spec fn has_notice(s: UiState, tone: NoticeTone, text: Seq<char>) -> bool {
    s.notice matches Some(n) && n.tone == tone && n.message@ == text
}

fn notice(tone: NoticeTone, text: &str) -> (r: Option<NoticeState>)
    ensures
        r matches Some(n) && n.tone == tone && n.message@ == text@,
{
    Some(NoticeState { tone, message: String::from_str(text) })
}

/// The state with a text field set.
pub open spec fn with_text(s: UiState, field: TextField, text: String) -> UiState {
    match field {
        TextField::LoginUsername => UiState { login_username: text, ..s },
        TextField::LoginPassword => UiState { login_password: text, ..s },
        TextField::LoginCode => UiState { login_code: text, ..s },
        TextField::ManualOpenid => UiState { manual_openid: text, ..s },
        TextField::ManualToken => UiState { manual_token: text, ..s },
        TextField::ManualNickname => UiState { manual_nickname: text, ..s },
        TextField::UploadName => UiState { upload_name: text, ..s },
        TextField::UploadDesc => UiState { upload_desc: text, ..s },
        TextField::UploadMitantid => UiState { upload_mitantid: text, ..s },
    }
}

/// A text field takes the typed text.
pub fn set_text_field(st: &mut UiState, field: TextField, text: String)
    ensures
        *final(st) == with_text(*old(st), field, text),
{
    match field {
        TextField::LoginUsername => st.login_username = text,
        TextField::LoginPassword => st.login_password = text,
        TextField::LoginCode => st.login_code = text,
        TextField::ManualOpenid => st.manual_openid = text,
        TextField::ManualToken => st.manual_token = text,
        TextField::ManualNickname => st.manual_nickname = text,
        TextField::UploadName => st.upload_name = text,
        TextField::UploadDesc => st.upload_desc = text,
        TextField::UploadMitantid => st.upload_mitantid = text,
    }
}

/// The state with an always-on-display slot switched: off drops the slot's
/// picked image and online preview; slots other than 1 to 3 change nothing.
pub open spec fn aod_toggled(s: UiState, index: usize, checked: bool) -> UiState {
    if index == 1 {
        if checked {
            UiState { upload_enable_aod1: true, ..s }
        } else {
            UiState {
                upload_enable_aod1: false,
                upload_preview_aod1: None,
                upload_edit: UploadEditState { remote_preview_aod_url: None, ..s.upload_edit },
                ..s
            }
        }
    } else if index == 2 {
        if checked {
            UiState { upload_enable_aod2: true, ..s }
        } else {
            UiState {
                upload_enable_aod2: false,
                upload_preview_aod2: None,
                upload_edit: UploadEditState { remote_preview_aod2_url: None, ..s.upload_edit },
                ..s
            }
        }
    } else if index == 3 {
        if checked {
            UiState { upload_enable_aod3: true, ..s }
        } else {
            UiState {
                upload_enable_aod3: false,
                upload_preview_aod3: None,
                upload_edit: UploadEditState { remote_preview_aod3_url: None, ..s.upload_edit },
                ..s
            }
        }
    } else {
        s
    }
}

/// `toggle_aod_slot`.
pub fn toggle_aod_slot(st: &mut UiState, index: usize, checked: bool)
    ensures
        *final(st) == aod_toggled(*old(st), index, checked),
{
    if index == 1 {
        st.upload_enable_aod1 = checked;
        if !checked {
            st.upload_preview_aod1 = None;
            st.upload_edit.remote_preview_aod_url = None;
        }
    } else if index == 2 {
        st.upload_enable_aod2 = checked;
        if !checked {
            st.upload_preview_aod2 = None;
            st.upload_edit.remote_preview_aod2_url = None;
        }
    } else if index == 3 {
        st.upload_enable_aod3 = checked;
        if !checked {
            st.upload_preview_aod3 = None;
            st.upload_edit.remote_preview_aod3_url = None;
        }
    }
}

/// The state with a preview slot cleared: its picked image and online
/// preview dropped (0 is the main preview, 1 to 3 the always-on-display ones).
pub open spec fn preview_cleared(s: UiState, slot: usize) -> UiState {
    if slot == 0 {
        UiState {
            upload_preview_main: None,
            upload_edit: UploadEditState { remote_preview_url: None, ..s.upload_edit },
            ..s
        }
    } else if slot == 1 {
        UiState {
            upload_preview_aod1: None,
            upload_edit: UploadEditState { remote_preview_aod_url: None, ..s.upload_edit },
            ..s
        }
    } else if slot == 2 {
        UiState {
            upload_preview_aod2: None,
            upload_edit: UploadEditState { remote_preview_aod2_url: None, ..s.upload_edit },
            ..s
        }
    } else if slot == 3 {
        UiState {
            upload_preview_aod3: None,
            upload_edit: UploadEditState { remote_preview_aod3_url: None, ..s.upload_edit },
            ..s
        }
    } else {
        s
    }
}

/// `clear_preview`.
pub fn clear_preview(st: &mut UiState, slot: usize)
    ensures
        *final(st) == preview_cleared(*old(st), slot),
{
    if slot == 0 {
        st.upload_preview_main = None;
        st.upload_edit.remote_preview_url = None;
    } else if slot == 1 {
        st.upload_preview_aod1 = None;
        st.upload_edit.remote_preview_aod_url = None;
    } else if slot == 2 {
        st.upload_preview_aod2 = None;
        st.upload_edit.remote_preview_aod2_url = None;
    } else if slot == 3 {
        st.upload_preview_aod3 = None;
        st.upload_edit.remote_preview_aod3_url = None;
    }
}

/// `clear_binary`.
pub fn clear_binary(st: &mut UiState)
    ensures
        *final(st) == (UiState { upload_binary: None, ..*old(st) }),
{
    st.upload_binary = None;
}

/// `reset_upload_form`: the form back to its start (thread links and static
/// previews on, no always-on-display slots, nothing picked, nothing being
/// edited); the notice is cleared unless asked to keep it.
pub open spec fn form_reset(new: UiState, old: UiState, preserve_notice: bool) -> bool {
    &&& new.upload_name@.len() == 0 && new.upload_desc@.len() == 0 && new.upload_mitantid@.len() == 0
    &&& new == UiState {
        upload_name: new.upload_name,
        upload_desc: new.upload_desc,
        upload_mitantid: new.upload_mitantid,
        upload_use_thread_link: true,
        upload_static_png: true,
        upload_enable_aod1: false,
        upload_enable_aod2: false,
        upload_enable_aod3: false,
        upload_binary: None,
        upload_preview_main: None,
        upload_preview_aod1: None,
        upload_preview_aod2: None,
        upload_preview_aod3: None,
        upload_edit: new.upload_edit,
        notice: if preserve_notice { old.notice } else { None },
        ..old
    }
    &&& edit_cleared(new.upload_edit)
}

pub fn reset_upload_form(st: &mut UiState, preserve_notice: bool)
    ensures
        form_reset(*final(st), *old(st), preserve_notice),
{
    st.upload_name = String::new();
    st.upload_desc = String::new();
    st.upload_mitantid = String::new();
    st.upload_use_thread_link = true;
    st.upload_static_png = true;
    st.upload_enable_aod1 = false;
    st.upload_enable_aod2 = false;
    st.upload_enable_aod3 = false;
    st.upload_binary = None;
    st.upload_preview_main = None;
    st.upload_preview_aod1 = None;
    st.upload_preview_aod2 = None;
    st.upload_preview_aod3 = None;
    st.upload_edit = cleared_edit();
    if !preserve_notice {
        st.notice = None;
    }
}

/// An operation starts: busy, with its progress shown and the notice cleared.
pub fn begin_operation(st: &mut UiState, label: &str, value: u32)
    ensures
        final(st).busy,
        final(st).progress matches Some(p) && p.label@ == label@ && p.value == value,
        final(st).notice is None,
        *final(st) == (UiState { busy: true, progress: final(st).progress, notice: None, ..*old(st) }),
{
    st.busy = true;
    st.progress = Some(ProgressState { label: String::from_str(label), value });
    st.notice = None;
}

/// The listed device the value names (letters compared without case).
pub open spec fn names_device(s: UiState, value: Seq<char>, i: int) -> bool {
    0 <= i < s.devices@.len() && eq_ignore_case(s.devices@[i].model@, value)
}

/// A device change once the choice is stored: on success the account
/// shows the first listed device the value names, if any, and the notice is
/// cleared; on failure the error is shown.
pub open spec fn device_changed(new: UiState, old: UiState, value: Seq<char>, result: Result<(), String>) -> bool {
    match result {
        Ok(()) => {
            &&& new.notice is None
            &&& new == (UiState { account: new.account, notice: None, ..old })
            &&& if exists|i: int| names_device(old, value, i) {
                exists|i: int|
                    #[trigger] names_device(old, value, i) && (forall|j: int| 0 <= j < i ==> !names_device(old, value, j))
                        && new.account == (UiAccountSnapshot {
                        device_type: old.devices@[i].model,
                        device_name: old.devices@[i].name,
                        ..old.account
                    })
            } else {
                new.account == old.account
            }
        },
        Err(e) => has_notice(new, NoticeTone::Error, e@) && new == (UiState { notice: new.notice, ..old }),
    }
}

pub fn apply_device_change(st: &mut UiState, value: &str, result: Result<(), String>)
    ensures
        device_changed(*final(st), *old(st), value@, result),
{
    match result {
        Ok(()) => {
            let v = chars_of(value);
            let mut i: usize = 0;
            while i < st.devices.len()
                invariant
                    i <= st.devices@.len(),
                    *st == *old(st),
                    result is Ok,
                    v@ == value@,
                    forall|j: int| 0 <= j < i ==> !names_device(*old(st), value@, j),
                decreases st.devices@.len() - i,
            {
                let m = chars_of(st.devices[i].model.as_str());
                if chars_eq_ignore_case(m.as_slice(), v.as_slice()) {
                    let model = st.devices[i].model.clone();
                    let name = st.devices[i].name.clone();
                    st.account.device_type = model;
                    st.account.device_name = name;
                    st.notice = None;
                    proof {
                        let k = i as int;
                        assert(names_device(*old(st), value@, k));
                        assert(st.account == (UiAccountSnapshot {
                            device_type: old(st).devices@[k].model,
                            device_name: old(st).devices@[k].name,
                            ..old(st).account
                        }));
                        assert(names_device(*old(st), value@, k) && (forall|j: int| 0 <= j < k ==> !names_device(*old(st), value@, j))
                            && st.account == (UiAccountSnapshot {
                            device_type: old(st).devices@[k].model,
                            device_name: old(st).devices@[k].name,
                            ..old(st).account
                        }));
                    }
                    return;
                }
                i = i + 1;
            }
            st.notice = None;
        },
        Err(e) => {
            st.notice = Some(NoticeState { tone: NoticeTone::Error, message: e });
        },
    }
}

// ----------------------------------------------------------------------------
// Logins.
/// Which login the work-bench ran.
#[derive(Clone, Copy, Debug)]
pub enum LoginFlow {
    Password,
    Code,
    Manual,
}

/// The start of a password login: the operation shown; what the login
/// needs: the selected device, the user name and the password.
pub fn begin_login_password(st: &mut UiState) -> (r: (String, String, String))
    ensures
        final(st).busy && final(st).notice is None,
        final(st).progress matches Some(p) && p.label@ == "正在登录米坛账号…"@ && p.value == 30,
        *final(st) == (UiState { busy: true, progress: final(st).progress, notice: None, ..*old(st) }),
        r.0 == old(st).account.device_type && r.1 == old(st).login_username && r.2 == old(st).login_password,
{
    begin_operation(st, "正在登录米坛账号…", 30);
    (st.account.device_type.clone(), st.login_username.clone(), st.login_password.clone())
}

/// The start of a code login: the selected device and the code.
pub fn begin_login_code(st: &mut UiState) -> (r: (String, String))
    ensures
        final(st).busy && final(st).notice is None,
        final(st).progress matches Some(p) && p.label@ == "正在用 OAuth code 登录…"@ && p.value == 35,
        *final(st) == (UiState { busy: true, progress: final(st).progress, notice: None, ..*old(st) }),
        r.0 == old(st).account.device_type && r.1 == old(st).login_code,
{
    begin_operation(st, "正在用 OAuth code 登录…", 35);
    (st.account.device_type.clone(), st.login_code.clone())
}

/// The start of a manual login: the selected device, openid, token and nickname.
pub fn begin_login_manual(st: &mut UiState) -> (r: (String, String, String, String))
    ensures
        final(st).busy && final(st).notice is None,
        final(st).progress matches Some(p) && p.label@ == "正在写入会话…"@ && p.value == 22,
        *final(st) == (UiState { busy: true, progress: final(st).progress, notice: None, ..*old(st) }),
        r.0 == old(st).account.device_type && r.1 == old(st).manual_openid && r.2 == old(st).manual_token
            && r.3 == old(st).manual_nickname,
{
    begin_operation(st, "正在写入会话…", 22);
    (
        st.account.device_type.clone(),
        st.manual_openid.clone(),
        st.manual_token.clone(),
        st.manual_nickname.clone(),
    )
}

pub open spec fn login_success_text(flow: LoginFlow) -> Seq<char> {
    match flow {
        LoginFlow::Password => "登录成功，后续 provider 浏览与上传会直接复用该会话。"@,
        LoginFlow::Code => "网页登录会话已导入。"@,
        LoginFlow::Manual => "会话已注入，可以直接使用上传与管理接口。"@,
    }
}

/// The end of a login: the operation is over; on success the account is the
/// new one, the password (or code) field is emptied and success is shown,
/// and, when the uploads tab is open after a password or code login, the
/// uploads are to be reloaded (`true`); on failure the error is shown.
pub open spec fn login_finished(
    new: UiState,
    old: UiState,
    flow: LoginFlow,
    result: Result<UiAccountSnapshot, String>,
    reload: bool,
) -> bool {
    &&& !new.busy && new.progress is None
    &&& match result {
        Ok(snap) => {
            &&& has_notice(new, NoticeTone::Success, login_success_text(flow))
            &&& new.account == snap
            &&& reload == (flow != LoginFlow::Manual && old.active_panel == ActivePanel::Manage)
            &&& match flow {
                LoginFlow::Password => new.login_password@.len() == 0 && new == (UiState {
                    busy: false,
                    progress: None,
                    notice: new.notice,
                    account: snap,
                    login_password: new.login_password,
                    ..old
                }),
                LoginFlow::Code => new.login_code@.len() == 0 && new == (UiState {
                    busy: false,
                    progress: None,
                    notice: new.notice,
                    account: snap,
                    login_code: new.login_code,
                    ..old
                }),
                LoginFlow::Manual => new == (UiState {
                    busy: false,
                    progress: None,
                    notice: new.notice,
                    account: snap,
                    ..old
                }),
            }
        },
        Err(e) => {
            &&& !reload
            &&& has_notice(new, NoticeTone::Error, e@)
            &&& new == (UiState { busy: false, progress: None, notice: new.notice, ..old })
        },
    }
}

pub fn finish_login(st: &mut UiState, flow: LoginFlow, result: Result<UiAccountSnapshot, String>) -> (reload: bool)
    ensures
        login_finished(*final(st), *old(st), flow, result, reload),
{
    st.busy = false;
    st.progress = None;
    match result {
        Ok(snap) => {
            st.account = snap;
            let text = match flow {
                LoginFlow::Password => {
                    st.login_password = String::new();
                    "登录成功，后续 provider 浏览与上传会直接复用该会话。"
                },
                LoginFlow::Code => {
                    st.login_code = String::new();
                    "网页登录会话已导入。"
                },
                LoginFlow::Manual => "会话已注入，可以直接使用上传与管理接口。",
            };
            st.notice = notice(NoticeTone::Success, text);
            let manage = match st.active_panel {
                ActivePanel::Manage => true,
                _ => false,
            };
            match flow {
                LoginFlow::Manual => false,
                _ => manage,
            }
        },
        Err(e) => {
            st.notice = Some(NoticeState { tone: NoticeTone::Error, message: e });
            false
        },
    }
}

/// A logout once signed out: the new account, no uploads, and the notice.
pub fn apply_logout(st: &mut UiState, snapshot: UiAccountSnapshot)
    ensures
        has_notice(*final(st), NoticeTone::Info, "已退出插件内的米坛会话。"@),
        final(st).uploads@.len() == 0,
        *final(st) == (UiState {
            account: snapshot,
            uploads: final(st).uploads,
            uploads_page: 1,
            uploads_has_more: false,
            notice: final(st).notice,
            ..*old(st)
        }),
{
    st.account = snapshot;
    st.uploads = Vec::new();
    st.uploads_page = 1;
    st.uploads_has_more = false;
    st.notice = notice(NoticeTone::Info, "已退出插件内的米坛会话。");
}

/// The OAuth page once open: the hint.
pub fn note_oauth_opened(st: &mut UiState)
    ensures
        has_notice(
            *final(st),
            NoticeTone::Info,
            "浏览器已打开。授权完成后，把回调地址里的 code 或整个回调链接贴回输入框即可。"@,
        ),
        *final(st) == (UiState { notice: final(st).notice, ..*old(st) }),
{
    st.notice = notice(NoticeTone::Info, "浏览器已打开。授权完成后，把回调地址里的 code 或整个回调链接贴回输入框即可。");
}

// ----------------------------------------------------------------------------
// Picking files.
/// What the picked file becomes: nothing when no name came back (the pick
/// was cancelled), an error when no bytes came with it, else the asset;
/// `size_text` is its size as shown.
pub fn accept_picked_file(name: String, data: Vec<u8>, size_text: String) -> (r: Result<Option<PickedAsset>, String>)
    ensures
        trim(name@).len() == 0 ==> r == Ok::<Option<PickedAsset>, String>(None),
        trim(name@).len() > 0 && data@.len() == 0 ==> (r matches Err(e) && e@ == "已选择文件“"@ + name@
            + "”，但插件既没有从宿主拿到文件数据，也没有从插件缓存目录读到副本。"@),
        trim(name@).len() > 0 && data@.len() > 0 ==> r == Ok::<Option<PickedAsset>, String>(
            Some(PickedAsset { name, data, size_text, preview_url: None }),
        ),
{
    if trim_chars(name.as_str()).len() == 0 {
        return Ok(None);
    }
    if data.len() == 0 {
        let a = concat_str("已选择文件“", name.as_str());
        return Err(concat_str(a.as_str(), "”，但插件既没有从宿主拿到文件数据，也没有从插件缓存目录读到副本。"));
    }
    Ok(Some(PickedAsset { name, data, size_text, preview_url: None }))
}

/// A picked image: as a file, with a data
/// address (its type by the file name, the bytes in Base64) to preview it by.
pub fn accept_picked_image(name: String, data: Vec<u8>, size_text: String) -> (r: Result<Option<PickedAsset>, String>)
    ensures
        trim(name@).len() == 0 ==> r == Ok::<Option<PickedAsset>, String>(None),
        trim(name@).len() > 0 && data@.len() == 0 ==> (r matches Err(e) && e@ == "已选择图片“"@ + name@
            + "”，但插件既没有从宿主拿到文件数据，也没有从插件缓存目录读到副本。"@),
        trim(name@).len() > 0 && data@.len() > 0 ==> (r matches Ok(Some(a)) && a.name == name && a.data == data
            && a.size_text == size_text && (a.preview_url matches Some(u) && u@ == "data:"@ + image_mime(name@)
            + ";base64,"@ + base64_standard(data@))),
{
    if trim_chars(name.as_str()).len() == 0 {
        return Ok(None);
    }
    if data.len() == 0 {
        let a = concat_str("已选择图片“", name.as_str());
        return Err(concat_str(a.as_str(), "”，但插件既没有从宿主拿到文件数据，也没有从插件缓存目录读到副本。"));
    }
    let mime = guess_image_mime(name.as_str());
    let encoded = base64_encode(data.as_slice());
    let a = concat_str("data:", mime);
    let b = concat_str(a.as_str(), ";base64,");
    let url = concat_str(b.as_str(), encoded.as_str());
    Ok(Some(PickedAsset { name, data, size_text, preview_url: Some(url) }))
}

pub open spec fn picked_text(kind: Seq<char>, a: PickedAsset) -> Seq<char> {
    "已选择"@ + kind + "："@ + a.name@ + "（"@ + a.size_text@ + "）"@
}

fn picked_notice(kind: &str, a: &PickedAsset) -> (r: Option<NoticeState>)
    ensures
        r matches Some(n) && n.tone == NoticeTone::Success && n.message@ == picked_text(kind@, *a),
{
    let t1 = concat_str("已选择", kind);
    let t2 = concat_str(t1.as_str(), "：");
    let t3 = concat_str(t2.as_str(), a.name.as_str());
    let t4 = concat_str(t3.as_str(), "（");
    let t5 = concat_str(t4.as_str(), a.size_text.as_str());
    let t6 = concat_str(t5.as_str(), "）");
    Some(NoticeState { tone: NoticeTone::Success, message: t6 })
}

/// A face file pick once read: a picked file is kept and
/// named in the notice; an error is shown; a cancelled pick changes nothing.
/// Answers whether the view changed.
pub fn apply_picked_binary(st: &mut UiState, result: Result<Option<PickedAsset>, String>) -> (changed: bool)
    ensures
        match result {
            Ok(Some(a)) => changed && has_notice(*final(st), NoticeTone::Success, picked_text("资源文件"@, a))
                && *final(st) == (UiState { upload_binary: Some(a), notice: final(st).notice, ..*old(st) }),
            Ok(None) => !changed && *final(st) == *old(st),
            Err(e) => changed && has_notice(*final(st), NoticeTone::Error, e@) && *final(st) == (UiState {
                notice: final(st).notice,
                ..*old(st)
            }),
        },
{
    match result {
        Ok(Some(a)) => {
            st.notice = picked_notice("资源文件", &a);
            st.upload_binary = Some(a);
            true
        },
        Ok(None) => false,
        Err(e) => {
            st.notice = Some(NoticeState { tone: NoticeTone::Error, message: e });
            true
        },
    }
}

pub open spec fn slot_name(slot: usize) -> Seq<char> {
    if slot == 0 {
        "主预览图"@
    } else if slot == 1 {
        "AOD 预览 1"@
    } else if slot == 2 {
        "AOD 预览 2"@
    } else if slot == 3 {
        "AOD 预览 3"@
    } else {
        "图片文件"@
    }
}

/// The state with an image placed in a preview slot, the slot's online
/// preview dropped (slots beyond 3 hold nothing).
pub open spec fn preview_placed(s: UiState, slot: usize, a: PickedAsset) -> UiState {
    if slot == 0 {
        UiState {
            upload_preview_main: Some(a),
            upload_edit: UploadEditState { remote_preview_url: None, ..s.upload_edit },
            ..s
        }
    } else if slot == 1 {
        UiState {
            upload_preview_aod1: Some(a),
            upload_edit: UploadEditState { remote_preview_aod_url: None, ..s.upload_edit },
            ..s
        }
    } else if slot == 2 {
        UiState {
            upload_preview_aod2: Some(a),
            upload_edit: UploadEditState { remote_preview_aod2_url: None, ..s.upload_edit },
            ..s
        }
    } else if slot == 3 {
        UiState {
            upload_preview_aod3: Some(a),
            upload_edit: UploadEditState { remote_preview_aod3_url: None, ..s.upload_edit },
            ..s
        }
    } else {
        s
    }
}

/// An image pick for a preview slot once read.
pub fn apply_picked_preview(st: &mut UiState, slot: usize, result: Result<Option<PickedAsset>, String>) -> (changed: bool)
    ensures
        match result {
            Ok(Some(a)) => changed && has_notice(*final(st), NoticeTone::Success, picked_text(slot_name(slot), a))
                && *final(st) == (UiState { notice: final(st).notice, ..preview_placed(*old(st), slot, a) }),
            Ok(None) => !changed && *final(st) == *old(st),
            Err(e) => changed && has_notice(*final(st), NoticeTone::Error, e@) && *final(st) == (UiState {
                notice: final(st).notice,
                ..*old(st)
            }),
        },
{
    match result {
        Ok(Some(a)) => {
            let kind = if slot == 0 {
                "主预览图"
            } else if slot == 1 {
                "AOD 预览 1"
            } else if slot == 2 {
                "AOD 预览 2"
            } else if slot == 3 {
                "AOD 预览 3"
            } else {
                "图片文件"
            };
            let n = picked_notice(kind, &a);
            if slot == 0 {
                st.upload_preview_main = Some(a);
                st.upload_edit.remote_preview_url = None;
            } else if slot == 1 {
                st.upload_preview_aod1 = Some(a);
                st.upload_edit.remote_preview_aod_url = None;
            } else if slot == 2 {
                st.upload_preview_aod2 = Some(a);
                st.upload_edit.remote_preview_aod2_url = None;
            } else if slot == 3 {
                st.upload_preview_aod3 = Some(a);
                st.upload_edit.remote_preview_aod3_url = None;
            }
            st.notice = n;
            true
        },
        Ok(None) => false,
        Err(e) => {
            st.notice = Some(NoticeState { tone: NoticeTone::Error, message: e });
            true
        },
    }
}

/// The plugin cache once cleared: every picked file
/// is dropped, and the outcome shown.
pub fn apply_cache_cleared(st: &mut UiState, result: Result<(), String>)
    ensures
        match result {
            Ok(()) => has_notice(*final(st), NoticeTone::Success, "插件缓存已清理，已选择的本地文件也已重置。"@),
            Err(e) => has_notice(*final(st), NoticeTone::Error, e@),
        },
        *final(st) == (UiState {
            upload_binary: None,
            upload_preview_main: None,
            upload_preview_aod1: None,
            upload_preview_aod2: None,
            upload_preview_aod3: None,
            notice: final(st).notice,
            ..*old(st)
        }),
{
    st.upload_binary = None;
    st.upload_preview_main = None;
    st.upload_preview_aod1 = None;
    st.upload_preview_aod2 = None;
    st.upload_preview_aod3 = None;
    match result {
        Ok(()) => {
            st.notice = notice(NoticeTone::Success, "插件缓存已清理，已选择的本地文件也已重置。");
        },
        Err(e) => {
            st.notice = Some(NoticeState { tone: NoticeTone::Error, message: e });
        },
    }
}

// ----------------------------------------------------------------------------
// Submitting an upload.
pub open spec fn as_asset(a: PickedAsset) -> UiBinaryAsset {
    UiBinaryAsset { name: a.name, data: a.data }
}

pub open spec fn opt_asset(o: Option<PickedAsset>) -> Option<UiBinaryAsset> {
    match o {
        Some(a) => Some(as_asset(a)),
        None => None,
    }
}

/// Why an upload cannot be submitted yet, in the order it is checked.
pub open spec fn submit_refusal(s: UiState) -> Option<Seq<char>> {
    if !s.account.logged_in {
        Some("请先登录米坛账号，再执行上传。"@)
    } else if trim(s.upload_name@).len() == 0 {
        Some("资源名称不能为空。"@)
    } else if contains_text(s.upload_name@, seq!['\'']) {
        Some("资源名称不能包含单引号。"@)
    } else if s.upload_binary is None {
        Some("请先选择资源文件。"@)
    } else if s.upload_edit.upload_id is None && s.upload_preview_main is None && s.upload_edit.remote_preview_url is None {
        Some("新建上传必须提供主预览图。"@)
    } else {
        None
    }
}

/// The request the form submits: the selected device, the name and
/// description, the static flag, the entry being updated, the forum id when
/// not blank and the forum type (`t` for a thread, `r` for a resource), the
/// main preview, each enabled always-on-display preview, and the file.
pub open spec fn upload_request_of(s: UiState, r: UiUploadRequest) -> bool {
    &&& r.device_type == s.account.device_type
    &&& r.name == s.upload_name
    &&& r.description == s.upload_desc
    &&& r.static_png == s.upload_static_png
    &&& r.update_id == s.upload_edit.upload_id
    &&& r.mitantid == if trim(s.upload_mitantid@).len() > 0 { Some(s.upload_mitantid) } else { None }
    &&& r.mitantype@ == if s.upload_use_thread_link { "t"@ } else { "r"@ }
    &&& r.preview_main == opt_asset(s.upload_preview_main)
    &&& r.preview_aod == if s.upload_enable_aod1 { opt_asset(s.upload_preview_aod1) } else { None }
    &&& r.preview_aod2 == if s.upload_enable_aod2 { opt_asset(s.upload_preview_aod2) } else { None }
    &&& r.preview_aod3 == if s.upload_enable_aod3 { opt_asset(s.upload_preview_aod3) } else { None }
    &&& r.watchface_file == opt_asset(s.upload_binary)
}

fn copy_bytes(v: &Vec<u8>) -> (r: Vec<u8>)
    ensures
        r@ == v@,
{
    let mut out: Vec<u8> = Vec::new();
    let mut i: usize = 0;
    while i < v.len()
        invariant
            i <= v@.len(),
            out@ == v@.subrange(0, i as int),
        decreases v@.len() - i,
    {
        out.push(v[i]);
        proof {
            assert(out@ =~= v@.subrange(0, i + 1));
        }
        i = i + 1;
    }
    proof {
        assert(v@.subrange(0, v@.len() as int) =~= v@);
    }
    out
}

fn asset_of(o: &Option<PickedAsset>) -> (r: Option<UiBinaryAsset>)
    ensures
        match r {
            Some(a) => o matches Some(p) && a.name == p.name && a.data@ == p.data@,
            None => o is None,
        },
{
    match o {
        Some(p) => Some(UiBinaryAsset { name: p.name.clone(), data: copy_bytes(&p.data) }),
        None => None,
    }
}

/// Two requests the same but for the identity of equal byte vectors.
pub open spec fn same_asset(a: Option<UiBinaryAsset>, b: Option<UiBinaryAsset>) -> bool {
    match (a, b) {
        (Some(x), Some(y)) => x.name == y.name && x.data@ == y.data@,
        (None, None) => true,
        _ => false,
    }
}

pub open spec fn upload_request_like(s: UiState, r: UiUploadRequest) -> bool {
    &&& r.device_type == s.account.device_type
    &&& r.name == s.upload_name
    &&& r.description == s.upload_desc
    &&& r.static_png == s.upload_static_png
    &&& r.update_id == s.upload_edit.upload_id
    &&& r.mitantid == if trim(s.upload_mitantid@).len() > 0 { Some(s.upload_mitantid) } else { None }
    &&& r.mitantype@ == if s.upload_use_thread_link { "t"@ } else { "r"@ }
    &&& same_asset(r.preview_main, opt_asset(s.upload_preview_main))
    &&& same_asset(r.preview_aod, if s.upload_enable_aod1 { opt_asset(s.upload_preview_aod1) } else { None })
    &&& same_asset(r.preview_aod2, if s.upload_enable_aod2 { opt_asset(s.upload_preview_aod2) } else { None })
    &&& same_asset(r.preview_aod3, if s.upload_enable_aod3 { opt_asset(s.upload_preview_aod3) } else { None })
    &&& same_asset(r.watchface_file, opt_asset(s.upload_binary))
}

/// The start of an upload: a refused form shows why and submits
/// nothing; otherwise the operation is shown and the request made.
pub fn begin_submit_upload(st: &mut UiState) -> (r: Option<UiUploadRequest>)
    ensures
        match submit_refusal(*old(st)) {
            Some(m) => r is None && has_notice(*final(st), NoticeTone::Error, m) && *final(st) == (UiState {
                notice: final(st).notice,
                ..*old(st)
            }),
            None => {
                &&& r matches Some(req) && upload_request_like(*old(st), req)
                &&& final(st).busy && final(st).notice is None
                &&& final(st).progress matches Some(p) && p.label@ == "正在上传预览图与资源文件…"@ && p.value == 18
                &&& *final(st) == (UiState { busy: true, progress: final(st).progress, notice: None, ..*old(st) })
            },
        },
{
    let refusal: Option<&str> = if !st.account.logged_in {
        Some("请先登录米坛账号，再执行上传。")
    } else if trim_chars(st.upload_name.as_str()).len() == 0 {
        Some("资源名称不能为空。")
    } else if chars_contain(chars_of(st.upload_name.as_str()).as_slice(), chars_of("'").as_slice()) {
        Some("资源名称不能包含单引号。")
    } else if st.upload_binary.is_none() {
        Some("请先选择资源文件。")
    } else if st.upload_edit.upload_id.is_none() && st.upload_preview_main.is_none()
        && st.upload_edit.remote_preview_url.is_none() {
        Some("新建上传必须提供主预览图。")
    } else {
        None
    };
    proof {
        reveal_strlit("'");
        assert("'"@ =~= seq!['\'']);
    }
    match refusal {
        Some(m) => {
            st.notice = notice(NoticeTone::Error, m);
            return None;
        },
        None => {},
    }
    let request = UiUploadRequest {
        device_type: st.account.device_type.clone(),
        name: st.upload_name.clone(),
        description: st.upload_desc.clone(),
        static_png: st.upload_static_png,
        update_id: match &st.upload_edit.upload_id {
            Some(u) => Some(u.clone()),
            None => None,
        },
        mitantid: if trim_chars(st.upload_mitantid.as_str()).len() > 0 {
            Some(st.upload_mitantid.clone())
        } else {
            None
        },
        mitantype: String::from_str(if st.upload_use_thread_link { "t" } else { "r" }),
        preview_main: asset_of(&st.upload_preview_main),
        preview_aod: if st.upload_enable_aod1 {
            asset_of(&st.upload_preview_aod1)
        } else {
            None
        },
        preview_aod2: if st.upload_enable_aod2 {
            asset_of(&st.upload_preview_aod2)
        } else {
            None
        },
        preview_aod3: if st.upload_enable_aod3 {
            asset_of(&st.upload_preview_aod3)
        } else {
            None
        },
        watchface_file: asset_of(&st.upload_binary),
    };
    begin_operation(st, "正在上传预览图与资源文件…", 18);
    Some(request)
}

/// The end of an upload: the operation is over; on success the form
/// is reset, the uploads tab opened and success shown, and the uploads are
/// to be reloaded (`true`); on failure the error is shown.
pub fn finish_submit_upload(st: &mut UiState, result: Result<(), String>) -> (reload: bool)
    ensures
        !final(st).busy && final(st).progress is None,
        match result {
            Ok(()) => {
                &&& reload
                &&& has_notice(
                    *final(st),
                    NoticeTone::Success,
                    "资源已提交。社区侧仍可能有审核过程，具体状态请看“我的上传”。"@,
                )
                &&& final(st).active_panel == ActivePanel::Manage
                &&& form_reset(
                    UiState { notice: None, active_panel: old(st).active_panel, ..*final(st) },
                    UiState { busy: false, progress: None, notice: None, ..*old(st) },
                    true,
                )
            },
            Err(e) => !reload && has_notice(*final(st), NoticeTone::Error, e@) && *final(st) == (UiState {
                busy: false,
                progress: None,
                notice: final(st).notice,
                ..*old(st)
            }),
        },
{
    st.busy = false;
    st.progress = None;
    match result {
        Ok(()) => {
            st.notice = None;
            reset_upload_form(st, true);
            st.active_panel = ActivePanel::Manage;
            st.notice = notice(NoticeTone::Success, "资源已提交。社区侧仍可能有审核过程，具体状态请看“我的上传”。");
            true
        },
        Err(e) => {
            st.notice = Some(NoticeState { tone: NoticeTone::Error, message: e });
            false
        },
    }
}

// ----------------------------------------------------------------------------
// The uploads list.
/// The page size of the uploads list.
pub open spec fn uploads_page_size() -> int {
    18
}

/// The start of loading uploads: signed out, it asks to sign in; otherwise the
/// operation is shown and the page to fetch is the first (refresh) or the
/// next.
pub fn begin_load_uploads(st: &mut UiState, refresh: bool) -> (page: Option<usize>)
    ensures
        !old(st).account.logged_in ==> page is None && has_notice(
            *final(st),
            NoticeTone::Error,
            "请先登录，然后再查看“我的上传”。"@,
        ) && *final(st) == (UiState { notice: final(st).notice, ..*old(st) }),
        old(st).account.logged_in ==> {
            &&& page == Some(if refresh { 1usize } else { sat_add(old(st).uploads_page as int, 1) as usize })
            &&& final(st).busy && final(st).notice is None
            &&& final(st).progress matches Some(p) && (if refresh {
                p.label@ == "正在刷新上传列表…"@ && p.value == 30
            } else {
                p.label@ == "正在加载更多上传内容…"@ && p.value == 55
            })
            &&& *final(st) == (UiState { busy: true, progress: final(st).progress, notice: None, ..*old(st) })
        },
{
    if !st.account.logged_in {
        st.notice = notice(NoticeTone::Error, "请先登录，然后再查看“我的上传”。");
        return None;
    }
    if refresh {
        begin_operation(st, "正在刷新上传列表…", 30);
        Some(1)
    } else {
        let next = st.uploads_page.saturating_add(1);
        begin_operation(st, "正在加载更多上传内容…", 55);
        Some(next)
    }
}

/// The end of loading uploads: the fetched page replaces the list (refresh) or is
/// added to it; the page is remembered and a full page means there may be
/// more; on failure the error is shown.
pub fn finish_load_uploads(st: &mut UiState, refresh: bool, page: usize, result: Result<Vec<UiMyShareItem>, String>)
    ensures
        !final(st).busy && final(st).progress is None,
        match result {
            Ok(items) => {
                &&& final(st).uploads@ == if refresh { items@ } else { old(st).uploads@ + items@ }
                &&& final(st).uploads_has_more == (items@.len() >= uploads_page_size())
                &&& *final(st) == (UiState {
                    busy: false,
                    progress: None,
                    notice: None,
                    uploads: final(st).uploads,
                    uploads_page: page,
                    uploads_has_more: final(st).uploads_has_more,
                    ..*old(st)
                })
            },
            Err(e) => has_notice(*final(st), NoticeTone::Error, e@) && *final(st) == (UiState {
                busy: false,
                progress: None,
                notice: final(st).notice,
                ..*old(st)
            }),
        },
{
    st.busy = false;
    st.progress = None;
    match result {
        Ok(items) => {
            let n = items.len();
            if refresh {
                st.uploads = items;
            } else {
                let mut more = items;
                st.uploads.append(&mut more);
            }
            st.uploads_page = page;
            st.uploads_has_more = n >= 18;
            st.notice = None;
        },
        Err(e) => {
            st.notice = Some(NoticeState { tone: NoticeTone::Error, message: e });
        },
    }
}

pub fn duplicate_share_item(i: &UiMyShareItem) -> (r: UiMyShareItem)
    ensures
        r == *i,
{
    UiMyShareItem {
        id: i.id,
        display_name: i.display_name.clone(),
        name: i.name.clone(),
        description: i.description.clone(),
        device_type: i.device_type.clone(),
        device_name: i.device_name.clone(),
        preview_url: i.preview_url.clone(),
        preview_aod_url: crate::config::clone_opt(&i.preview_aod_url),
        preview_aod2_url: crate::config::clone_opt(&i.preview_aod2_url),
        preview_aod3_url: crate::config::clone_opt(&i.preview_aod3_url),
        is_share: i.is_share,
        is_review: i.is_review,
        download_times: i.download_times,
        updated_at: i.updated_at,
        created_at: i.created_at,
        mitantid: crate::config::clone_opt(&i.mitantid),
        mitantype: crate::config::clone_opt(&i.mitantype),
    }
}

/// The first listed upload with the id an event names.
pub open spec fn upload_named(s: UiState, id: Seq<char>, i: int) -> bool {
    0 <= i < s.uploads@.len() && parse_i64(id) == Some(s.uploads@[i].id)
        && forall|j: int| 0 <= j < i ==> s.uploads@[j].id != s.uploads@[i].id
}

/// `find_upload_by_id`: the first listed upload whose id is the event's
/// (decimal) id.
pub fn find_upload_by_id(st: &UiState, id: &str) -> (r: Option<UiMyShareItem>)
    ensures
        match r {
            Some(item) => exists|i: int| #[trigger] upload_named(*st, id@, i) && item == st.uploads@[i],
            None => match parse_i64(id@) {
                Some(v) => forall|i: int| 0 <= i < st.uploads@.len() ==> st.uploads@[i].id != v,
                None => true,
            },
        },
{
    let wanted = match parse_i64_str(id) {
        Some(v) => v,
        None => {
            return None;
        },
    };
    let mut i: usize = 0;
    while i < st.uploads.len()
        invariant
            i <= st.uploads@.len(),
            parse_i64(id@) == Some(wanted),
            forall|j: int| 0 <= j < i ==> st.uploads@[j].id != wanted,
        decreases st.uploads@.len() - i,
    {
        if st.uploads[i].id == wanted {
            proof {
                assert(upload_named(*st, id@, i as int));
            }
            return Some(duplicate_share_item(&st.uploads[i]));
        }
        i = i + 1;
    }
    None
}

/// Where the first upload with the id is listed.
pub fn first_index_of(items: &Vec<UiMyShareItem>, id: i64) -> (r: Option<usize>)
    ensures
        match r {
            Some(i) => i < items@.len() && items@[i as int].id == id && forall|j: int| 0 <= j < i ==> items@[j].id != id,
            None => forall|j: int| 0 <= j < items@.len() ==> items@[j].id != id,
        },
{
    let mut i: usize = 0;
    while i < items.len()
        invariant
            i <= items@.len(),
            forall|j: int| 0 <= j < i ==> items@[j].id != id,
        decreases items@.len() - i,
    {
        if items[i].id == id {
            return Some(i);
        }
        i = i + 1;
    }
    None
}

/// A share toggle once the request is answered: the first listed
/// upload with the id flips its shared flag, and the outcome is shown.
pub fn apply_share_toggled(st: &mut UiState, item_id: i64, was_shared: bool, result: Result<(), String>)
    ensures
        match result {
            Ok(()) => {
                &&& has_notice(
                    *final(st),
                    NoticeTone::Success,
                    if was_shared { "资源已下架。"@ } else { "资源已提交分享。"@ },
                )
                &&& final(st).uploads@.len() == old(st).uploads@.len()
                &&& forall|k: int|
                    0 <= k < old(st).uploads@.len() ==> #[trigger] final(st).uploads@[k] == if old(st).uploads@[k].id
                        == item_id && (forall|j: int| 0 <= j < k ==> old(st).uploads@[j].id != item_id) {
                        UiMyShareItem { is_share: !old(st).uploads@[k].is_share, ..old(st).uploads@[k] }
                    } else {
                        old(st).uploads@[k]
                    }
                &&& *final(st) == (UiState { uploads: final(st).uploads, notice: final(st).notice, ..*old(st) })
            },
            Err(e) => has_notice(*final(st), NoticeTone::Error, e@) && *final(st) == (UiState {
                notice: final(st).notice,
                ..*old(st)
            }),
        },
{
    match result {
        Ok(()) => {
            match first_index_of(&st.uploads, item_id) {
                Some(i) => {
                    let mut item = st.uploads.remove(i);
                    item.is_share = !item.is_share;
                    st.uploads.insert(i, item);
                    proof {
                        assert forall|k: int| 0 <= k < old(st).uploads@.len() implies #[trigger] st.uploads@[k] == if old(
                            st,
                        ).uploads@[k].id == item_id && (forall|j: int| 0 <= j < k ==> old(st).uploads@[j].id != item_id) {
                            UiMyShareItem { is_share: !old(st).uploads@[k].is_share, ..old(st).uploads@[k] }
                        } else {
                            old(st).uploads@[k]
                        } by {
                            if k > i {
                                assert(old(st).uploads@[i as int].id == item_id);
                            }
                        }
                    }
                },
                None => {},
            }
            st.notice = notice(NoticeTone::Success, if was_shared { "资源已下架。" } else { "资源已提交分享。" });
        },
        Err(e) => {
            st.notice = Some(NoticeState { tone: NoticeTone::Error, message: e });
        },
    }
}

/// The uploads other than the one with the id, in order.
pub open spec fn without_upload(s: Seq<UiMyShareItem>, id: i64) -> Seq<UiMyShareItem>
    decreases s.len(),
{
    if s.len() == 0 {
        seq![]
    } else if s.last().id == id {
        without_upload(s.drop_last(), id)
    } else {
        without_upload(s.drop_last(), id).push(s.last())
    }
}

/// A deletion once the request is answered: the upload leaves
/// the list, and the outcome is shown.
pub fn apply_upload_deleted(st: &mut UiState, item_id: i64, result: Result<(), String>)
    ensures
        match result {
            Ok(()) => has_notice(*final(st), NoticeTone::Success, "资源已删除。"@) && final(st).uploads@
                == without_upload(old(st).uploads@, item_id) && *final(st) == (UiState {
                uploads: final(st).uploads,
                notice: final(st).notice,
                ..*old(st)
            }),
            Err(e) => has_notice(*final(st), NoticeTone::Error, e@) && *final(st) == (UiState {
                notice: final(st).notice,
                ..*old(st)
            }),
        },
{
    match result {
        Ok(()) => {
            let mut input: Vec<UiMyShareItem> = Vec::new();
            std::mem::swap(&mut st.uploads, &mut input);
            let ghost orig = input@;
            let total = input.len();
            let mut kept: Vec<UiMyShareItem> = Vec::new();
            let mut k: usize = 0;
            proof {
                assert(orig.skip(0) =~= orig);
                assert(orig.take(0) =~= Seq::<UiMyShareItem>::empty());
            }
            while input.len() > 0
                invariant
                    k <= orig.len(),
                    orig.len() == total,
                    input@ == orig.skip(k as int),
                    kept@ == without_upload(orig.take(k as int), item_id),
                decreases input@.len(),
            {
                let x = input.remove(0);
                proof {
                    assert(orig.skip(k as int)[0] == x);
                    assert(orig.skip(k as int).remove(0) =~= orig.skip(k + 1));
                    let t = orig.take(k + 1);
                    assert(t.drop_last() =~= orig.take(k as int));
                    assert(t.last() == x);
                }
                if x.id != item_id {
                    kept.push(x);
                }
                k = k + 1;
            }
            proof {
                assert(orig.take(k as int) =~= orig);
            }
            st.uploads = kept;
            st.notice = notice(NoticeTone::Success, "资源已删除。");
        },
        Err(e) => {
            st.notice = Some(NoticeState { tone: NoticeTone::Error, message: e });
        },
    }
}

/// A bump of an upload once the request is answered: the outcome.
pub fn apply_upload_topped(st: &mut UiState, result: Result<(), String>)
    ensures
        match result {
            Ok(()) => has_notice(*final(st), NoticeTone::Success, "顶贴请求已提交。"@),
            Err(e) => has_notice(*final(st), NoticeTone::Error, e@),
        },
        *final(st) == (UiState { notice: final(st).notice, ..*old(st) }),
{
    match result {
        Ok(()) => {
            st.notice = notice(NoticeTone::Success, "顶贴请求已提交。");
        },
        Err(e) => {
            st.notice = Some(NoticeState { tone: NoticeTone::Error, message: e });
        },
    }
}

/// Only a refused upload has reasons to show.
pub fn reason_wanted(item: &UiMyShareItem) -> (r: bool)
    ensures
        r == (item.is_review == 0),
{
    item.is_review == 0
}

/// The dialog of an upload's refusal reason: its title and text.
pub fn reason_dialog(result: Result<Option<String>, String>) -> (r: (String, String))
    ensures
        match result {
            Ok(Some(reason)) => r.0@ == "未通过原因"@ && r.1 == reason,
            Ok(None) => r.0@ == "未通过原因"@ && r.1@ == "社区暂未返回具体原因。"@,
            Err(e) => r.0@ == "获取失败"@ && r.1 == e,
        },
{
    match result {
        Ok(Some(reason)) => (String::from_str("未通过原因"), reason),
        Ok(None) => (String::from_str("未通过原因"), String::from_str("社区暂未返回具体原因。")),
        Err(e) => (String::from_str("获取失败"), e),
    }
}

/// Editing an upload: it is loaded into the form (its device,
/// name, description, forum id and type, always-on-display slots for the
/// previews it has, its online previews) with nothing picked, the upload
/// tab opened and the hint shown. (The device choice is then stored.)
pub open spec fn edit_loaded(new: UiState, old: UiState, item: UiMyShareItem) -> bool {
    &&& new.active_panel == ActivePanel::Upload
    &&& new.account == (UiAccountSnapshot {
        device_type: item.device_type,
        device_name: item.device_name,
        ..old.account
    })
    &&& new.upload_name == item.name
    &&& new.upload_desc == item.description
    &&& new.upload_mitantid@ == match item.mitantid {
        Some(m) => m@,
        None => Seq::<char>::empty(),
    }
    &&& new.upload_use_thread_link == match item.mitantype {
        Some(t) => !starts_with(t@, seq!['r']),
        None => true,
    }
    &&& new.upload_binary is None && new.upload_preview_main is None
    &&& new.upload_preview_aod1 is None && new.upload_preview_aod2 is None && new.upload_preview_aod3 is None
    &&& new.upload_enable_aod1 == item.preview_aod_url is Some
    &&& new.upload_enable_aod2 == item.preview_aod2_url is Some
    &&& new.upload_enable_aod3 == item.preview_aod3_url is Some
    &&& new.upload_edit.upload_id matches Some(u) && u@ == int_text(item.id as int)
    &&& new.upload_edit.remote_preview_url == if trim(item.preview_url@).len() == 0 {
        None
    } else {
        Some(item.preview_url)
    }
    &&& new.upload_edit.remote_preview_aod_url == item.preview_aod_url
    &&& new.upload_edit.remote_preview_aod2_url == item.preview_aod2_url
    &&& new.upload_edit.remote_preview_aod3_url == item.preview_aod3_url
    &&& has_notice(new, NoticeTone::Info, "已把条目载入上传表单。当前插件的更新模式要求你重新选择资源文件后再提交。"@)
    &&& new == (UiState {
        active_panel: new.active_panel,
        account: new.account,
        upload_name: new.upload_name,
        upload_desc: new.upload_desc,
        upload_mitantid: new.upload_mitantid,
        upload_use_thread_link: new.upload_use_thread_link,
        upload_binary: None,
        upload_preview_main: None,
        upload_preview_aod1: None,
        upload_preview_aod2: None,
        upload_preview_aod3: None,
        upload_enable_aod1: new.upload_enable_aod1,
        upload_enable_aod2: new.upload_enable_aod2,
        upload_enable_aod3: new.upload_enable_aod3,
        upload_edit: new.upload_edit,
        notice: new.notice,
        ..old
    })
}

pub fn apply_edit_upload(st: &mut UiState, item: &UiMyShareItem)
    ensures
        edit_loaded(*final(st), *old(st), *item),
{
    proof {
        reveal_strlit("r");
        reveal_strlit("");
        assert("r"@ =~= seq!['r']);
        assert(""@ =~= Seq::<char>::empty());
    }
    st.active_panel = ActivePanel::Upload;
    st.account.device_type = item.device_type.clone();
    st.account.device_name = item.device_name.clone();
    st.upload_name = item.name.clone();
    st.upload_desc = item.description.clone();
    st.upload_mitantid = match &item.mitantid {
        Some(m) => m.clone(),
        None => String::from_str(""),
    };
    st.upload_use_thread_link = match &item.mitantype {
        Some(t) => !str_starts_with(t.as_str(), "r"),
        None => true,
    };
    st.upload_binary = None;
    st.upload_preview_main = None;
    st.upload_preview_aod1 = None;
    st.upload_preview_aod2 = None;
    st.upload_preview_aod3 = None;
    st.upload_enable_aod1 = item.preview_aod_url.is_some();
    st.upload_enable_aod2 = item.preview_aod2_url.is_some();
    st.upload_enable_aod3 = item.preview_aod3_url.is_some();
    st.upload_edit = UploadEditState {
        upload_id: Some(i64_to_text(item.id)),
        remote_preview_url: if trim_chars(item.preview_url.as_str()).len() == 0 {
            None
        } else {
            Some(item.preview_url.clone())
        },
        remote_preview_aod_url: crate::config::clone_opt(&item.preview_aod_url),
        remote_preview_aod2_url: crate::config::clone_opt(&item.preview_aod2_url),
        remote_preview_aod3_url: crate::config::clone_opt(&item.preview_aod3_url),
    };
    st.notice = notice(NoticeTone::Info, "已把条目载入上传表单。当前插件的更新模式要求你重新选择资源文件后再提交。");
}

// ----------------------------------------------------------------------------
// Start-up and rendering.
/// `render_main_ui`: the element to render into is remembered; answers
/// whether the work-bench still has to load its data first.
pub fn render_main_ui(st: &mut UiState, element_id: &str) -> (needs_init: bool)
    ensures
        needs_init == !old(st).initialized,
        final(st).root_element_id matches Some(r) && r@ == element_id@,
        *final(st) == (UiState { root_element_id: final(st).root_element_id, ..*old(st) }),
{
    st.root_element_id = Some(String::from_str(element_id));
    !st.initialized
}

/// The work-bench once its data is loaded: the devices, the account,
/// the upload notes and the first page of uploads (empty when signed out);
/// a full page means there may be more.
pub fn initialize(
    st: &mut UiState,
    devices: Vec<UiDeviceChoice>,
    account: UiAccountSnapshot,
    upload_tips: String,
    uploads: Vec<UiMyShareItem>,
)
    ensures
        account.logged_in ==> final(st).uploads == uploads,
        !account.logged_in ==> final(st).uploads@.len() == 0,
        final(st).uploads_has_more == (final(st).uploads@.len() >= uploads_page_size()),
        *final(st) == (UiState {
            initialized: true,
            devices,
            account,
            upload_tips,
            uploads: final(st).uploads,
            uploads_page: 1,
            uploads_has_more: final(st).uploads_has_more,
            ..*old(st)
        }),
{
    let shown = if account.logged_in {
        uploads
    } else {
        Vec::new()
    };
    let more = shown.len() >= 18;
    st.initialized = true;
    st.devices = devices;
    st.account = account;
    st.upload_tips = upload_tips;
    st.uploads = shown;
    st.uploads_page = 1;
    st.uploads_has_more = more;
}

} // verus!
