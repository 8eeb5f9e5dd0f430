//! Data types shared by the skin loader, the package installer and the
//! commands.

use vstd::prelude::*;
use crate::json::JsonValue;
use crate::text::{chars_eq, chars_of, starts_with, starts_with_exec, trim_start_chars, trim_start_ws};

verus! {

/// One option of a "select"-like setting.  `label_zh` falls back to
/// `value` in the UI.
#[derive(Debug)]
pub struct SkinSettingOption {
    pub value: String,
    pub label_zh: Option<String>,
    pub label_en: Option<String>,
}

/// The control a custom setting is rendered as, and the shape of its value.
#[derive(Debug, Clone, Copy, PartialEq, Eq, Structural)]
pub enum SkinSettingKind {
    Boolean,
    Number,
    Stepper,
    Text,
    LongText,
    Time,
    Date,
    Palette,
    Select,
    MultiSelect,
    Radio,
    Weekdays,
    Font,
    Slider,
    TimeRange,
    TaskList,
    TodoList,
    DateTime,
    Password,
    DateTaskList,
    File,
    Directory,
    GpuAdapter,
}

/// A custom setting declared by the skin author in skin.json "settings".
/// The numeric bounds and step of number-like settings are floating point
/// and stay with the caller.
#[derive(Debug)]
pub struct SkinSettingDef {
    pub key: String,
    pub kind: SkinSettingKind,
    pub label_zh: Option<String>,
    pub label_en: Option<String>,
    pub description_zh: Option<String>,
    pub description_en: Option<String>,
    pub group_zh: Option<String>,
    pub group_en: Option<String>,
    pub default: Option<JsonValue>,
    pub options: Vec<SkinSettingOption>,
    pub filters: Vec<String>,
}

impl SkinSettingDef {
    /// The allowed values of a select-like setting, in declaration order.
    pub open spec fn option_values(&self) -> Seq<Seq<char>> {
        self.options@.map_values(|o: SkinSettingOption| o.value@)
    }
}


/// Window defaults declared in skin.json (the floating-point opacity and
/// zoom stay with the caller).
#[derive(Debug, Clone, Copy)]
pub struct WindowDefaults {
    pub width: u32,
    pub height: u32,
    pub transparent: bool,
    pub always_on_top: bool,
    pub on_desktop: bool,
    pub resizable: bool,
    pub refresh_seconds: Option<u32>,
    pub edge_snap: bool,
    pub snap_gap: u32,
}

/// Skin manifest as read from skin.json.
#[derive(Debug)]
pub struct SkinManifest {
    pub id: Option<String>,
    pub name_zh: Option<String>,
    pub name_en: Option<String>,
    pub author: Option<String>,
    pub version: Option<String>,
    pub min_host_version: Option<String>,
    pub description_zh: Option<String>,
    pub description_en: Option<String>,
    pub entry: String,
    pub window: WindowDefaults,
    pub permissions: Vec<String>,
    pub settings: Vec<SkinSettingDef>,
}

pub open spec fn opt_str_view(o: Option<&str>) -> Option<Seq<char>> {
    match o {
        Some(s) => Some(s@),
        None => None,
    }
}

pub open spec fn opt_string_view(o: Option<String>) -> Option<Seq<char>> {
    match o {
        Some(s) => Some(s@),
        None => None,
    }
}

/// A present, non-empty text.
pub open spec fn nonempty_text(o: Option<Seq<char>>) -> Option<Seq<char>> {
    match o {
        Some(s) => if s.len() > 0 {
            Some(s)
        } else {
            None
        },
        None => None,
    }
}

/// Bilingual text choice: the interface language's text first, the other
/// language's text when it is missing or empty, "" when both are.
pub open spec fn picked_text(lang: Seq<char>, zh: Option<Seq<char>>, en: Option<Seq<char>>) -> Seq<
    char,
> {
    let z = nonempty_text(zh);
    let e = nonempty_text(en);
    let pick = if lang == seq!['e', 'n'] {
        if e is Some {
            e
        } else {
            z
        }
    } else {
        if z is Some {
            z
        } else {
            e
        }
    };
    match pick {
        Some(t) => t,
        None => Seq::empty(),
    }
}

fn nonempty_exec(o: Option<&str>) -> (r: Option<Vec<char>>)
    ensures
        match r {
            Some(v) => nonempty_text(opt_str_view(o)) == Some(v@),
            None => nonempty_text(opt_str_view(o)) is None,
        },
{
    match o {
        Some(s) => {
            let v = chars_of(s);
            if v.len() > 0 {
                Some(v)
            } else {
                None
            }
        },
        None => None,
    }
}

/// Shared picker behind the display name and description: the English
/// interface prefers `en` and falls back to `zh`; any other language
/// prefers `zh` and falls back to `en`.
pub fn pick_skin_text(lang: &str, zh: Option<&str>, en: Option<&str>) -> (r: String)
    ensures
        r@ == picked_text(lang@, opt_str_view(zh), opt_str_view(en)),
{
    let z = nonempty_exec(zh);
    let e = nonempty_exec(en);
    let l = chars_of(lang);
    let en_tag = vec!['e', 'n'];
    let pick = if chars_eq(&l, &en_tag) {
        if e.is_some() {
            e
        } else {
            z
        }
    } else {
        if z.is_some() {
            z
        } else {
            e
        }
    };
    match pick {
        Some(t) => crate::text::string_of(&t),
        None => String::new(),
    }
}

pub open spec fn opt_ref_view(o: &Option<String>) -> Option<Seq<char>> {
    match o {
        Some(s) => Some(s@),
        None => None,
    }
}

impl SkinManifest {
    /// Display name in `lang` (see [`pick_skin_text`]).
    pub fn display_name(&self, lang: &str) -> (r: String)
        ensures
            r@ == picked_text(lang@, opt_ref_view(&self.name_zh), opt_ref_view(&self.name_en)),
    {
        let zh = match &self.name_zh {
            Some(s) => Some(s.as_str()),
            None => None,
        };
        let en = match &self.name_en {
            Some(s) => Some(s.as_str()),
            None => None,
        };
        pick_skin_text(lang, zh, en)
    }

    /// Description in `lang`; `None` when both languages are empty.
    pub fn display_description(&self, lang: &str) -> (r: Option<String>)
        ensures
            match r {
                Some(d) => d@ == picked_text(
                    lang@,
                    opt_ref_view(&self.description_zh),
                    opt_ref_view(&self.description_en),
                ) && d@.len() > 0,
                None => picked_text(
                    lang@,
                    opt_ref_view(&self.description_zh),
                    opt_ref_view(&self.description_en),
                ).len() == 0,
            },
    {
        let zh = match &self.description_zh {
            Some(s) => Some(s.as_str()),
            None => None,
        };
        let en = match &self.description_en {
            Some(s) => Some(s.as_str()),
            None => None,
        };
        let d = pick_skin_text(lang, zh, en);
        if d.as_str().unicode_len() == 0 {
            None
        } else {
            Some(d)
        }
    }
}

pub open spec fn https_prefix() -> Seq<char> {
    seq!['h', 't', 't', 'p', 's', ':', '/', '/']
}

pub open spec fn http_prefix() -> Seq<char> {
    seq!['h', 't', 't', 'p', ':', '/', '/']
}

/// A web-skin entry: an http(s) URL after leading whitespace.
pub open spec fn url_entry(e: Seq<char>) -> bool {
    starts_with(trim_start_ws(e), https_prefix()) || starts_with(trim_start_ws(e), http_prefix())
}

/// Whether the entry is a web page (http/https URL) rather than a file.
pub fn is_url_entry(entry: &str) -> (b: bool)
    ensures
        b == url_entry(entry@),
{
    let v = chars_of(entry);
    let t = trim_start_chars(&v);
    let https = vec!['h', 't', 't', 'p', 's', ':', '/', '/'];
    let http = vec!['h', 't', 't', 'p', ':', '/', '/'];
    assert(https@ =~= https_prefix());
    assert(http@ =~= http_prefix());
    starts_with_exec(&t, &https) || starts_with_exec(&t, &http)
}

/// Lightweight info sent to the manager's skin list.
#[derive(Debug)]
pub struct SkinInfo {
    pub id: String,
    pub name_zh: String,
    pub name_en: Option<String>,
    pub author: Option<String>,
    pub version: Option<String>,
    pub description_zh: Option<String>,
    pub description_en: Option<String>,
    pub loaded: bool,
    pub hidden: bool,
    pub preview: Option<String>,
}

/// Persisted focus-mode state: whether it is active, the action it was
/// entered with, and the skins it affected.
#[derive(Debug, Clone)]
pub struct FocusModeState {
    pub active: bool,
    pub action: String,
    pub snapshot: Vec<String>,
}

/// A skin group; the order of groups is their display order.
#[derive(Debug, Clone)]
pub struct SkinGroup {
    pub id: String,
    pub name: String,
    pub collapsed: bool,
}

/// One skin's placement in a layout preset.
#[derive(Debug, Clone, Copy, PartialEq, Eq, Structural)]
pub struct LayoutSkin {
    pub x: Option<i32>,
    pub y: Option<i32>,
    pub width: u32,
    pub height: u32,
    pub visible: bool,
}

/// A named desktop arrangement: the skins it holds and where.
#[derive(Debug, Clone)]
pub struct LayoutPreset {
    pub id: String,
    pub name: String,
    pub skins: Vec<(String, LayoutSkin)>,
}

/// Default entry file of a skin.
pub fn default_entry() -> (r: String)
    ensures
        r@ == "index.html"@,
{
    String::from_str("index.html")
}

/// Default base width of a skin window.
pub fn default_width() -> (r: u32)
    ensures
        r == 300,
{
    300
}

/// Default base height of a skin window.
pub fn default_height() -> (r: u32)
    ensures
        r == 200,
{
    200
}

/// Default of the flags that start on.
pub fn default_true() -> (r: bool)
    ensures
        r,
{
    true
}

/// Hot reload starts off.
pub fn default_hot_reload() -> (r: bool)
    ensures
        !r,
{
    false
}

/// The update check starts on.
pub fn default_update_check() -> (r: bool)
    ensures
        r,
{
    true
}

/// Title-bar warnings start on.
pub fn default_titlebar_warnings() -> (r: bool)
    ensures
        r,
{
    true
}

/// Focus mode hides skins unless told otherwise.
pub fn default_focus_mode_action() -> (r: String)
    ensures
        r@ == "hide"@,
{
    String::from_str("hide")
}

/// Default global hotkey.
pub fn default_hotkey_toggle_skins() -> (r: String)
    ensures
        r@ == "Ctrl+Shift+Alt+D"@,
{
    String::from_str("Ctrl+Shift+Alt+D")
}

/// Default UI theme.
pub fn default_theme() -> (r: String)
    ensures
        r@ == "auto"@,
{
    String::from_str("auto")
}

/// Skins in a layout are visible unless recorded otherwise.
pub fn default_layout_visible() -> (r: bool)
    ensures
        r,
{
    true
}

impl FocusModeState {
    /// Inactive, hide action, empty snapshot.
    pub fn new() -> (r: FocusModeState)
        ensures
            !r.active,
            r.action@ == "hide"@,
            r.snapshot@.len() == 0,
    {
        FocusModeState { active: false, action: default_focus_mode_action(), snapshot: Vec::new() }
    }
}

} // verus!
