//! The config file rules: the default config, a leading byte-order mark is
//! tolerated, the two placement modes of a skin are exclusive, and the
//! one-time migration of version-1 configs that kept custom setting values
//! inline.

use vstd::prelude::*;
use crate::json::{
    entries_model, json_get, json_member, obj_lookup, object_get, JsonModel, JsonNumber, JsonValue, NumberModel,
};
use crate::skin::loader::{set_value, upsert};
use crate::text::chars_of;
use crate::skin::types::{
    default_focus_mode_action, default_hot_reload, default_hotkey_toggle_skins, default_theme,
    default_titlebar_warnings, default_update_check,
};

verus! {


// ─── The default config ──────────────────────────────────────────────────

pub open spec fn empty_object() -> JsonModel {
    JsonModel::Object(Seq::empty())
}

pub open spec fn empty_array() -> JsonModel {
    JsonModel::Array(Seq::empty())
}

/// The config of a first start, as written to config.json, members in
/// their stored order.  The focus-mode record is its type's plain default
/// (inactive, empty action, empty snapshot).
pub open spec fn default_config_model(language: Seq<char>) -> JsonModel {
    JsonModel::Object(
        seq![
            ("version"@, JsonModel::Number(NumberModel::PosInt(2))),
            ("loaded_skins"@, empty_array()),
            ("skin_settings"@, empty_object()),
            ("autostart"@, JsonModel::Bool(false)),
            ("theme"@, JsonModel::Str("auto"@)),
            ("language"@, JsonModel::Str(language)),
            ("skin_groups"@, empty_array()),
            ("skin_group_map"@, empty_object()),
            ("layouts"@, empty_array()),
            ("hotkey_toggle_skins"@, JsonModel::Str("Ctrl+Shift+Alt+D"@)),
            ("hot_reload"@, JsonModel::Bool(false)),
            ("update_check"@, JsonModel::Bool(true)),
            ("allow_elevated"@, JsonModel::Bool(false)),
            ("webview2_floor_noticed"@, JsonModel::Bool(false)),
            ("titlebar_warnings"@, JsonModel::Bool(true)),
            ("bundled_skins_seeded"@, JsonModel::Bool(false)),
            ("focus_mode_action"@, JsonModel::Str("hide"@)),
            ("focus_mode_auto_fullscreen"@, JsonModel::Bool(false)),
            (
                "focus_mode"@,
                JsonModel::Object(
                    seq![
                        ("active"@, JsonModel::Bool(false)),
                        ("action"@, JsonModel::Str(Seq::empty())),
                        ("snapshot"@, empty_array()),
                    ],
                ),
            ),
        ],
    )
}

fn key(k: &str) -> (r: String)
    ensures
        r@ == k@,
{
    String::from_str(k)
}

fn empty_object_value() -> (r: JsonValue)
    ensures
        r.model() == empty_object(),
{
    let e: Vec<(String, JsonValue)> = Vec::new();
    proof {
        crate::json::lemma_object_model(&e);
    }
    assert(crate::json::entries_model(e@) =~= Seq::<(Seq<char>, JsonModel)>::empty());
    JsonValue::Object(e)
}

fn empty_array_value() -> (r: JsonValue)
    ensures
        r.model() == empty_array(),
{
    let a: Vec<JsonValue> = Vec::new();
    proof {
        crate::json::lemma_array_model(&a);
    }
    assert(crate::json::elems_model(a@) =~= Seq::<JsonModel>::empty());
    JsonValue::Array(a)
}

/// The config of a first start in `language` (the OS UI language).
pub fn default_app_config(language: &str) -> (r: JsonValue)
    ensures
        r.model() == default_config_model(language@),
{
    let focus = vec![
        (key("active"), JsonValue::Bool(false)),
        (key("action"), JsonValue::Str(String::new())),
        (key("snapshot"), empty_array_value()),
    ];
    proof {
        crate::json::lemma_object_model(&focus);
    }
    assert(crate::json::entries_model(focus@) =~= default_config_model(language@)->Object_0[18].1->Object_0);
    let entries = vec![
        (key("version"), JsonValue::Number(JsonNumber::PosInt(2))),
        (key("loaded_skins"), empty_array_value()),
        (key("skin_settings"), empty_object_value()),
        (key("autostart"), JsonValue::Bool(false)),
        (key("theme"), JsonValue::Str(default_theme())),
        (key("language"), JsonValue::Str(String::from_str(language))),
        (key("skin_groups"), empty_array_value()),
        (key("skin_group_map"), empty_object_value()),
        (key("layouts"), empty_array_value()),
        (key("hotkey_toggle_skins"), JsonValue::Str(default_hotkey_toggle_skins())),
        (key("hot_reload"), JsonValue::Bool(default_hot_reload())),
        (key("update_check"), JsonValue::Bool(default_update_check())),
        (key("allow_elevated"), JsonValue::Bool(false)),
        (key("webview2_floor_noticed"), JsonValue::Bool(false)),
        (key("titlebar_warnings"), JsonValue::Bool(default_titlebar_warnings())),
        (key("bundled_skins_seeded"), JsonValue::Bool(false)),
        (key("focus_mode_action"), JsonValue::Str(default_focus_mode_action())),
        (key("focus_mode_auto_fullscreen"), JsonValue::Bool(false)),
        (key("focus_mode"), JsonValue::Object(focus)),
    ];
    proof {
        crate::json::lemma_object_model(&entries);
    }
    assert(crate::json::entries_model(entries@) =~= default_config_model(language@)->Object_0);
    JsonValue::Object(entries)
}

/// A first-start config is taken as it is: loading finds it complete, it
/// needs no migration, and it grants no elevated run.
pub proof fn law_default_config_is_settled(language: Seq<char>)
    ensures
        crate::elevation::full_shaped(default_config_model(language)),
        !migration_due(default_config_model(language)),
        !crate::elevation::flag_of(Some(default_config_model(language))),
{
    let e = default_config_model(language)->Object_0;
    reveal_strlit("version");
    reveal_strlit("loaded_skins");
    reveal_strlit("skin_settings");
    reveal_strlit("autostart");
    reveal_strlit("theme");
    reveal_strlit("language");
    reveal_strlit("skin_groups");
    reveal_strlit("skin_group_map");
    reveal_strlit("layouts");
    reveal_strlit("hotkey_toggle_skins");
    reveal_strlit("hot_reload");
    reveal_strlit("update_check");
    reveal_strlit("allow_elevated");
    let names = seq![
        "version"@,
        "loaded_skins"@,
        "skin_settings"@,
        "autostart"@,
        "theme"@,
        "language"@,
        "skin_groups"@,
        "skin_group_map"@,
        "layouts"@,
        "hotkey_toggle_skins"@,
        "hot_reload"@,
        "update_check"@,
        "allow_elevated"@,
    ];
    assert forall|j: int| 0 <= j < 13 implies (#[trigger] e[j]).0 == names[j] by {}
    let lens = seq![7int, 12, 13, 9, 5, 8, 11, 14, 7, 19, 10, 12, 14];
    assert forall|j: int| 0 <= j < 13 implies (#[trigger] names[j]).len() == lens[j] by {}
    assert(names[7][0] != names[12][0]);
    assert forall|j: int| 0 <= j < 1 implies (#[trigger] e[j]).0 != names[1] by {}
    assert forall|j: int| 0 <= j < 2 implies (#[trigger] e[j]).0 != names[2] by {}
    assert forall|j: int| 0 <= j < 12 implies (#[trigger] e[j]).0 != names[12] by {
        if j == 7 {
            assert(e[j].0[0] != names[12][0]);
        } else {
            assert(e[j].0.len() != names[12].len());
        }
    }
    crate::skin::loader::lemma_lookup_first(e, names[1], 1);
    crate::skin::loader::lemma_lookup_first(e, names[2], 2);
    crate::skin::loader::lemma_lookup_first(e, names[12], 12);
}

/// `s` without its leading byte-order marks (U+FEFF).
pub open spec fn without_bom(s: Seq<char>) -> Seq<char>
    decreases s.len(),
{
    if s.len() > 0 && s[0] == '\u{feff}' {
        without_bom(s.drop_first())
    } else {
        s
    }
}

/// Drops the leading byte-order marks that some editors write, so that such
/// a file still parses.
pub fn strip_bom(text: &str) -> (r: String)
    ensures
        r@ == without_bom(text@),
{
    let v = chars_of(text);
    let mut i: usize = 0;
    assert(v@.skip(0) =~= v@);
    while i < v.len() && v[i] == '\u{feff}'
        invariant
            i <= v.len(),
            without_bom(v@) == without_bom(v@.skip(i as int)),
        decreases v.len() - i,
    {
        assert(v@.skip(i as int).drop_first() =~= v@.skip(i + 1));
        i = i + 1;
    }
    let rest = crate::text::sub_chars(&v, i, v.len());
    assert(rest@ =~= v@.skip(i as int));
    crate::text::string_of(&rest)
}

/// The placement of a skin window after loading: "always on top" and "on
/// desktop" are exclusive modes; a config with both or neither set is read
/// as "on desktop".
pub open spec fn normalized_placement(always_on_top: bool, on_desktop: bool) -> (bool, bool) {
    if always_on_top == on_desktop {
        (false, true)
    } else {
        (always_on_top, on_desktop)
    }
}

/// Normalizes the placement flags of one skin's config.
pub fn normalize_mode_flags(always_on_top: &mut bool, on_desktop: &mut bool)
    ensures
        (*final(always_on_top), *final(on_desktop)) == normalized_placement(
            *old(always_on_top),
            *old(on_desktop),
        ),
{
    if *always_on_top == *on_desktop {
        *always_on_top = false;
        *on_desktop = true;
    }
}

/// After normalizing, exactly one placement mode is on, and normalizing
/// again changes nothing.
pub proof fn law_placement_exclusive(always_on_top: bool, on_desktop: bool)
    ensures
        normalized_placement(always_on_top, on_desktop).0 != normalized_placement(
            always_on_top,
            on_desktop,
        ).1,
        normalized_placement(
            normalized_placement(always_on_top, on_desktop).0,
            normalized_placement(always_on_top, on_desktop).1,
        ) == normalized_placement(always_on_top, on_desktop),
{
}

/// A bool member of an object's entries, or `default` when it is missing or
/// not a bool.
pub open spec fn bool_member(entries: Seq<(Seq<char>, JsonModel)>, k: Seq<char>, default: bool) -> bool {
    match obj_lookup(entries, k) {
        Some(JsonModel::Bool(b)) => b,
        _ => default,
    }
}

/// One skin's stored config with its placement normalized: both flags are
/// written, read with their defaults (not on top, on desktop) where they
/// were missing.  A value that is not an object is left as it is.
pub open spec fn placed_entry(cfg: JsonModel) -> JsonModel {
    match cfg {
        JsonModel::Object(e) => {
            let p = normalized_placement(
                bool_member(e, "always_on_top"@, false),
                bool_member(e, "on_desktop"@, true),
            );
            JsonModel::Object(
                upsert(upsert(e, "always_on_top"@, JsonModel::Bool(p.0)), "on_desktop"@, JsonModel::Bool(p.1)),
            )
        },
        _ => cfg,
    }
}

/// A loaded config with the placement of every skin in its "skin_settings"
/// normalized (see [`placed_entry`]); anything else is left as it is.
pub open spec fn placements_normalized(config: JsonModel) -> JsonModel {
    match config {
        JsonModel::Object(top) => match obj_lookup(top, "skin_settings"@) {
            Some(JsonModel::Object(ss)) => JsonModel::Object(
                upsert(
                    top,
                    "skin_settings"@,
                    JsonModel::Object(
                        ss.map_values(|en: (Seq<char>, JsonModel)| (en.0, placed_entry(en.1))),
                    ),
                ),
            ),
            _ => config,
        },
        _ => config,
    }
}

/// The bool member `k` of an object's entries, or `default`.
fn read_bool(entries: &Vec<(String, JsonValue)>, k: &str, default: bool) -> (b: bool)
    ensures
        b == bool_member(entries_model(entries@), k@, default),
{
    let kv = chars_of(k);
    match object_get(entries, &kv) {
        Some(JsonValue::Bool(b)) => *b,
        _ => default,
    }
}

/// One skin's stored config with its placement normalized.
fn placed_copy(cfg: &JsonValue) -> (r: JsonValue)
    ensures
        r.model() == placed_entry(cfg.model()),
{
    match cfg {
        JsonValue::Object(e) => {
            proof {
                crate::json::lemma_object_model(e);
            }
            let mut top = read_bool(e, "always_on_top", false);
            let mut desk = read_bool(e, "on_desktop", true);
            normalize_mode_flags(&mut top, &mut desk);
            let mut out = match cfg.copy() {
                JsonValue::Object(c) => c,
                _ => Vec::new(),
            };
            proof {
                crate::json::lemma_object_model(&out);
            }
            assert(entries_model(out@) == entries_model(e@));
            set_value(&mut out, "always_on_top".to_string(), JsonValue::Bool(top));
            set_value(&mut out, "on_desktop".to_string(), JsonValue::Bool(desk));
            proof {
                crate::json::lemma_object_model(&out);
            }
            JsonValue::Object(out)
        },
        _ => cfg.copy(),
    }
}

/// Normalizes the placement of every skin in a loaded config, so that each
/// one is either always on top or on the desktop, never both or neither.
pub fn normalize_config_placements(config: JsonValue) -> (r: JsonValue)
    ensures
        r.model() == placements_normalized(config.model()),
{
    let ghost m = config.model();
    match config {
        JsonValue::Object(mut top) => {
            proof {
                crate::json::lemma_object_model(&top);
            }
            let key = chars_of("skin_settings");
            let placed: Option<Vec<(String, JsonValue)>> = match object_get(&top, &key) {
                Some(JsonValue::Object(ss)) => {
                    proof {
                        crate::json::lemma_object_model(ss);
                    }
                    let ghost want = entries_model(ss@).map_values(
                        |en: (Seq<char>, JsonModel)| (en.0, placed_entry(en.1)),
                    );
                    let mut out: Vec<(String, JsonValue)> = Vec::new();
                    let mut i: usize = 0;
                    while i < ss.len()
                        invariant
                            i <= ss.len(),
                            out.len() == i,
                            want == entries_model(ss@).map_values(
                                |en: (Seq<char>, JsonModel)| (en.0, placed_entry(en.1)),
                            ),
                            forall|j: int| 0 <= j < i ==> #[trigger] entries_model(out@)[j] == want[j],
                        decreases ss.len() - i,
                    {
                        let v = placed_copy(&ss[i].1);
                        let ghost before = out@;
                        out.push((ss[i].0.clone(), v));
                        assert forall|j: int| 0 <= j < i + 1 implies #[trigger] entries_model(out@)[j]
                            == want[j] by {
                            if j < i {
                                assert(out@[j] == before[j]);
                                assert(entries_model(out@)[j] == entries_model(before)[j]);
                            }
                        }
                        i = i + 1;
                    }
                    assert(entries_model(out@) =~= want);
                    Some(out)
                },
                _ => None,
            };
            match placed {
                Some(out) => {
                    let ghost pm = JsonValue::Object(out).model();
                    proof {
                        crate::json::lemma_object_model(&out);
                    }
                    set_value(&mut top, "skin_settings".to_string(), JsonValue::Object(out));
                    proof {
                        crate::json::lemma_object_model(&top);
                    }
                    JsonValue::Object(top)
                },
                None => JsonValue::Object(top),
            }
        },
        other => other,
    }
}

/// Once a config is loaded, every skin in it has exactly one placement:
/// always on top or on the desktop.
pub proof fn law_loaded_placements_exclusive(config: JsonModel, id: Seq<char>)
    requires
        json_get(config, "skin_settings"@) matches Some(JsonModel::Object(ss)) && obj_lookup(ss, id) matches Some(
            JsonModel::Object(_),
        ),
    ensures
        json_get(placements_normalized(config), "skin_settings"@) matches Some(JsonModel::Object(ss2))
            && obj_lookup(ss2, id) matches Some(JsonModel::Object(e)) && obj_lookup(e, "always_on_top"@) matches Some(
            JsonModel::Bool(top),
        ) && obj_lookup(e, "on_desktop"@) matches Some(JsonModel::Bool(desk)) && top != desk,
{
    let top = config->Object_0;
    let ss = obj_lookup(top, "skin_settings"@)->Some_0->Object_0;
    let placed = ss.map_values(|en: (Seq<char>, JsonModel)| (en.0, placed_entry(en.1)));
    crate::skin::loader::lemma_upsert_lookup(top, "skin_settings"@, JsonModel::Object(placed), "skin_settings"@);
    lemma_lookup_placed(ss, id);
    let e = obj_lookup(ss, id)->Some_0->Object_0;
    let p = normalized_placement(bool_member(e, "always_on_top"@, false), bool_member(e, "on_desktop"@, true));
    let e1 = upsert(e, "always_on_top"@, JsonModel::Bool(p.0));
    crate::skin::loader::lemma_upsert_lookup(e1, "on_desktop"@, JsonModel::Bool(p.1), "on_desktop"@);
    crate::skin::loader::lemma_upsert_lookup(e1, "on_desktop"@, JsonModel::Bool(p.1), "always_on_top"@);
    crate::skin::loader::lemma_upsert_lookup(e, "always_on_top"@, JsonModel::Bool(p.0), "always_on_top"@);
    assert("on_desktop"@ != "always_on_top"@) by {
        reveal_strlit("on_desktop");
        reveal_strlit("always_on_top");
        assert("on_desktop"@.len() != "always_on_top"@.len());
    }
}

/// Normalizing the entries of "skin_settings" keeps their keys: looking an
/// id up finds its placed config.
proof fn lemma_lookup_placed(ss: Seq<(Seq<char>, JsonModel)>, id: Seq<char>)
    ensures
        obj_lookup(ss.map_values(|en: (Seq<char>, JsonModel)| (en.0, placed_entry(en.1))), id) == match obj_lookup(
            ss,
            id,
        ) {
            Some(v) => Some(placed_entry(v)),
            None => None,
        },
    decreases ss.len(),
{
    let placed = ss.map_values(|en: (Seq<char>, JsonModel)| (en.0, placed_entry(en.1)));
    if ss.len() > 0 {
        assert(placed[0] == (ss[0].0, placed_entry(ss[0].1)));
        assert(placed.drop_first() =~= ss.drop_first().map_values(
            |en: (Seq<char>, JsonModel)| (en.0, placed_entry(en.1)),
        ));
        lemma_lookup_placed(ss.drop_first(), id);
    }
}

// ─── Version-1 configs ───────────────────────────────────────────────────

/// A config's "version" as an unsigned integer (0 when missing or not one).
pub open spec fn version_of(m: JsonModel) -> u64 {
    match json_get(m, "version"@) {
        Some(JsonModel::Number(NumberModel::PosInt(n))) => n,
        _ => 0,
    }
}

/// Only an object config of a version below 2 is migrated.
pub open spec fn migration_due(m: JsonModel) -> bool {
    m is Object && version_of(m) < 2
}

/// Whether a raw config still has to be migrated from version 1.
pub fn needs_v1_migration(config: &JsonValue) -> (b: bool)
    ensures
        b == migration_due(config.model()),
{
    match config {
        JsonValue::Object(_) => {
            let v: u64 = match json_member(config, "version") {
                Some(JsonValue::Number(JsonNumber::PosInt(n))) => *n,
                _ => 0,
            };
            v < 2
        },
        _ => false,
    }
}

/// What the migration does with one skin's config entry.
#[derive(Debug, Clone, Copy, PartialEq, Eq, Structural)]
pub enum CustomAction {
    /// No inline custom values: nothing to do.
    Keep,
    /// Drop the inline values (empty, or the skin is not installed).
    Drop,
    /// Move the inline values to the skin's settings.json, then drop them.
    Move,
}

/// The action for an entry: its "custom" member, when an object, is
/// dropped if empty or if the skin is not installed, and moved otherwise.
pub open spec fn custom_action_of(entry: JsonModel, installed: bool) -> CustomAction {
    match json_get(entry, "custom"@) {
        Some(JsonModel::Object(e)) => if e.len() == 0 || !installed {
            CustomAction::Drop
        } else {
            CustomAction::Move
        },
        _ => CustomAction::Keep,
    }
}

/// Decides what to do with one skin's config entry.
pub fn custom_action(entry: &JsonValue, installed: bool) -> (a: CustomAction)
    ensures
        a == custom_action_of(entry.model(), installed),
{
    match json_member(entry, "custom") {
        Some(JsonValue::Object(e)) => {
            proof {
                crate::json::lemma_object_model(e);
            }
            if e.len() == 0 || !installed {
                CustomAction::Drop
            } else {
                CustomAction::Move
            }
        },
        _ => CustomAction::Keep,
    }
}

/// The entries of an object without those under key `k`.
pub open spec fn remove_key(e: Seq<(Seq<char>, JsonModel)>, k: Seq<char>) -> Seq<(Seq<char>, JsonModel)>
    decreases e.len(),
{
    if e.len() == 0 {
        e
    } else if e.last().0 == k {
        remove_key(e.drop_last(), k)
    } else {
        remove_key(e.drop_last(), k).push(e.last())
    }
}

/// A skin's config entry without its inline custom values.
pub open spec fn without_custom(entry: JsonModel) -> JsonModel {
    match entry {
        JsonModel::Object(e) => JsonModel::Object(remove_key(e, "custom"@)),
        _ => entry,
    }
}

/// One entry of "skin_settings" after the migration: its inline values are
/// gone when its id is among `dropped`.
pub open spec fn migrated_entry(en: (Seq<char>, JsonModel), dropped: Seq<Seq<char>>) -> (Seq<char>, JsonModel) {
    if dropped.contains(en.0) {
        (en.0, without_custom(en.1))
    } else {
        en
    }
}

/// A version-1 config after the migration: the inline values of the skins
/// in `dropped` are gone, and only when every move succeeded (`all_ok`) is
/// the version raised to 2; otherwise the next start tries again.
pub open spec fn migrated_config(config: JsonModel, dropped: Seq<Seq<char>>, all_ok: bool) -> JsonModel {
    match config {
        JsonModel::Object(top) => {
            let top1 = match obj_lookup(top, "skin_settings"@) {
                Some(JsonModel::Object(ss)) => upsert(
                    top,
                    "skin_settings"@,
                    JsonModel::Object(ss.map_values(|en: (Seq<char>, JsonModel)| migrated_entry(en, dropped))),
                ),
                _ => top,
            };
            JsonModel::Object(
                if all_ok {
                    upsert(top1, "version"@, JsonModel::Number(NumberModel::PosInt(2)))
                } else {
                    top1
                },
            )
        },
        _ => config,
    }
}

/// The entries of an object without those under key `k`.
fn without_key(e: &Vec<(String, JsonValue)>, k: &str) -> (r: Vec<(String, JsonValue)>)
    ensures
        entries_model(r@) == remove_key(entries_model(e@), k@),
{
    let kv = chars_of(k);
    let ghost m = entries_model(e@);
    let mut out: Vec<(String, JsonValue)> = Vec::new();
    let mut i: usize = 0;
    while i < e.len()
        invariant
            i <= e.len(),
            m == entries_model(e@),
            kv@ == k@,
            entries_model(out@) == remove_key(m.take(i as int), k@),
        decreases e.len() - i,
    {
        assert(m.take(i + 1).drop_last() =~= m.take(i as int));
        assert(m.take(i + 1).last() == m[i as int]);
        let key = chars_of(e[i].0.as_str());
        if !crate::text::chars_eq(&key, &kv) {
            let ghost before = entries_model(out@);
            let v = e[i].1.copy();
            out.push((e[i].0.clone(), v));
            assert(entries_model(out@) =~= before.push(m[i as int]));
        }
        i = i + 1;
    }
    assert(m.take(e.len() as int) =~= m);
    out
}

/// A skin's config entry without its inline custom values.
fn entry_without_custom(entry: &JsonValue) -> (r: JsonValue)
    ensures
        r.model() == without_custom(entry.model()),
{
    match entry {
        JsonValue::Object(e) => {
            proof {
                crate::json::lemma_object_model(e);
            }
            let out = without_key(e, "custom");
            proof {
                crate::json::lemma_object_model(&out);
            }
            JsonValue::Object(out)
        },
        _ => entry.copy(),
    }
}

/// Writes the outcome of a version-1 migration into the raw config: the
/// inline values of the skins in `dropped` removed, and the version raised
/// to 2 only when every move succeeded (see [`migrated_config`]).
pub fn apply_v1_migration(config: JsonValue, dropped: &Vec<String>, all_ok: bool) -> (r: JsonValue)
    ensures
        r.model() == migrated_config(config.model(), crate::text::strings_view(dropped@), all_ok),
{
    let ghost ids = crate::text::strings_view(dropped@);
    match config {
        JsonValue::Object(mut top) => {
            proof {
                crate::json::lemma_object_model(&top);
            }
            let key = chars_of("skin_settings");
            let changed: Option<Vec<(String, JsonValue)>> = match object_get(&top, &key) {
                Some(JsonValue::Object(ss)) => {
                    proof {
                        crate::json::lemma_object_model(ss);
                    }
                    let ghost want = entries_model(ss@).map_values(
                        |en: (Seq<char>, JsonModel)| migrated_entry(en, ids),
                    );
                    let mut out: Vec<(String, JsonValue)> = Vec::new();
                    let mut i: usize = 0;
                    while i < ss.len()
                        invariant
                            i <= ss.len(),
                            out.len() == i,
                            ids == crate::text::strings_view(dropped@),
                            want == entries_model(ss@).map_values(
                                |en: (Seq<char>, JsonModel)| migrated_entry(en, ids),
                            ),
                            forall|j: int| 0 <= j < i ==> #[trigger] entries_model(out@)[j] == want[j],
                        decreases ss.len() - i,
                    {
                        let v = if crate::text::contains_string(dropped, ss[i].0.as_str()) {
                            entry_without_custom(&ss[i].1)
                        } else {
                            ss[i].1.copy()
                        };
                        let ghost before = out@;
                        out.push((ss[i].0.clone(), v));
                        assert forall|j: int| 0 <= j < i + 1 implies #[trigger] entries_model(out@)[j]
                            == want[j] by {
                            if j < i {
                                assert(out@[j] == before[j]);
                                assert(entries_model(out@)[j] == entries_model(before)[j]);
                            }
                        }
                        i = i + 1;
                    }
                    assert(entries_model(out@) =~= want);
                    Some(out)
                },
                _ => None,
            };
            match changed {
                Some(out) => {
                    proof {
                        crate::json::lemma_object_model(&out);
                    }
                    set_value(&mut top, "skin_settings".to_string(), JsonValue::Object(out));
                },
                None => {},
            }
            if all_ok {
                set_value(&mut top, "version".to_string(), JsonValue::Number(JsonNumber::PosInt(2)));
            }
            proof {
                crate::json::lemma_object_model(&top);
            }
            JsonValue::Object(top)
        },
        other => other,
    }
}

/// The migration is done (the config no longer needs it) exactly when every
/// move succeeded; a skin whose values were not dropped keeps its entry as
/// it was, so a failed move loses nothing and is tried again at the next
/// start.
pub proof fn law_migration_retries_failures(
    config: JsonModel,
    dropped: Seq<Seq<char>>,
    all_ok: bool,
    id: Seq<char>,
)
    requires
        migration_due(config),
    ensures
        migration_due(migrated_config(config, dropped, all_ok)) == !all_ok,
        !dropped.contains(id) ==> match (
            json_get(config, "skin_settings"@),
            json_get(migrated_config(config, dropped, all_ok), "skin_settings"@),
        ) {
            (Some(JsonModel::Object(before)), Some(JsonModel::Object(after))) => obj_lookup(after, id)
                == obj_lookup(before, id),
            _ => true,
        },
{
    let top = config->Object_0;
    assert("version"@ != "skin_settings"@) by {
        reveal_strlit("version");
        reveal_strlit("skin_settings");
        assert("version"@.len() != "skin_settings"@.len());
    }
    let top1 = match obj_lookup(top, "skin_settings"@) {
        Some(JsonModel::Object(ss)) => {
            let placed = ss.map_values(|en: (Seq<char>, JsonModel)| migrated_entry(en, dropped));
            crate::skin::loader::lemma_upsert_lookup(top, "skin_settings"@, JsonModel::Object(placed), "version"@);
            crate::skin::loader::lemma_upsert_lookup(
                top,
                "skin_settings"@,
                JsonModel::Object(placed),
                "skin_settings"@,
            );
            lemma_lookup_migrated(ss, dropped, id);
            upsert(top, "skin_settings"@, JsonModel::Object(placed))
        },
        _ => top,
    };
    let v2 = JsonModel::Number(NumberModel::PosInt(2));
    crate::skin::loader::lemma_upsert_lookup(top1, "version"@, v2, "version"@);
    crate::skin::loader::lemma_upsert_lookup(top1, "version"@, v2, "skin_settings"@);
}

/// Looking an id up in the migrated "skin_settings" finds its migrated
/// entry.
proof fn lemma_lookup_migrated(ss: Seq<(Seq<char>, JsonModel)>, dropped: Seq<Seq<char>>, id: Seq<char>)
    ensures
        obj_lookup(ss.map_values(|en: (Seq<char>, JsonModel)| migrated_entry(en, dropped)), id) == match obj_lookup(
            ss,
            id,
        ) {
            Some(v) => Some(migrated_entry((id, v), dropped).1),
            None => None,
        },
    decreases ss.len(),
{
    let m = ss.map_values(|en: (Seq<char>, JsonModel)| migrated_entry(en, dropped));
    if ss.len() > 0 {
        assert(m[0] == migrated_entry(ss[0], dropped));
        assert(m.drop_first() =~= ss.drop_first().map_values(
            |en: (Seq<char>, JsonModel)| migrated_entry(en, dropped),
        ));
        lemma_lookup_migrated(ss.drop_first(), dropped, id);
    }
}

/// Whether the inline values are dropped after trying to move them: when
/// the skin already had a settings.json (it wins) or the move was written.
/// A failed move keeps them for the next start.
pub fn moved_values_dropped(settings_file_existed: bool, write_ok: bool) -> (b: bool)
    ensures
        b == (settings_file_existed || write_ok),
{
    settings_file_existed || write_ok
}

} // verus!
