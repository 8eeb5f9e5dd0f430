//! Running elevated: whether to warn about it, and the persisted
//! "allow elevated" flag in config.json, which is written into a config
//! of the full shape so that loading it never resets the user's settings.

use vstd::prelude::*;
use crate::json::{json_get, json_member, obj_lookup, JsonModel, JsonValue};
use crate::text::{chars_eq, chars_of};

verus! {

/// Whether the elevation warning is shown: not when allowed by the
/// environment or by the persisted flag, not in a debug build unless
/// forced, and only when the process actually runs elevated.
pub open spec fn warns(env_allows: bool, persisted: bool, debug_build: bool, forced: bool, elevated: bool) -> bool {
    !env_allows && !persisted && !(debug_build && !forced) && elevated
}

/// Decides whether to warn about running elevated.
pub fn should_warn(env_allows: bool, persisted: bool, debug_build: bool, forced: bool, elevated: bool) -> (b:
    bool)
    ensures
        b == warns(env_allows, persisted, debug_build, forced, elevated),
{
    if env_allows {
        return false;
    }
    if persisted {
        return false;
    }
    if debug_build && !forced {
        return false;
    }
    elevated
}

pub open spec fn flag_key() -> Seq<char> {
    "allow_elevated"@
}

/// The persisted flag: the config's "allow_elevated" when it is a boolean,
/// else false.
pub open spec fn flag_of(config: Option<JsonModel>) -> bool {
    match config {
        Some(m) => match json_get(m, flag_key()) {
            Some(JsonModel::Bool(b)) => b,
            _ => false,
        },
        None => false,
    }
}

pub open spec fn opt_model(v: Option<&JsonValue>) -> Option<JsonModel> {
    match v {
        Some(x) => Some(x.model()),
        None => None,
    }
}

/// Reads the persisted "allow elevated" flag of a parsed config.json.
pub fn persisted_allow_elevated(config: Option<&JsonValue>) -> (b: bool)
    ensures
        b == flag_of(opt_model(config)),
{
    match config {
        Some(v) => match json_member(v, "allow_elevated") {
            Some(JsonValue::Bool(b)) => *b,
            _ => false,
        },
        None => false,
    }
}

/// A config that loading accepts as it is: it has the three members that
/// have no default ("version", "loaded_skins", "skin_settings").
pub open spec fn full_shaped(m: JsonModel) -> bool {
    json_get(m, "version"@) is Some && json_get(m, "loaded_skins"@) is Some && json_get(
        m,
        "skin_settings"@,
    ) is Some
}

/// The config the flag is written into: the existing one when it has the
/// full shape, else `default_config` (the serialized default config), as
/// loading would reset a config that lacks it.
pub fn config_base_for_flag(existing: Option<JsonValue>, default_config: JsonValue) -> (r: JsonValue)
    ensures
        match existing {
            Some(v) => if full_shaped(v.model()) {
                r.model() == v.model()
            } else {
                r.model() == default_config.model()
            },
            None => r.model() == default_config.model(),
        },
{
    match existing {
        Some(v) => {
            let full = json_member(&v, "version").is_some() && json_member(&v, "loaded_skins").is_some()
                && json_member(&v, "skin_settings").is_some();
            if full {
                v
            } else {
                default_config
            }
        },
        None => default_config,
    }
}

/// An object's entries with `k` set to `v`: the first entry with that key
/// gets the value, or the entry is appended.
pub open spec fn obj_set(e: Seq<(Seq<char>, JsonModel)>, k: Seq<char>, v: JsonModel) -> Seq<
    (Seq<char>, JsonModel),
>
    decreases e.len(),
{
    if e.len() == 0 {
        seq![(k, v)]
    } else if e[0].0 == k {
        seq![(k, v)] + e.drop_first()
    } else {
        seq![e[0]] + obj_set(e.drop_first(), k, v)
    }
}

proof fn lemma_obj_set_lookup(e: Seq<(Seq<char>, JsonModel)>, k: Seq<char>, v: JsonModel, q: Seq<char>)
    ensures
        obj_lookup(obj_set(e, k, v), q) == if q == k {
            Some(v)
        } else {
            obj_lookup(e, q)
        },
    decreases e.len(),
{
    let s = obj_set(e, k, v);
    if e.len() == 0 {
        assert(s =~= seq![(k, v)]);
        assert(s.drop_first() =~= Seq::<(Seq<char>, JsonModel)>::empty());
        assert(obj_lookup(s.drop_first(), q) is None);
    } else if e[0].0 == k {
        assert(s =~= seq![(k, v)] + e.drop_first());
        assert(s[0] == (k, v));
        assert(s.drop_first() =~= e.drop_first());
    } else {
        lemma_obj_set_lookup(e.drop_first(), k, v, q);
        assert(s[0] == e[0]);
        assert(s.drop_first() =~= obj_set(e.drop_first(), k, v));
    }
}

proof fn lemma_obj_set_update(e: Seq<(Seq<char>, JsonModel)>, k: Seq<char>, v: JsonModel, i: int)
    requires
        0 <= i < e.len(),
        e[i].0 == k,
        forall|j: int| 0 <= j < i ==> #[trigger] e[j].0 != k,
    ensures
        obj_set(e, k, v) == e.update(i, (k, v)),
    decreases e.len(),
{
    if i == 0 {
        assert(obj_set(e, k, v) =~= e.update(0, (k, v)));
    } else {
        let d = e.drop_first();
        assert(e[0].0 != k);
        assert forall|j: int| 0 <= j < i - 1 implies #[trigger] d[j].0 != k by {
            assert(d[j] == e[j + 1]);
        }
        lemma_obj_set_update(d, k, v, i - 1);
        assert(seq![e[0]] + d.update(i - 1, (k, v)) =~= e.update(i, (k, v)));
    }
}

proof fn lemma_obj_set_push(e: Seq<(Seq<char>, JsonModel)>, k: Seq<char>, v: JsonModel)
    requires
        forall|j: int| 0 <= j < e.len() ==> #[trigger] e[j].0 != k,
    ensures
        obj_set(e, k, v) == e.push((k, v)),
    decreases e.len(),
{
    if e.len() == 0 {
        assert(obj_set(e, k, v) =~= e.push((k, v)));
    } else {
        let d = e.drop_first();
        assert(e[0].0 != k);
        assert forall|j: int| 0 <= j < d.len() implies #[trigger] d[j].0 != k by {
            assert(d[j] == e[j + 1]);
        }
        lemma_obj_set_push(d, k, v);
        assert(seq![e[0]] + d.push((k, v)) =~= e.push((k, v)));
    }
}

/// The config with the flag set: an object gets "allow_elevated": true; a
/// null becomes an object holding just that.
pub open spec fn flagged(m: JsonModel) -> JsonModel {
    match m {
        JsonModel::Object(e) => JsonModel::Object(obj_set(e, flag_key(), JsonModel::Bool(true))),
        _ => JsonModel::Object(seq![(flag_key(), JsonModel::Bool(true))]),
    }
}

/// Sets "allow_elevated": true in a config (an object, or null).
pub fn set_allow_elevated(config: JsonValue) -> (r: JsonValue)
    requires
        config.model() is Object || config.model() is Null,
    ensures
        r.model() == flagged(config.model()),
{
    let key = chars_of("allow_elevated");
    match config {
        JsonValue::Object(mut entries) => {
            proof {
                crate::json::lemma_object_model(&entries);
            }
            let ghost e = crate::json::entries_model(entries@);
            let mut i: usize = 0;
            let mut found = false;
            while i < entries.len() && !found
                invariant
                    i <= entries.len(),
                    e == crate::json::entries_model(entries@),
                    key@ == flag_key(),
                    found ==> i < entries.len() && e[i as int].0 == flag_key(),
                    forall|j: int| 0 <= j < i ==> #[trigger] e[j].0 != flag_key(),
                decreases entries.len() - i, if found { 0int } else { 1int },
            {
                let c = chars_of(entries[i].0.as_str());
                assert(e[i as int].0 == entries@[i as int].0@);
                if chars_eq(&c, &key) {
                    found = true;
                } else {
                    i = i + 1;
                }
            }
            let ghost tv = JsonModel::Bool(true);
            if found {
                proof {
                    lemma_obj_set_update(e, flag_key(), tv, i as int);
                }
                entries.set(i, (crate::text::string_of(&key), JsonValue::Bool(true)));
                proof {
                    crate::json::lemma_object_model(&entries);
                }
                assert(crate::json::entries_model(entries@) =~= e.update(i as int, (flag_key(), tv)));
            } else {
                proof {
                    lemma_obj_set_push(e, flag_key(), tv);
                }
                entries.push((crate::text::string_of(&key), JsonValue::Bool(true)));
                proof {
                    crate::json::lemma_object_model(&entries);
                }
                assert(crate::json::entries_model(entries@) =~= e.push((flag_key(), tv)));
            }
            JsonValue::Object(entries)
        },
        _ => {
            let entries = vec![(crate::text::string_of(&key), JsonValue::Bool(true))];
            proof {
                crate::json::lemma_object_model(&entries);
            }
            assert(crate::json::entries_model(entries@) =~= seq![(flag_key(), JsonModel::Bool(true))]);
            JsonValue::Object(entries)
        },
    }
}

/// Once the flag is written, reading it back gives true (the warning is not
/// shown again), and a full-shaped config stays full-shaped.
pub proof fn law_flag_reads_back(m: JsonModel)
    ensures
        flag_of(Some(flagged(m))),
        full_shaped(m) && m is Object ==> full_shaped(flagged(m)),
{
    match m {
        JsonModel::Object(e) => {
            lemma_obj_set_lookup(e, flag_key(), JsonModel::Bool(true), flag_key());
            lemma_obj_set_lookup(e, flag_key(), JsonModel::Bool(true), "version"@);
            lemma_obj_set_lookup(e, flag_key(), JsonModel::Bool(true), "loaded_skins"@);
            lemma_obj_set_lookup(e, flag_key(), JsonModel::Bool(true), "skin_settings"@);
        },
        _ => {
            let s = seq![(flag_key(), JsonModel::Bool(true))];
            assert(s[0].0 == flag_key());
        },
    }
}

/// The language before the app state exists: config.json's "language"
/// string, else `fallback`.
pub fn early_language(config: Option<&JsonValue>, fallback: String) -> (r: String)
    ensures
        r@ == match opt_model(config) {
            Some(m) => match json_get(m, "language"@) {
                Some(JsonModel::Str(s)) => s,
                _ => fallback@,
            },
            None => fallback@,
        },
{
    match config {
        Some(v) => match json_member(v, "language") {
            Some(JsonValue::Str(s)) => s.clone(),
            _ => fallback,
        },
        None => fallback,
    }
}

} // verus!
