//! Skin ids, manifest checks and the effective values of custom settings.

use vstd::prelude::*;
use crate::i18n::{trf, Key};
use crate::json::{JsonModel, JsonNumber, JsonValue, NumberModel, obj_lookup, lemma_array_model, lemma_object_model};
use crate::skin::types::{SkinSettingDef, SkinSettingKind, SkinManifest, WindowDefaults, opt_str_view, url_entry};
use crate::json::{entries_model, object_get};
use crate::text::{
    ascii_lower, chars_eq, chars_of, char_to_lowercase, contains_seq, find_exec, hex_digit,
    hex_digits, hex_digits_exec, is_ascii_lower, is_digit, lowered, occurs_at, prefix, push_char,
    lemma_split_on_no_sep, lemma_hex_digits_shape,
    split_exec, split_on, string_of, unicode_lowercase,
};

verus! {

// ─── Entry names ─────────────────────────────────────────────────────────

/// An entry is a bare file name: non-empty, no "..", no path separators
/// and no colon.
pub open spec fn valid_entry_name(e: Seq<char>) -> bool {
    e.len() > 0 && !contains_seq(e, seq!['.', '.']) && !e.contains('/') && !e.contains('\\')
        && !e.contains(':')
}

fn contains_char(v: &Vec<char>, c: char) -> (b: bool)
    ensures
        b == v@.contains(c),
{
    let mut i: usize = 0;
    while i < v.len()
        invariant
            i <= v.len(),
            forall|j: int| 0 <= j < i ==> v@[j] != c,
        decreases v.len() - i,
    {
        if v[i] == c {
            return true;
        }
        i = i + 1;
    }
    false
}

/// entry field check: a plain file name, no path separators, ".." or colon.
pub fn is_valid_entry_name(entry: &str) -> (b: bool)
    ensures
        b == valid_entry_name(entry@),
{
    let v = chars_of(entry);
    if v.len() == 0 {
        return false;
    }
    let dots = vec!['.', '.'];
    assert(dots@ =~= seq!['.', '.']);
    if find_exec(&v, &dots).is_some() {
        return false;
    }
    !contains_char(&v, '/') && !contains_char(&v, '\\') && !contains_char(&v, ':')
}

// ─── Skin ids ────────────────────────────────────────────────────────────

/// Windows reserved device names (compared lower-case).
pub open spec fn reserved_names() -> Seq<Seq<char>> {
    seq![
        seq!['c', 'o', 'n'], seq!['p', 'r', 'n'], seq!['a', 'u', 'x'], seq!['n', 'u', 'l'],
        seq!['c', 'o', 'm', '1'], seq!['c', 'o', 'm', '2'], seq!['c', 'o', 'm', '3'],
        seq!['c', 'o', 'm', '4'], seq!['c', 'o', 'm', '5'], seq!['c', 'o', 'm', '6'],
        seq!['c', 'o', 'm', '7'], seq!['c', 'o', 'm', '8'], seq!['c', 'o', 'm', '9'],
        seq!['l', 'p', 't', '1'], seq!['l', 'p', 't', '2'], seq!['l', 'p', 't', '3'],
        seq!['l', 'p', 't', '4'], seq!['l', 'p', 't', '5'], seq!['l', 'p', 't', '6'],
        seq!['l', 'p', 't', '7'], seq!['l', 'p', 't', '8'], seq!['l', 'p', 't', '9'],
    ]
}

/// The part of a name before its first '.', lower-cased (ASCII), is a
/// reserved device name ("con", "con.txt" and "CON" alike).
pub open spec fn reserved_device_name(id: Seq<char>) -> bool {
    reserved_names().contains(split_on(id, '.')[0].map_values(|c: char| ascii_lower(c)))
}

/// Characters allowed in a skin id.
pub open spec fn id_char(c: char) -> bool {
    is_ascii_lower(c) || is_digit(c) || c == '-'
}

/// Skin ids are kebab-case: 1–64 lowercase letters, digits and dashes,
/// starting with a letter or digit, and not a reserved device name.
pub open spec fn valid_skin_id(id: Seq<char>) -> bool {
    &&& id.len() > 0
    &&& id.len() <= 64
    &&& forall|i: int| 0 <= i < id.len() ==> id_char(#[trigger] id[i])
    &&& id[0] != '-'
    &&& !reserved_device_name(id)
}

fn ascii_lower_exec(c: char) -> (r: char)
    ensures
        r == ascii_lower(c),
{
    if 'A' <= c && c <= 'Z' {
        ((c as u8) + 32) as char
    } else {
        c
    }
}

fn reserved_names_exec() -> (r: Vec<Vec<char>>)
    ensures
        crate::text::views(r@) == reserved_names(),
{
    let r: Vec<Vec<char>> = vec![
        vec!['c', 'o', 'n'], vec!['p', 'r', 'n'], vec!['a', 'u', 'x'], vec!['n', 'u', 'l'],
        vec!['c', 'o', 'm', '1'], vec!['c', 'o', 'm', '2'], vec!['c', 'o', 'm', '3'],
        vec!['c', 'o', 'm', '4'], vec!['c', 'o', 'm', '5'], vec!['c', 'o', 'm', '6'],
        vec!['c', 'o', 'm', '7'], vec!['c', 'o', 'm', '8'], vec!['c', 'o', 'm', '9'],
        vec!['l', 'p', 't', '1'], vec!['l', 'p', 't', '2'], vec!['l', 'p', 't', '3'],
        vec!['l', 'p', 't', '4'], vec!['l', 'p', 't', '5'], vec!['l', 'p', 't', '6'],
        vec!['l', 'p', 't', '7'], vec!['l', 'p', 't', '8'], vec!['l', 'p', 't', '9'],
    ];
    assert(crate::text::views(r@) =~= reserved_names());
    r
}

fn reserved_device_chars(v: &Vec<char>) -> (b: bool)
    ensures
        b == reserved_device_name(v@),
{
    let parts = split_exec(v, '.');
    proof {
        crate::text::lemma_split_on_nonempty(v@, '.');
    }
    let base = &parts[0];
    let mut lower: Vec<char> = Vec::new();
    let mut i: usize = 0;
    while i < base.len()
        invariant
            i <= base.len(),
            lower@ == base@.take(i as int).map_values(|c: char| ascii_lower(c)),
        decreases base.len() - i,
    {
        lower.push(ascii_lower_exec(base[i]));
        i = i + 1;
        assert(lower@ =~= base@.take(i as int).map_values(|c: char| ascii_lower(c)));
    }
    assert(base@.take(base.len() as int) =~= base@);
    assert(lower@ == split_on(v@, '.')[0].map_values(|c: char| ascii_lower(c)));
    let names = reserved_names_exec();
    let mut k: usize = 0;
    while k < names.len()
        invariant
            lower@ == split_on(v@, '.')[0].map_values(|c: char| ascii_lower(c)),
            crate::text::views(names@) == reserved_names(),
            k <= names.len(),
            forall|j: int| 0 <= j < k ==> reserved_names()[j] != lower@,
        decreases names.len() - k,
    {
        if chars_eq(&names[k], &lower) {
            assert(reserved_names()[k as int] == lower@);
            return true;
        }
        k = k + 1;
    }
    false
}

/// Windows reserved device names (case-insensitive), also with an
/// extension ("con.txt"): such names cannot be folder names.
pub fn is_reserved_device_name(id: &str) -> (b: bool)
    ensures
        b == reserved_device_name(id@),
{
    let v = chars_of(id);
    reserved_device_chars(&v)
}

fn valid_skin_id_chars(v: &Vec<char>) -> (b: bool)
    ensures
        b == valid_skin_id(v@),
{
    if v.len() == 0 || v.len() > 64 {
        return false;
    }
    let mut i: usize = 0;
    while i < v.len()
        invariant
            i <= v.len(),
            forall|j: int| 0 <= j < i ==> id_char(#[trigger] v@[j]),
        decreases v.len() - i,
    {
        let c = v[i];
        if !(('a' <= c && c <= 'z') || ('0' <= c && c <= '9') || c == '-') {
            assert(!id_char(v@[i as int]));
            return false;
        }
        i = i + 1;
    }
    if v[0] == '-' {
        return false;
    }
    !reserved_device_chars(v)
}

/// Skin ids are kebab-case: lowercase letters, digits, dashes; must start
/// with a letter or digit.  They become folder names and config keys.
pub fn validate_skin_id(id: &str, lang: &str) -> (r: Result<(), String>)
    ensures
        r is Ok <==> valid_skin_id(id@),
        r matches Err(e) ==> e@ == crate::commands::msg1(lang@, Key::InvalidSkinId, id@),
{
    let v = chars_of(id);
    if valid_skin_id_chars(&v) {
        Ok(())
    } else {
        let args = [id];
        let e = trf(lang, Key::InvalidSkinId, &args);
        assert(crate::i18n::arg_views(args@) =~= seq![id@]);
        Err(e)
    }
}


// ─── Folder-name slugs ───────────────────────────────────────────────────

pub open spec fn slug_char(c: char) -> bool {
    is_ascii_lower(c) || is_digit(c)
}

/// Slug built from lower-cased characters: ASCII letters and digits are
/// kept; each run of other characters after the first kept one becomes a
/// single '-'.  The flag records whether the last character added was a
/// dash.
pub open spec fn raw_slug(s: Seq<char>) -> (Seq<char>, bool)
    decreases s.len(),
{
    if s.len() == 0 {
        (Seq::empty(), false)
    } else {
        let prev = raw_slug(s.drop_last());
        let c = s.last();
        if slug_char(c) {
            (prev.0.push(c), false)
        } else if !prev.1 && prev.0.len() > 0 {
            (prev.0.push('-'), true)
        } else {
            prev
        }
    }
}

pub open spec fn trim_start_dash(s: Seq<char>) -> Seq<char>
    decreases s.len(),
{
    if s.len() > 0 && s[0] == '-' {
        trim_start_dash(s.drop_first())
    } else {
        s
    }
}

pub open spec fn trim_end_dash(s: Seq<char>) -> Seq<char>
    decreases s.len(),
{
    if s.len() > 0 && s.last() == '-' {
        trim_end_dash(s.drop_last())
    } else {
        s
    }
}

/// The slug of a folder name before the fallback: lower-cased, reduced to
/// ASCII letters, digits and single dashes, trimmed of dashes, at most 64
/// characters.
pub open spec fn slug_text(name: Seq<char>) -> Seq<char> {
    prefix(trim_end_dash(trim_start_dash(raw_slug(lowered(name)).0)), 64)
}

/// 32-bit FNV-1a hash of `bytes`.
pub open spec fn fnv1a(bytes: Seq<u8>) -> u32
    decreases bytes.len(),
{
    if bytes.len() == 0 {
        2166136261u32
    } else {
        (fnv1a(bytes.drop_last()) ^ (bytes.last() as u32)).wrapping_mul(16777619u32)
    }
}

pub open spec fn skin_prefix() -> Seq<char> {
    seq!['s', 'k', 'i', 'n', '-']
}

/// The id a folder or package name becomes: its slug when that is
/// non-empty and not a reserved device name, otherwise "skin-" and eight
/// hex digits of the FNV-1a hash of the name's UTF-8 bytes.
pub open spec fn slugify(name: Seq<char>) -> Seq<char> {
    let s = slug_text(name);
    if s.len() > 0 && !reserved_device_name(s) {
        s
    } else {
        skin_prefix() + hex_digits(fnv1a(vstd::utf8::encode_utf8(name)) as nat, 8)
    }
}

/// Derive a valid skin id from an arbitrary folder/zip name.  Non-ASCII
/// characters are dropped; if nothing usable remains, fall back to a short
/// hash so the id is still stable.
pub fn slugify_skin_id(name: &str) -> (r: String)
    ensures
        r@ == slugify(name@),
{
    let chars = chars_of(name);
    let mut slug: Vec<char> = Vec::new();
    let mut last_dash = false;
    let mut i: usize = 0;
    while i < chars.len()
        invariant
            chars@ == name@,
            i <= chars.len(),
            (slug@, last_dash) == raw_slug(lowered(chars@.take(i as int))),
        decreases chars.len() - i,
    {
        let low = char_to_lowercase(chars[i]);
        let ghost base = lowered(chars@.take(i as int));
        assert(chars@.take(i + 1).drop_last() =~= chars@.take(i as int));
        assert(lowered(chars@.take(i + 1)) == base + low@);
        let mut j: usize = 0;
        assert(base + low@.take(0) =~= base);
        while j < low.len()
            invariant
                j <= low.len(),
                (slug@, last_dash) == raw_slug(base + low@.take(j as int)),
            decreases low.len() - j,
        {
            let c = low[j];
            assert((base + low@.take(j + 1)).drop_last() =~= base + low@.take(j as int));
            assert((base + low@.take(j + 1)).last() == c);
            if ('a' <= c && c <= 'z') || ('0' <= c && c <= '9') {
                slug.push(c);
                last_dash = false;
            } else if !last_dash && slug.len() > 0 {
                slug.push('-');
                last_dash = true;
            }
            j = j + 1;
        }
        assert(low@.take(low@.len() as int) =~= low@);
        i = i + 1;
    }
    assert(chars@.take(chars@.len() as int) =~= chars@);
    // trim leading and trailing dashes
    let mut a: usize = 0;
    assert(slug@.skip(0) =~= slug@);
    while a < slug.len() && slug[a] == '-'
        invariant
            a <= slug.len(),
            trim_start_dash(slug@) == trim_start_dash(slug@.skip(a as int)),
        decreases slug.len() - a,
    {
        assert(slug@.skip(a as int).drop_first() =~= slug@.skip(a + 1));
        a = a + 1;
    }
    let mut b: usize = slug.len();
    assert(slug@.subrange(a as int, b as int) =~= slug@.skip(a as int));
    while b > a && slug[b - 1] == '-'
        invariant
            a <= b <= slug.len(),
            trim_end_dash(slug@.skip(a as int)) == trim_end_dash(slug@.subrange(a as int, b as int)),
        decreases b,
    {
        assert(slug@.subrange(a as int, b as int).drop_last() =~= slug@.subrange(a as int, b - 1));
        b = b - 1;
    }
    let mut out: Vec<char> = Vec::new();
    let mut k: usize = a;
    while k < b && k - a < 64
        invariant
            a <= k <= b,
            k - a <= 64,
            b <= slug.len(),
            out@ == slug@.subrange(a as int, k as int),
        decreases b - k,
    {
        out.push(slug[k]);
        k = k + 1;
        assert(out@ =~= slug@.subrange(a as int, k as int));
    }
    let ghost trimmed = slug@.subrange(a as int, b as int);
    assert(trimmed == trim_end_dash(trim_start_dash(slug@)));
    proof {
        if trimmed.len() <= 64 {
            assert(k == b);
            assert(out@ =~= prefix(trimmed, 64));
        } else {
            assert(k == a + 64);
            assert(out@ =~= trimmed.take(64));
        }
    }
    if out.len() > 0 && !reserved_device_chars(&out) {
        return string_of(&out);
    }
    let bytes = name.as_bytes();
    let mut hash: u32 = 2166136261u32;
    let mut m: usize = 0;
    while m < bytes.len()
        invariant
            bytes@ == vstd::utf8::encode_utf8(name@),
            m <= bytes.len(),
            hash == fnv1a(bytes@.take(m as int)),
        decreases bytes.len() - m,
    {
        assert(bytes@.take(m + 1).drop_last() =~= bytes@.take(m as int));
        hash = hash ^ (bytes[m] as u32);
        hash = hash.wrapping_mul(16777619u32);
        m = m + 1;
    }
    assert(bytes@.take(bytes@.len() as int) =~= bytes@);
    let mut r: Vec<char> = vec!['s', 'k', 'i', 'n', '-'];
    let digits = hex_digits_exec(hash, 8);
    crate::text::extend_chars(&mut r, &digits);
    assert(r@ =~= skin_prefix() + hex_digits(hash as nat, 8));
    string_of(&r)
}


proof fn lemma_raw_slug_shape(s: Seq<char>)
    ensures
        forall|i: int| 0 <= i < raw_slug(s).0.len() ==> id_char(#[trigger] raw_slug(s).0[i]),
        raw_slug(s).0.len() > 0 ==> raw_slug(s).0[0] != '-',
    decreases s.len(),
{
    if s.len() > 0 {
        lemma_raw_slug_shape(s.drop_last());
    }
}

proof fn lemma_trim_start_shape(s: Seq<char>)
    requires
        forall|i: int| 0 <= i < s.len() ==> id_char(#[trigger] s[i]),
    ensures
        forall|i: int| 0 <= i < trim_start_dash(s).len() ==> id_char(#[trigger] trim_start_dash(s)[i]),
        trim_start_dash(s).len() > 0 ==> trim_start_dash(s)[0] != '-',
    decreases s.len(),
{
    if s.len() > 0 && s[0] == '-' {
        assert forall|i: int| 0 <= i < s.drop_first().len() implies id_char(#[trigger] s.drop_first()[i]) by {
            assert(s.drop_first()[i] == s[i + 1]);
        }
        lemma_trim_start_shape(s.drop_first());
    }
}

proof fn lemma_trim_end_shape(s: Seq<char>)
    requires
        forall|i: int| 0 <= i < s.len() ==> id_char(#[trigger] s[i]),
        s.len() > 0 ==> s[0] != '-',
    ensures
        forall|i: int| 0 <= i < trim_end_dash(s).len() ==> id_char(#[trigger] trim_end_dash(s)[i]),
        trim_end_dash(s).len() > 0 ==> trim_end_dash(s)[0] != '-',
    decreases s.len(),
{
    if s.len() > 0 && s.last() == '-' {
        let d = s.drop_last();
        assert forall|i: int| 0 <= i < d.len() implies id_char(#[trigger] d[i]) by {
            assert(d[i] == s[i]);
        }
        if d.len() > 0 {
            assert(d[0] == s[0]);
        }
        lemma_trim_end_shape(d);
    }
}

/// Every name slugs to a valid skin id.
pub proof fn law_slug_is_valid_id(name: Seq<char>)
    ensures
        valid_skin_id(slugify(name)),
{
    let raw = raw_slug(lowered(name)).0;
    lemma_raw_slug_shape(lowered(name));
    lemma_trim_start_shape(raw);
    lemma_trim_end_shape(trim_start_dash(raw));
    let t = trim_end_dash(trim_start_dash(raw));
    let s = slug_text(name);
    assert forall|i: int| 0 <= i < s.len() implies id_char(#[trigger] s[i]) by {
        assert(s[i] == t[i]);
    }
    if s.len() > 0 {
        assert(s[0] == t[0]);
    }
    if !(s.len() > 0 && !reserved_device_name(s)) {
        let h = hex_digits(fnv1a(vstd::utf8::encode_utf8(name)) as nat, 8);
        lemma_hex_digits_shape(fnv1a(vstd::utf8::encode_utf8(name)) as nat, 8);
        let x = skin_prefix() + h;
        assert(x.len() == 13);
        assert forall|i: int| 0 <= i < x.len() implies id_char(#[trigger] x[i]) by {
            if i >= 5 {
                assert(x[i] == h[i - 5]);
            }
        }
        assert(!x.contains('.')) by {
            if x.contains('.') {
                let k = choose|k: int| 0 <= k < x.len() && x[k] == '.';
                assert(id_char(x[k]));
            }
        }
        lemma_split_on_no_sep(x, '.');
        let lower = split_on(x, '.')[0].map_values(|c: char| ascii_lower(c));
        assert(lower.len() == 13);
        assert(!reserved_names().contains(lower)) by {
            if reserved_names().contains(lower) {
                let k = choose|k: int| 0 <= k < reserved_names().len() && reserved_names()[k] == lower;
                assert(reserved_names()[k].len() <= 4);
            }
        }
        assert(slugify(name) == x);
    }
}


// ─── Canonical ids ───────────────────────────────────────────────────────

/// The id of a skin: the manifest's id when present and valid, otherwise
/// the slug of its folder name.
pub open spec fn resolved_id(manifest_id: Option<Seq<char>>, folder: Seq<char>) -> Seq<char> {
    match manifest_id {
        Some(id) => if valid_skin_id(id) {
            id
        } else {
            slugify(folder)
        },
        None => slugify(folder),
    }
}

/// Resolve the canonical skin id: the manifest's `id` when present (and
/// valid), otherwise a slug derived from the folder name.
pub fn resolve_skin_id(manifest_id: Option<&str>, folder_name: &str) -> (r: String)
    ensures
        r@ == resolved_id(opt_str_view(manifest_id), folder_name@),
{
    match manifest_id {
        Some(id) => {
            let v = chars_of(id);
            if valid_skin_id_chars(&v) {
                string_of(&v)
            } else {
                slugify_skin_id(folder_name)
            }
        },
        None => slugify_skin_id(folder_name),
    }
}

/// Resolved ids are always valid skin ids.
pub proof fn law_resolved_id_is_valid(manifest_id: Option<Seq<char>>, folder: Seq<char>)
    ensures
        valid_skin_id(resolved_id(manifest_id, folder)),
{
    law_slug_is_valid_id(folder);
}

// ─── Effective setting values ────────────────────────────────────────────

/// Whether a stored value has the JSON type the setting kind stores.
pub open spec fn value_matches(kind: SkinSettingKind, v: JsonModel) -> bool {
    match kind {
        SkinSettingKind::Boolean => v is Bool,
        SkinSettingKind::Number | SkinSettingKind::Slider | SkinSettingKind::Stepper => v is Number,
        SkinSettingKind::MultiSelect | SkinSettingKind::TaskList | SkinSettingKind::TodoList
        | SkinSettingKind::Weekdays | SkinSettingKind::DateTaskList => v is Array,
        SkinSettingKind::TimeRange => v is Object,
        _ => v is Str,
    }
}

/// A stored value is honored exactly when its JSON type is the one the
/// setting kind stores: a number for number, slider and stepper settings,
/// a boolean for switches, an array for the list kinds, an object for time
/// ranges and a string for the text-like kinds.
pub proof fn law_value_types(kind: SkinSettingKind, v: JsonModel)
    ensures
        kind == SkinSettingKind::Boolean ==> (value_matches(kind, v) <==> v is Bool),
        kind == SkinSettingKind::Number || kind == SkinSettingKind::Slider || kind == SkinSettingKind::Stepper
            ==> (value_matches(kind, v) <==> v is Number),
        kind == SkinSettingKind::MultiSelect || kind == SkinSettingKind::TaskList || kind
            == SkinSettingKind::TodoList || kind == SkinSettingKind::Weekdays || kind
            == SkinSettingKind::DateTaskList ==> (value_matches(kind, v) <==> v is Array),
        kind == SkinSettingKind::TimeRange ==> (value_matches(kind, v) <==> v is Object),
        kind == SkinSettingKind::Text || kind == SkinSettingKind::LongText || kind == SkinSettingKind::Time
            || kind == SkinSettingKind::Date || kind == SkinSettingKind::DateTime || kind
            == SkinSettingKind::Password || kind == SkinSettingKind::Palette || kind == SkinSettingKind::Select
            || kind == SkinSettingKind::Radio || kind == SkinSettingKind::Font || kind == SkinSettingKind::File
            || kind == SkinSettingKind::Directory ==> (value_matches(kind, v) <==> v is Str),
{
}

/// Persisted values are only honored when their JSON type matches the
/// declared setting kind.
pub fn setting_value_matches(kind: SkinSettingKind, v: &JsonValue) -> (b: bool)
    ensures
        b == value_matches(kind, v.model()),
{
    match kind {
        SkinSettingKind::Boolean => matches!(v, JsonValue::Bool(_)),
        SkinSettingKind::Number | SkinSettingKind::Slider | SkinSettingKind::Stepper => matches!(v, JsonValue::Number(_)),
        SkinSettingKind::MultiSelect | SkinSettingKind::TaskList | SkinSettingKind::TodoList
        | SkinSettingKind::Weekdays | SkinSettingKind::DateTaskList => matches!(v, JsonValue::Array(_)),
        SkinSettingKind::TimeRange => matches!(v, JsonValue::Object(_)),
        _ => matches!(v, JsonValue::Str(_)),
    }
}

/// The value a setting takes with neither a stored value nor a usable
/// declared default.
pub open spec fn fallback_value(def: &SkinSettingDef) -> JsonModel {
    match def.kind {
        SkinSettingKind::Boolean => JsonModel::Bool(false),
        SkinSettingKind::Number | SkinSettingKind::Slider | SkinSettingKind::Stepper => JsonModel::Number(
            NumberModel::PosInt(0),
        ),
        SkinSettingKind::Palette => JsonModel::Str(seq!['#', 'f', 'f', 'f', 'f', 'f', 'f']),
        SkinSettingKind::Select | SkinSettingKind::Radio => if def.options@.len() > 0 {
            JsonModel::Str(def.options@[0].value@)
        } else {
            JsonModel::Null
        },
        SkinSettingKind::MultiSelect | SkinSettingKind::TaskList | SkinSettingKind::TodoList
        | SkinSettingKind::Weekdays | SkinSettingKind::DateTaskList => JsonModel::Array(Seq::empty()),
        SkinSettingKind::TimeRange => JsonModel::Object(
            seq![
                (seq!['s', 't', 'a', 'r', 't'], JsonModel::Str(Seq::empty())),
                (seq!['e', 'n', 'd'], JsonModel::Str(Seq::empty())),
            ],
        ),
        _ => JsonModel::Str(Seq::empty()),
    }
}

/// Fallback when neither a persisted override nor a declared default exists.
pub fn type_fallback(def: &SkinSettingDef) -> (r: JsonValue)
    ensures
        r.model() == fallback_value(def),
{
    match def.kind {
        SkinSettingKind::Boolean => JsonValue::Bool(false),
        SkinSettingKind::Number | SkinSettingKind::Slider | SkinSettingKind::Stepper => JsonValue::Number(
            JsonNumber::PosInt(0),
        ),
        SkinSettingKind::Palette => {
            let v = vec!['#', 'f', 'f', 'f', 'f', 'f', 'f'];
            let r = JsonValue::Str(string_of(&v));
            assert(v@ =~= seq!['#', 'f', 'f', 'f', 'f', 'f', 'f']);
            r
        },
        SkinSettingKind::Select | SkinSettingKind::Radio => if def.options.len() > 0 {
            JsonValue::Str(def.options[0].value.clone())
        } else {
            JsonValue::Null
        },
        SkinSettingKind::MultiSelect | SkinSettingKind::TaskList | SkinSettingKind::TodoList
        | SkinSettingKind::Weekdays | SkinSettingKind::DateTaskList => {
            let e: Vec<JsonValue> = Vec::new();
            proof {
                lemma_array_model(&e);
                assert(crate::json::elems_model(e@) =~= Seq::<JsonModel>::empty());
            }
            JsonValue::Array(e)
        },
        SkinSettingKind::TimeRange => {
            let sv = vec!['s', 't', 'a', 'r', 't'];
            let ev = vec!['e', 'n', 'd'];
            assert(sv@ =~= seq!['s', 't', 'a', 'r', 't']);
            assert(ev@ =~= seq!['e', 'n', 'd']);
            let mut e: Vec<(String, JsonValue)> = Vec::new();
            e.push((string_of(&sv), JsonValue::Str(String::new())));
            e.push((string_of(&ev), JsonValue::Str(String::new())));
            proof {
                lemma_object_model(&e);
                assert(entries_model(e@) =~= seq![
                    (seq!['s', 't', 'a', 'r', 't'], JsonModel::Str(Seq::empty())),
                    (seq!['e', 'n', 'd'], JsonModel::Str(Seq::empty())),
                ]);
            }
            JsonValue::Object(e)
        },
        _ => JsonValue::Str(String::new()),
    }
}

/// The value a declared setting takes: the stored override when its type
/// matches, else the declared default when its type matches, else the
/// per-type fallback.
pub open spec fn effective_value(
    def: &SkinSettingDef,
    overrides: Option<Seq<(Seq<char>, JsonModel)>>,
) -> JsonModel {
    let stored = match overrides {
        Some(o) => obj_lookup(o, def.key@),
        None => None,
    };
    if stored is Some && value_matches(def.kind, stored->Some_0) {
        stored->Some_0
    } else if def.default is Some && value_matches(def.kind, def.default->Some_0.model()) {
        def.default->Some_0.model()
    } else {
        fallback_value(def)
    }
}

/// A stored number is the effective value of a number, slider or stepper
/// setting, whatever its default; a stored value of another type is
/// ignored, as if nothing were stored.
pub proof fn law_stored_number_is_used(def: SkinSettingDef, o: Seq<(Seq<char>, JsonModel)>, v: JsonModel)
    requires
        def.kind == SkinSettingKind::Number || def.kind == SkinSettingKind::Slider || def.kind
            == SkinSettingKind::Stepper,
        obj_lookup(o, def.key@) == Some(v),
    ensures
        v is Number ==> effective_value(&def, Some(o)) == v,
        !(v is Number) ==> effective_value(&def, Some(o)) == effective_value(&def, None),
{
    law_value_types(def.kind, v);
}

/// With nothing stored, a number, slider or stepper setting takes its
/// declared default when that is a number.
pub proof fn law_number_default_is_used(def: SkinSettingDef, o: Option<Seq<(Seq<char>, JsonModel)>>)
    requires
        def.kind == SkinSettingKind::Number || def.kind == SkinSettingKind::Slider || def.kind
            == SkinSettingKind::Stepper,
        o is None || obj_lookup(o->Some_0, def.key@) is None,
        def.default matches Some(d) && d.model() is Number,
    ensures
        effective_value(&def, o) == def.default->Some_0.model(),
{
    law_value_types(def.kind, def.default->Some_0.model());
}

/// With neither a usable stored value nor a usable default, a setting
/// takes a value its kind accepts: zero for numbers, off for switches,
/// empty lists and text, white for colors, the first option of a choice
/// (nothing when it has none), and an empty time range.
pub proof fn law_fallback_fits(def: SkinSettingDef)
    ensures
        !((def.kind == SkinSettingKind::Select || def.kind == SkinSettingKind::Radio) && def.options@.len() == 0)
            ==> value_matches(def.kind, fallback_value(&def)),
        def.kind == SkinSettingKind::Number || def.kind == SkinSettingKind::Slider || def.kind
            == SkinSettingKind::Stepper ==> fallback_value(&def) == JsonModel::Number(NumberModel::PosInt(0)),
        def.kind == SkinSettingKind::Boolean ==> fallback_value(&def) == JsonModel::Bool(false),
        def.kind == SkinSettingKind::Palette ==> fallback_value(&def) == JsonModel::Str(
            seq!['#', 'f', 'f', 'f', 'f', 'f', 'f'],
        ),
        (def.kind == SkinSettingKind::Select || def.kind == SkinSettingKind::Radio) && def.options@.len() > 0
            ==> fallback_value(&def) == JsonModel::Str(def.options@[0].value@),
        (def.kind == SkinSettingKind::Select || def.kind == SkinSettingKind::Radio) && def.options@.len() == 0
            ==> fallback_value(&def) == JsonModel::Null,
        def.kind == SkinSettingKind::MultiSelect || def.kind == SkinSettingKind::TaskList || def.kind
            == SkinSettingKind::TodoList || def.kind == SkinSettingKind::Weekdays || def.kind
            == SkinSettingKind::DateTaskList ==> fallback_value(&def) == JsonModel::Array(Seq::empty()),
        def.kind == SkinSettingKind::Text || def.kind == SkinSettingKind::LongText || def.kind
            == SkinSettingKind::Time || def.kind == SkinSettingKind::Date || def.kind == SkinSettingKind::DateTime
            || def.kind == SkinSettingKind::Password || def.kind == SkinSettingKind::Font || def.kind
            == SkinSettingKind::File || def.kind == SkinSettingKind::Directory ==> fallback_value(&def)
            == JsonModel::Str(Seq::empty()),
{
}

/// For every kind, a stored value of the kind's type is the effective
/// value, and one of another type is ignored as if nothing were stored.
pub proof fn law_stored_value_honored(def: SkinSettingDef, o: Seq<(Seq<char>, JsonModel)>, v: JsonModel)
    requires
        obj_lookup(o, def.key@) == Some(v),
    ensures
        value_matches(def.kind, v) ==> effective_value(&def, Some(o)) == v,
        !value_matches(def.kind, v) ==> effective_value(&def, Some(o)) == effective_value(&def, None),
{
}

/// Map insertion: replaces the value of the first entry with key `k`, or
/// appends the entry.
pub open spec fn upsert(entries: Seq<(Seq<char>, JsonModel)>, k: Seq<char>, v: JsonModel) -> Seq<
    (Seq<char>, JsonModel),
> {
    if exists|i: int| 0 <= i < entries.len() && entries[i].0 == k {
        let i = choose|i: int|
            0 <= i < entries.len() && entries[i].0 == k && forall|j: int|
                0 <= j < i ==> entries[j].0 != k;
        entries.update(i, (k, v))
    } else {
        entries.push((k, v))
    }
}

/// Looking a key up finds its first entry.
pub proof fn lemma_lookup_first(e: Seq<(Seq<char>, JsonModel)>, k: Seq<char>, i: int)
    requires
        0 <= i < e.len(),
        e[i].0 == k,
        forall|j: int| 0 <= j < i ==> (#[trigger] e[j]).0 != k,
    ensures
        obj_lookup(e, k) == Some(e[i].1),
    decreases i,
{
    if i > 0 {
        assert(e[0].0 != k);
        let rest = e.drop_first();
        assert forall|j: int| 0 <= j < i - 1 implies (#[trigger] rest[j]).0 != k by {
            assert(rest[j] == e[j + 1]);
        }
        lemma_lookup_first(rest, k, i - 1);
    }
}

/// Looking up a key that no entry has finds nothing.
pub proof fn lemma_lookup_absent(e: Seq<(Seq<char>, JsonModel)>, k: Seq<char>)
    requires
        forall|j: int| 0 <= j < e.len() ==> (#[trigger] e[j]).0 != k,
    ensures
        obj_lookup(e, k) is None,
    decreases e.len(),
{
    if e.len() > 0 {
        assert(e[0].0 != k);
        let rest = e.drop_first();
        assert forall|j: int| 0 <= j < rest.len() implies (#[trigger] rest[j]).0 != k by {
            assert(rest[j] == e[j + 1]);
        }
        lemma_lookup_absent(rest, k);
    }
}

/// After `upsert`, the key reads back the value set, and every other key
/// reads as before.
pub proof fn lemma_upsert_lookup(e: Seq<(Seq<char>, JsonModel)>, k: Seq<char>, v: JsonModel, k2: Seq<char>)
    ensures
        obj_lookup(upsert(e, k, v), k2) == if k2 == k {
            Some(v)
        } else {
            obj_lookup(e, k2)
        },
{
    let u = upsert(e, k, v);
    // Position of the changed entry.
    let at: int = if exists|i: int| 0 <= i < e.len() && e[i].0 == k {
        choose|i: int| 0 <= i < e.len() && e[i].0 == k && forall|j: int| 0 <= j < i ==> e[j].0 != k
    } else {
        e.len() as int
    };
    if exists|i: int| 0 <= i < e.len() && e[i].0 == k {
        let w = choose|i: int| 0 <= i < e.len() && e[i].0 == k;
        // the first entry with key k exists
        let first = first_with_key(e, k, w);
        assert(0 <= first < e.len() && e[first].0 == k && forall|j: int| 0 <= j < first ==> e[j].0 != k);
    }
    assert(u.len() >= at + 1);
    assert(u[at] == (k, v));
    assert(forall|j: int| 0 <= j < u.len() && j != at ==> u[j] == e[j]);
    assert(forall|j: int| 0 <= j < at ==> (#[trigger] u[j]).0 != k);
    if k2 == k {
        lemma_lookup_first(u, k, at);
    } else if exists|i: int| 0 <= i < e.len() && e[i].0 == k2 {
        let w = choose|i: int| 0 <= i < e.len() && e[i].0 == k2;
        let f = first_with_key(e, k2, w);
        lemma_lookup_first(e, k2, f);
        assert(u[f] == e[f]);
        assert forall|j: int| 0 <= j < f implies (#[trigger] u[j]).0 != k2 by {
            if j != at {
                assert(u[j] == e[j]);
            }
        }
        lemma_lookup_first(u, k2, f);
    } else {
        lemma_lookup_absent(e, k2);
        assert forall|j: int| 0 <= j < u.len() implies (#[trigger] u[j]).0 != k2 by {
            if j != at {
                assert(u[j] == e[j]);
            }
        }
        lemma_lookup_absent(u, k2);
    }
}

/// The first entry with key `k`, given that entry `w` has it.
proof fn first_with_key(e: Seq<(Seq<char>, JsonModel)>, k: Seq<char>, w: int) -> (f: int)
    requires
        0 <= w < e.len(),
        e[w].0 == k,
    ensures
        0 <= f <= w,
        e[f].0 == k,
        forall|j: int| 0 <= j < f ==> (#[trigger] e[j]).0 != k,
    decreases w,
{
    if exists|j: int| 0 <= j < w && e[j].0 == k {
        let j = choose|j: int| 0 <= j < w && e[j].0 == k;
        first_with_key(e, k, j)
    } else {
        w
    }
}

/// Effective values of all declared settings, keyed by setting key (a key
/// declared twice takes the later declaration).
pub open spec fn effective_all(
    defs: Seq<SkinSettingDef>,
    overrides: Option<Seq<(Seq<char>, JsonModel)>>,
) -> Seq<(Seq<char>, JsonModel)>
    decreases defs.len(),
{
    if defs.len() == 0 {
        Seq::empty()
    } else {
        let d = defs.last();
        upsert(effective_all(defs.drop_last(), overrides), d.key@, effective_value(&d, overrides))
    }
}

/// Sets key `k` to `v` in an object's entries (see [`upsert`]).
pub fn set_value(out: &mut Vec<(String, JsonValue)>, k: String, v: JsonValue)
    ensures
        entries_model(final(out)@) == upsert(entries_model(old(out)@), k@, v.model()),
{
    let kv = chars_of(k.as_str());
    let ghost m = entries_model(out@);
    let mut i: usize = 0;
    while i < out.len()
        invariant
            i <= out.len(),
            out@ == old(out)@,
            m == entries_model(out@),
            kv@ == k@,
            forall|j: int| 0 <= j < i ==> m[j].0 != k@,
        decreases out.len() - i,
    {
        let cur = chars_of(out[i].0.as_str());
        if chars_eq(&cur, &kv) {
            let ghost vm = v.model();
            proof {
                assert(m[i as int].0 == k@);
                let c = choose|c: int|
                    0 <= c < m.len() && m[c].0 == k@ && forall|j: int| 0 <= j < c ==> m[j].0 != k@;
                assert(c == i) by {
                    if c < i {
                        assert(m[c].0 != k@);
                    } else if c > i {
                        assert(m[i as int].0 != k@);
                    }
                }
            }
            out.set(i, (k, v));
            assert(entries_model(out@) =~= m.update(i as int, (kv@, vm)));
            return;
        }
        i = i + 1;
    }
    let ghost vm = v.model();
    out.push((k, v));
    assert(entries_model(out@) =~= m.push((kv@, vm)));
}

/// Build the effective custom setting values for a skin: for each declared
/// setting, the persisted override when it is type-compatible, else the
/// declared default, else a per-type fallback.
pub fn effective_settings(
    manifest: &SkinManifest,
    overrides: Option<&Vec<(String, JsonValue)>>,
) -> (r: Vec<(String, JsonValue)>)
    ensures
        entries_model(r@) == effective_all(
            manifest.settings@,
            match overrides {
                Some(o) => Some(entries_model(o@)),
                None => None,
            },
        ),
{
    let ghost ov = match overrides {
        Some(o) => Some(entries_model(o@)),
        None => None,
    };
    let mut out: Vec<(String, JsonValue)> = Vec::new();
    let mut i: usize = 0;
    assert(entries_model(out@) =~= Seq::<(Seq<char>, JsonModel)>::empty());
    assert(manifest.settings@.take(0) =~= Seq::<SkinSettingDef>::empty());
    while i < manifest.settings.len()
        invariant
            i <= manifest.settings.len(),
            ov == (match overrides {
                Some(o) => Some(entries_model(o@)),
                None => None::<Seq<(Seq<char>, JsonModel)>>,
            }),
            entries_model(out@) == effective_all(manifest.settings@.take(i as int), ov),
        decreases manifest.settings.len() - i,
    {
        let def = &manifest.settings[i];
        let stored: Option<&JsonValue> = match overrides {
            Some(o) => {
                let kc = chars_of(def.key.as_str());
                object_get(o, &kc)
            },
            None => None,
        };
        let value = match stored {
            Some(x) if setting_value_matches(def.kind, x) => x.copy(),
            _ => match &def.default {
                Some(d) if setting_value_matches(def.kind, d) => d.copy(),
                _ => type_fallback(def),
            },
        };
        assert(value.model() == effective_value(def, ov));
        assert(manifest.settings@.take(i + 1).drop_last() =~= manifest.settings@.take(i as int));
        set_value(&mut out, def.key.clone(), value);
        i = i + 1;
    }
    assert(manifest.settings@.take(manifest.settings.len() as int) =~= manifest.settings@);
    out
}


// ─── Manifest checks ─────────────────────────────────────────────────────

/// Largest base width or height a manifest may declare.
pub const MAX_DIMENSION: u32 = 10000;

/// Longest auto-refresh interval of a web skin, in seconds (a day).
pub const MAX_REFRESH_SECONDS: u32 = 86400;

pub open spec fn clamp_dim(v: u32) -> u32 {
    if v < 1 {
        1
    } else if v > MAX_DIMENSION {
        MAX_DIMENSION
    } else {
        v
    }
}

/// Normalizes the declared window defaults: an explicit always-on-top wins
/// over the on-desktop default, width and height are clamped to
/// `[1, MAX_DIMENSION]`, and the refresh interval is capped at a day.
pub fn normalize_window(w: &mut WindowDefaults)
    ensures
        final(w).on_desktop == (old(w).on_desktop && !old(w).always_on_top),
        final(w).always_on_top == old(w).always_on_top,
        final(w).width == clamp_dim(old(w).width),
        final(w).height == clamp_dim(old(w).height),
        final(w).refresh_seconds == (match old(w).refresh_seconds {
            Some(s) => Some(if s > MAX_REFRESH_SECONDS {
                MAX_REFRESH_SECONDS
            } else {
                s
            }),
            None => None,
        }),
        final(w).transparent == old(w).transparent,
        final(w).resizable == old(w).resizable,
        final(w).edge_snap == old(w).edge_snap,
        final(w).snap_gap == old(w).snap_gap,
{
    if w.always_on_top {
        w.on_desktop = false;
    }
    w.width = crate::commands::clamp_dimension(w.width);
    w.height = crate::commands::clamp_dimension(w.height);
    w.refresh_seconds = match w.refresh_seconds {
        Some(s) => Some(if s > MAX_REFRESH_SECONDS {
            MAX_REFRESH_SECONDS
        } else {
            s
        }),
        None => None,
    };
}

pub open spec fn invalid_entry_message(e: Seq<char>) -> Seq<char> {
    "Invalid entry file name '"@ + e + "'"@
}

pub open spec fn missing_entry_message(e: Seq<char>) -> Seq<char> {
    "Entry file '"@ + e + "' not found"@
}

/// The entry check applied when a manifest is loaded: a web-skin URL needs
/// no file; otherwise the entry must be a valid file name and exist.
pub open spec fn entry_check(e: Seq<char>, exists: bool) -> Result<(), Seq<char>> {
    if url_entry(e) {
        Ok(())
    } else if !valid_entry_name(e) {
        Err(invalid_entry_message(e))
    } else if !exists {
        Err(missing_entry_message(e))
    } else {
        Ok(())
    }
}

/// Checks a manifest's entry; `entry_exists` says whether the entry file
/// is present in the skin folder.
pub fn check_manifest_entry(entry: &str, entry_exists: bool) -> (r: Result<(), String>)
    ensures
        match r {
            Ok(()) => entry_check(entry@, entry_exists) is Ok,
            Err(m) => entry_check(entry@, entry_exists) == Err::<(), Seq<char>>(m@),
        },
{
    if crate::skin::types::is_url_entry(entry) {
        return Ok(());
    }
    if !is_valid_entry_name(entry) {
        let mut m = String::from_str("Invalid entry file name '");
        m.append(entry);
        m.append("'");
        return Err(m);
    }
    if !entry_exists {
        let mut m = String::from_str("Entry file '");
        m.append(entry);
        m.append("' not found");
        return Err(m);
    }
    Ok(())
}

/// Preview file names, in lookup order.
pub open spec fn preview_names() -> Seq<Seq<char>> {
    seq!["preview.png"@, "preview.jpg"@, "preview.jpeg"@]
}

/// The preview file of a skin folder: the first of preview.png,
/// preview.jpg, preview.jpeg that `present` marks as existing.
pub fn find_preview_image(present: &[bool; 3]) -> (r: Option<&'static str>)
    ensures
        match r {
            Some(n) => exists|i: int|
                0 <= i < 3 && present@[i] && n@ == preview_names()[i] && forall|j: int|
                    0 <= j < i ==> !present@[j],
            None => forall|i: int| 0 <= i < 3 ==> !present@[i],
        },
{
    if present[0] {
        Some("preview.png")
    } else if present[1] {
        Some("preview.jpg")
    } else if present[2] {
        Some("preview.jpeg")
    } else {
        None
    }
}


// ─── Reading skin folders ────────────────────────────────────────────────

/// Largest skin.json accepted (1 MB): manifests are small files, a larger
/// one is treated as broken.
pub const MAX_MANIFEST_BYTES: u64 = 1048576;

/// The refusal of a skin.json of `size` bytes, if it is over the limit.
pub open spec fn manifest_size_refusal(size: u64) -> Option<Seq<char>> {
    if size > MAX_MANIFEST_BYTES {
        Some("skin.json too large ("@ + crate::text::decimal(size as nat) + " bytes, limit 1048576 bytes)"@)
    } else {
        None
    }
}

/// Checks the size of a skin.json before reading it.
pub fn check_manifest_size(size: u64) -> (r: Result<(), String>)
    ensures
        match r {
            Ok(_) => manifest_size_refusal(size) is None,
            Err(e) => manifest_size_refusal(size) == Some(e@),
        },
{
    if size > MAX_MANIFEST_BYTES {
        let mut v = chars_of("skin.json too large (");
        let d = crate::text::u64_to_decimal(size);
        crate::text::extend_chars(&mut v, &chars_of(d.as_str()));
        crate::text::extend_chars(&mut v, &chars_of(" bytes, limit 1048576 bytes)"));
        Err(string_of(&v))
    } else {
        Ok(())
    }
}

/// Where the skin is inside an extracted package: the package root when it
/// holds skin.json, else its only first-level folder that holds one
/// (`Some(folder)`); zero or several such folders refuse the package.
pub open spec fn skin_root_of(root_has_manifest: bool, candidates: Seq<Seq<char>>) -> Option<Option<Seq<char>>> {
    if root_has_manifest {
        Some(None)
    } else if candidates.len() == 1 {
        Some(Some(candidates[0]))
    } else {
        None
    }
}

/// A package whose root holds skin.json installs from its root; otherwise
/// a single first-level folder holding skin.json is the skin (a package
/// zipped with one wrapping folder), and no such folder or several of them
/// refuse the package.
pub proof fn law_skin_root(candidates: Seq<Seq<char>>, c: Seq<char>)
    ensures
        skin_root_of(true, candidates) == Some(None::<Seq<char>>),
        skin_root_of(false, seq![c]) == Some(Some(c)),
        skin_root_of(false, Seq::<Seq<char>>::empty()) is None,
        candidates.len() >= 2 ==> skin_root_of(false, candidates) is None,
        skin_root_of(false, candidates) matches Some(Some(f)) ==> candidates =~= seq![f],
{
    if skin_root_of(false, candidates) is Some {
        assert(candidates =~= seq![candidates[0]]);
    }
}

/// Locates the skin inside an extracted package (`Ok(None)` is the root).
pub fn find_skin_root(root_has_manifest: bool, candidates: &Vec<String>, lang: &str) -> (r: Result<
    Option<String>,
    String,
>)
    ensures
        match r {
            Ok(Some(f)) => skin_root_of(root_has_manifest, crate::text::strings_view(candidates@))
                == Some(Some(f@)),
            Ok(None) => skin_root_of(root_has_manifest, crate::text::strings_view(candidates@)) == Some(
                None::<Seq<char>>,
            ),
            Err(e) => skin_root_of(root_has_manifest, crate::text::strings_view(candidates@)) is None
                && e@ == crate::i18n::tr_text(lang@, Key::NoSkinJsonInPackage),
        },
{
    if root_has_manifest {
        Ok(None)
    } else if candidates.len() == 1 {
        Ok(Some(candidates[0].clone()))
    } else {
        Err(crate::i18n::tr(lang, Key::NoSkinJsonInPackage).to_string())
    }
}

fn clone_opt(o: &Option<String>) -> (r: Option<String>)
    ensures
        r == *o,
{
    match o {
        Some(s) => Some(s.clone()),
        None => None,
    }
}

/// The entry of the manager's skin list for one installed skin.
pub fn skin_info(
    id: &str,
    manifest: &SkinManifest,
    loaded_ids: &Vec<String>,
    hidden_ids: &Vec<String>,
    preview: Option<String>,
) -> (r: crate::skin::types::SkinInfo)
    ensures
        r.id@ == id@,
        r.name_zh@ == match manifest.name_zh {
            Some(n) => n@,
            None => Seq::<char>::empty(),
        },
        r.name_en == manifest.name_en,
        r.author == manifest.author,
        r.version == manifest.version,
        r.description_zh == manifest.description_zh,
        r.description_en == manifest.description_en,
        r.loaded == crate::text::strings_view(loaded_ids@).contains(id@),
        r.hidden == crate::text::strings_view(hidden_ids@).contains(id@),
        r.preview == preview,
{
    crate::skin::types::SkinInfo {
        id: id.to_string(),
        name_zh: match &manifest.name_zh {
            Some(n) => n.clone(),
            None => String::new(),
        },
        name_en: clone_opt(&manifest.name_en),
        author: clone_opt(&manifest.author),
        version: clone_opt(&manifest.version),
        description_zh: clone_opt(&manifest.description_zh),
        description_en: clone_opt(&manifest.description_en),
        loaded: crate::text::contains_string(loaded_ids, id),
        hidden: crate::text::contains_string(hidden_ids, id),
        preview,
    }
}

/// Folders whose name starts with '.' are staging leftovers of installs,
/// never skins.
pub fn is_skin_folder_name(name: &str) -> (b: bool)
    ensures
        b == !(name@.len() > 0 && name@[0] == '.'),
{
    let v = chars_of(name);
    !(v.len() > 0 && v[0] == '.')
}

/// Names in ascending order (by character code, which for UTF-8 text is
/// the byte order folder names are sorted by).
pub open spec fn names_sorted(s: Seq<Seq<char>>) -> bool {
    forall|a: int, b: int| 0 <= a < b < s.len() ==> crate::text::str_le(#[trigger] s[a], #[trigger] s[b])
}

/// The order a skins folder is scanned in: its entries' names sorted, so
/// that which of two folders with the same id is kept does not depend on
/// the file system's listing order.  The result holds exactly the names
/// given, as many as given.
pub fn scan_order(names: Vec<String>) -> (r: Vec<String>)
    ensures
        r.len() == names.len(),
        names_sorted(crate::text::strings_view(r@)),
        forall|x: Seq<char>|
            crate::text::strings_view(r@).contains(x) <==> crate::text::strings_view(names@).contains(x),
{
    let ghost orig = crate::text::strings_view(names@);
    let mut rest = names;
    let mut out: Vec<String> = Vec::new();
    while rest.len() > 0
        invariant
            out.len() + rest.len() == orig.len(),
            names_sorted(crate::text::strings_view(out@)),
            forall|x: Seq<char>|
                crate::text::strings_view(out@).contains(x) || crate::text::strings_view(rest@).contains(x)
                    <==> orig.contains(x),
        decreases rest.len(),
    {
        let ghost rv = crate::text::strings_view(rest@);
        let ghost ov = crate::text::strings_view(out@);
        let item = rest.pop().unwrap();
        let ghost xv = item@;
        assert(rv == crate::text::strings_view(rest@).push(xv));
        let iv = chars_of(item.as_str());
        let mut pos: usize = 0;
        let mut done = false;
        while pos < out.len() && !done
            invariant
                pos <= out.len(),
                iv@ == xv,
                ov == crate::text::strings_view(out@),
                forall|q: int| 0 <= q < pos ==> crate::text::str_le(#[trigger] ov[q], xv),
                done ==> pos < out.len() && !crate::text::str_le(ov[pos as int], xv),
            decreases out.len() - pos, if done { 0int } else { 1int },
        {
            let c = chars_of(out[pos].as_str());
            if crate::text::str_le_exec(&c, &iv) {
                pos = pos + 1;
            } else {
                done = true;
            }
        }
        out.insert(pos, item);
        let ghost nv = crate::text::strings_view(out@);
        assert(nv =~= ov.insert(pos as int, xv));
        proof {
            assert forall|q: int| pos <= q < ov.len() implies crate::text::str_le(xv, #[trigger] ov[q]) by {
                crate::text::lemma_str_le_total(ov[pos as int], xv);
                if q > pos {
                    assert(crate::text::str_le(ov[pos as int], ov[q]));
                    crate::text::lemma_str_le_trans(xv, ov[pos as int], ov[q]);
                }
            }
            assert forall|a: int, b: int| 0 <= a < b < nv.len() implies crate::text::str_le(
                #[trigger] nv[a],
                #[trigger] nv[b],
            ) by {
                let p = pos as int;
                if b < p {
                    assert(nv[a] == ov[a] && nv[b] == ov[b]);
                } else if b == p {
                    assert(nv[a] == ov[a]);
                } else if a < p {
                    assert(nv[a] == ov[a] && nv[b] == ov[b - 1]);
                    assert(crate::text::str_le(xv, ov[b - 1]));
                    crate::text::lemma_str_le_trans(ov[a], xv, ov[b - 1]);
                } else if a == p {
                    assert(nv[b] == ov[b - 1]);
                    assert(crate::text::str_le(xv, ov[b - 1]));
                } else {
                    assert(nv[a] == ov[a - 1] && nv[b] == ov[b - 1]);
                }
            }
            assert forall|x: Seq<char>| nv.contains(x) <==> ov.contains(x) || x == xv by {
                if nv.contains(x) {
                    let k = choose|k: int| 0 <= k < nv.len() && nv[k] == x;
                    if k < pos {
                        assert(ov[k] == x);
                    } else if k > pos {
                        assert(ov[k - 1] == x);
                    }
                }
                if ov.contains(x) {
                    let k = choose|k: int| 0 <= k < ov.len() && ov[k] == x;
                    if k < pos {
                        assert(nv[k] == x);
                    } else {
                        assert(nv[k + 1] == x);
                    }
                }
                if x == xv {
                    assert(nv[pos as int] == x);
                }
            }
            let rv2 = crate::text::strings_view(rest@);
            assert forall|x: Seq<char>| rv.contains(x) <==> rv2.contains(x) || x == xv by {
                if rv.contains(x) {
                    let k = choose|k: int| 0 <= k < rv.len() && rv[k] == x;
                    if k < rv2.len() {
                        assert(rv2[k] == x);
                    }
                }
                if rv2.contains(x) {
                    let k = choose|k: int| 0 <= k < rv2.len() && rv2[k] == x;
                    assert(rv[k] == x);
                }
                if x == xv {
                    assert(rv[rv.len() - 1] == x);
                }
            }
        }
    }
    out
}

/// `order` lists positions of `names` in ascending order of the names
/// (by character code, as strings compare), names that are equal in their
/// given order, each position once.
pub open spec fn is_display_order(names: Seq<Seq<char>>, order: Seq<usize>) -> bool {
    &&& order.len() == names.len()
    &&& forall|k: int| 0 <= k < order.len() ==> (#[trigger] order[k]) < names.len()
    &&& forall|a: int, b: int| 0 <= a < b < order.len() ==> order[a] != order[b]
    &&& forall|a: int, b: int|
        0 <= a < b < order.len() ==> crate::text::str_le(
            names[#[trigger] order[a] as int],
            names[#[trigger] order[b] as int],
        )
    &&& forall|a: int, b: int|
        0 <= a < b < order.len() && names[order[a] as int] == names[order[b] as int] ==> #[trigger] order[a]
            < #[trigger] order[b]
}

/// The order scanned skins are listed in: by display name, skins with the
/// same name in scan order.  Gives the positions of `names` (the display
/// names, in scan order) in listing order.
pub fn display_order(names: &Vec<String>) -> (order: Vec<usize>)
    ensures
        is_display_order(crate::text::strings_view(names@), order@),
{
    let ghost nv = crate::text::strings_view(names@);
    let mut order: Vec<usize> = Vec::new();
    let mut i: usize = 0;
    while i < names.len()
        invariant
            i <= names.len(),
            nv == crate::text::strings_view(names@),
            order.len() == i,
            forall|k: int| 0 <= k < order.len() ==> (#[trigger] order@[k]) < i,
            forall|a: int, b: int| 0 <= a < b < order.len() ==> order@[a] != order@[b],
            forall|a: int, b: int|
                0 <= a < b < order.len() ==> crate::text::str_le(
                    nv[#[trigger] order@[a] as int],
                    nv[#[trigger] order@[b] as int],
                ),
            forall|a: int, b: int|
                0 <= a < b < order.len() && nv[order@[a] as int] == nv[order@[b] as int] ==> #[trigger] order@[a]
                    < #[trigger] order@[b],
        decreases names.len() - i,
    {
        let x = chars_of(names[i].as_str());
        let ghost xv = nv[i as int];
        assert(x@ == xv);
        let ghost ov = order@;
        let mut pos: usize = 0;
        let mut done = false;
        while pos < order.len() && !done
            invariant
                pos <= order.len(),
                i < names.len(),
                order@ == ov,
                x@ == xv,
                nv == crate::text::strings_view(names@),
                forall|k: int| 0 <= k < ov.len() ==> (#[trigger] ov[k]) < i,
                forall|q: int| 0 <= q < pos ==> crate::text::str_le(nv[#[trigger] ov[q] as int], xv),
                done ==> pos < order.len() && !crate::text::str_le(nv[ov[pos as int] as int], xv),
            decreases order.len() - pos, if done { 0int } else { 1int },
        {
            let c = chars_of(names[order[pos]].as_str());
            assert(c@ == nv[ov[pos as int] as int]);
            if crate::text::str_le_exec(&c, &x) {
                pos = pos + 1;
            } else {
                done = true;
            }
        }
        order.insert(pos, i);
        proof {
            let p = pos as int;
            let w = order@;
            assert(w =~= ov.insert(p, i));
            // Every name from `pos` on is strictly above the new one.
            assert forall|q: int| p <= q < ov.len() implies crate::text::str_le(xv, nv[#[trigger] ov[q] as int])
                && nv[ov[q] as int] != xv by {
                assert(crate::text::str_le(nv[ov[p] as int], nv[ov[q] as int]) || q == p);
                if crate::text::str_le(nv[ov[q] as int], xv) {
                    if q != p {
                        crate::text::lemma_str_le_trans(nv[ov[p] as int], nv[ov[q] as int], xv);
                    }
                }
                crate::text::lemma_str_le_total(nv[ov[q] as int], xv);
                crate::text::lemma_str_le_total(xv, xv);
            }
            assert forall|k: int| 0 <= k < w.len() implies (#[trigger] w[k]) < i + 1 by {
                if k < p {
                    assert(w[k] == ov[k]);
                } else if k > p {
                    assert(w[k] == ov[k - 1]);
                }
            }
            assert forall|a: int, b: int| 0 <= a < b < w.len() implies w[a] != w[b] by {
                if a < p {
                    assert(w[a] == ov[a]);
                } else if a > p {
                    assert(w[a] == ov[a - 1]);
                }
                if b < p {
                    assert(w[b] == ov[b]);
                } else if b > p {
                    assert(w[b] == ov[b - 1]);
                }
            }
            assert forall|a: int, b: int| 0 <= a < b < w.len() implies crate::text::str_le(
                nv[#[trigger] w[a] as int],
                nv[#[trigger] w[b] as int],
            ) && (nv[w[a] as int] == nv[w[b] as int] ==> w[a] < w[b]) by {
                if b < p {
                    assert(w[a] == ov[a] && w[b] == ov[b]);
                } else if b == p {
                    assert(w[a] == ov[a]);
                } else if a < p {
                    assert(w[a] == ov[a] && w[b] == ov[b - 1]);
                    crate::text::lemma_str_le_trans(nv[ov[a] as int], xv, nv[ov[b - 1] as int]);
                } else if a == p {
                    assert(w[b] == ov[b - 1]);
                } else {
                    assert(w[a] == ov[a - 1] && w[b] == ov[b - 1]);
                }
            }
        }
        i = i + 1;
    }
    order
}

/// Which scanned skins are kept: of several folders with the same id (in
/// scan order) only the first.
pub fn first_of_each_id(ids: &Vec<String>) -> (kept: Vec<bool>)
    ensures
        kept.len() == ids.len(),
        forall|i: int|
            0 <= i < ids.len() ==> #[trigger] kept@[i] == !crate::text::strings_view(ids@).take(i).contains(
                ids@[i]@,
            ),
{
    let ghost v = crate::text::strings_view(ids@);
    let mut kept: Vec<bool> = Vec::new();
    let mut i: usize = 0;
    while i < ids.len()
        invariant
            i <= ids.len(),
            v == crate::text::strings_view(ids@),
            kept.len() == i,
            forall|j: int| 0 <= j < i ==> #[trigger] kept@[j] == !v.take(j).contains(ids@[j]@),
        decreases ids.len() - i,
    {
        let mut seen = false;
        let mut k: usize = 0;
        while k < i
            invariant
                k <= i < ids.len(),
                v == crate::text::strings_view(ids@),
                seen <==> exists|m: int| 0 <= m < k && v[m] == ids@[i as int]@,
            decreases i - k,
        {
            if crate::text::str_eq(ids[k].as_str(), ids[i].as_str()) {
                assert(v[k as int] == ids@[i as int]@);
                seen = true;
            }
            k = k + 1;
        }
        proof {
            let t = v.take(i as int);
            if seen {
                let m = choose|m: int| 0 <= m < i && v[m] == ids@[i as int]@;
                assert(t[m] == v[m]);
            } else {
                assert forall|m: int| 0 <= m < t.len() implies t[m] != ids@[i as int]@ by {
                    assert(t[m] == v[m]);
                }
            }
        }
        kept.push(!seen);
        i = i + 1;
    }
    kept
}
} // verus!
