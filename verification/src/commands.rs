//! Checks behind the manager and skin commands: custom-setting validation,
//! date/time formats, caller identity and window geometry bounds.

use vstd::prelude::*;
use crate::i18n::{fill, tr, tr_text, trf, Key};
use crate::json::{
    elems_model, entries_model, lemma_array_model, lemma_object_model, obj_lookup, object_get,
    JsonModel, JsonValue,
};
use crate::skin::types::{SkinSettingDef, SkinSettingKind};
use crate::text::{
    all_digits, chars_of, digits_value, is_hex_digit, prefix, find, find_exec, is_digit, lemma_split_on_nonempty, occurs_at,
    split_exec, split_on, string_of, extend_chars, lemma_digits_value_grows, parse_uint, uint_value,
    is_first_occurrence, joined, lemma_first_occurrence_unique, lemma_split_on_joined,
    lemma_split_on_concat, lemma_digits_lack, lemma_split_on_no_sep,
};

verus! {

/// `s` is exactly `width` ASCII digits whose value lies in `[min, max]`.
pub open spec fn fixed_uint(s: Seq<char>, width: nat, min: nat, max: nat) -> bool {
    s.len() == width && all_digits(s) && min <= digits_value(s) <= max
}

/// "HH:MM" or "HH:MM:SS", 24-hour.
pub open spec fn valid_time(s: Seq<char>) -> bool {
    let p = split_on(s, ':');
    (p.len() == 2 || p.len() == 3) && fixed_uint(p[0], 2, 0, 23) && fixed_uint(p[1], 2, 0, 59)
        && (p.len() == 2 || fixed_uint(p[2], 2, 0, 59))
}

/// "YYYY-MM-DD" with month 1-12 and day 1-31 (whatever the month).
pub open spec fn valid_ymd(s: Seq<char>) -> bool {
    let p = split_on(s, '-');
    p.len() == 3 && fixed_uint(p[0], 4, 0, 9999) && fixed_uint(p[1], 2, 1, 12) && fixed_uint(
        p[2],
        2,
        1,
        31,
    )
}

/// Canonical "YYYY-MM-DD HH:MM:SS" form of a date-time value; the empty
/// string (unset) stays empty; `None` when the value is malformed.
pub open spec fn datetime_norm(s: Seq<char>) -> Option<Seq<char>> {
    if s.len() == 0 {
        Some(Seq::empty())
    } else {
        let sp = find(s, seq![' ']);
        if sp < 0 {
            None
        } else {
            let date = s.take(sp);
            let time = s.skip(sp + 1);
            let p = split_on(time, ':');
            if !valid_ymd(date) {
                None
            } else if p.len() != 2 && p.len() != 3 {
                None
            } else if !fixed_uint(p[0], 2, 0, 23) || !fixed_uint(p[1], 2, 0, 59) {
                None
            } else if p.len() == 3 && !fixed_uint(p[2], 2, 0, 59) {
                None
            } else {
                let secs = if p.len() == 3 {
                    p[2]
                } else {
                    seq!['0', '0']
                };
                Some(date + seq![' '] + p[0] + seq![':'] + p[1] + seq![':'] + secs)
            }
        }
    }
}


// ---------------------------------------------------------------------
// Validation is stable: a stored value passes its own check unchanged.
// ---------------------------------------------------------------------

/// A well-formed date is its three fields joined by dashes, ten characters
/// in all.
proof fn lemma_ymd_fields(date: Seq<char>)
    requires
        valid_ymd(date),
    ensures
        date == split_on(date, '-')[0] + seq!['-'] + split_on(date, '-')[1] + seq!['-'] + split_on(
            date,
            '-',
        )[2],
        date.len() == 10,
{
    let p = split_on(date, '-');
    lemma_split_on_joined(date, '-');
    let p2 = p.drop_last();
    assert(p2.drop_last() =~= seq![p[0]]);
    assert(joined(p2.drop_last(), '-') == p[0]);
    assert(p2.last() == p[1]);
    assert(joined(p2, '-') == p[0] + seq!['-'] + p[1]);
}

/// A well-formed date holds only digits and dashes.
proof fn lemma_ymd_chars(date: Seq<char>, j: int)
    requires
        valid_ymd(date),
        0 <= j < date.len(),
    ensures
        is_digit(date[j]) || date[j] == '-',
{
    let p = split_on(date, '-');
    lemma_ymd_fields(date);
    let a = p[0].len();
    let b = a + 1 + p[1].len();
    if j < a {
        assert(date[j] == p[0][j]);
    } else if j == a {
    } else if j < b {
        assert(date[j] == p[1][j - a - 1]);
    } else if j == b {
    } else {
        assert(date[j] == p[2][j - b - 1]);
    }
}

/// Three digit fields joined by colons split back into those fields.
proof fn lemma_time_fields(h: Seq<char>, m: Seq<char>, secs: Seq<char>)
    requires
        all_digits(h),
        all_digits(m),
        all_digits(secs),
    ensures
        split_on(h + seq![':'] + m + seq![':'] + secs, ':') == seq![h, m, secs],
{
    lemma_digits_lack(h, ':');
    lemma_digits_lack(m, ':');
    lemma_digits_lack(secs, ':');
    lemma_split_on_no_sep(h, ':');
    lemma_split_on_no_sep(m, ':');
    lemma_split_on_no_sep(secs, ':');
    lemma_split_on_concat(m, secs, ':');
    assert(h + seq![':'] + m + seq![':'] + secs =~= h + seq![':'] + (m + seq![':'] + secs));
    lemma_split_on_concat(h, m + seq![':'] + secs, ':');
    assert(split_on(h, ':') + (split_on(m, ':') + split_on(secs, ':')) =~= seq![h, m, secs]);
}

/// "00" is a valid seconds field.
proof fn lemma_zero_seconds()
    ensures
        fixed_uint(seq!['0', '0'], 2, 0, 59),
{
    let z = seq!['0', '0'];
    let one = seq!['0'];
    assert(z.drop_last() =~= one);
    assert(one.drop_last() =~= Seq::<char>::empty());
    assert(digits_value(Seq::<char>::empty()) == 0);
    assert(digits_value(one) == 0);
    assert(digits_value(z) == 0);
    assert(all_digits(z));
}

/// The canonical date-time form is its own canonical form.
pub proof fn lemma_datetime_norm_stable(s: Seq<char>)
    requires
        datetime_norm(s) is Some,
    ensures
        datetime_norm(datetime_norm(s)->0) == datetime_norm(s),
{
    let n = datetime_norm(s)->0;
    if s.len() == 0 {
        return;
    }
    let sp = find(s, seq![' ']);
    let date = s.take(sp);
    let time = s.skip(sp + 1);
    let p = split_on(time, ':');
    let secs = if p.len() == 3 {
        p[2]
    } else {
        seq!['0', '0']
    };
    lemma_zero_seconds();
    let (h, m) = (p[0], p[1]);
    let rest = h + seq![':'] + m + seq![':'] + secs;
    assert(n =~= date + seq![' '] + rest);
    let d = date.len() as int;
    // The first blank of `n` ends the date.
    assert(occurs_at(n, seq![' '], d)) by {
        assert(n.subrange(d, d + 1) =~= seq![' ']);
    }
    assert forall|j: int| 0 <= j < d implies !#[trigger] occurs_at(n, seq![' '], j) by {
        lemma_ymd_chars(date, j);
        assert(n[j] == date[j]);
        if occurs_at(n, seq![' '], j) {
            assert(n.subrange(j, j + 1)[0] == n[j]);
        }
    }
    assert(is_first_occurrence(n, seq![' '], d));
    lemma_first_occurrence_unique(n, seq![' '], d);
    assert(n.take(d) =~= date);
    assert(n.skip(d + 1) =~= rest);
    // The time splits back into its fields.
    lemma_time_fields(h, m, secs);
}

/// Exact-width bounded decimal check over characters.
pub fn fixed_uint_chars(s: &Vec<char>, width: usize, min: u32, max: u32) -> (b: bool)
    ensures
        b == fixed_uint(s@, width as nat, min as nat, max as nat),
{
    if s.len() != width {
        return false;
    }
    let mut i: usize = 0;
    let mut value: u64 = 0;
    while i < s.len()
        invariant
            i <= s.len(),
            all_digits(s@.take(i as int)),
            value == digits_value(s@.take(i as int)),
            value <= max,
        decreases s.len() - i,
    {
        let c = s[i];
        if !('0' <= c && c <= '9') {
            assert(!is_digit(s@[i as int]));
            return false;
        }
        assert(s@.take(i + 1).drop_last() =~= s@.take(i as int));
        let d = (c as u32 - '0' as u32) as u64;
        value = value * 10 + d;
        i = i + 1;
        assert(all_digits(s@.take(i as int)));
        if value > max as u64 {
            proof {
                lemma_digits_value_grows(s@, i as int);
            }
            return false;
        }
    }
    assert(s@.take(s@.len() as int) =~= s@);
    min as u64 <= value
}

/// True when `s` is exactly `width` ASCII digits and within [min, max].
pub fn is_fixed_uint(s: &str, width: usize, min: u32, max: u32) -> (b: bool)
    ensures
        b == fixed_uint(s@, width as nat, min as nat, max as nat),
{
    let v = chars_of(s);
    fixed_uint_chars(&v, width, min, max)
}

fn valid_time_chars(v: &Vec<char>) -> (b: bool)
    ensures
        b == valid_time(v@),
{
    let parts = split_exec(v, ':');
    proof {
        lemma_split_on_nonempty(v@, ':');
    }
    if parts.len() != 2 && parts.len() != 3 {
        return false;
    }
    fixed_uint_chars(&parts[0], 2, 0, 23) && fixed_uint_chars(&parts[1], 2, 0, 59) && (
    parts.len() == 2 || fixed_uint_chars(&parts[2], 2, 0, 59))
}

fn valid_ymd_chars(v: &Vec<char>) -> (b: bool)
    ensures
        b == valid_ymd(v@),
{
    let parts = split_exec(v, '-');
    if parts.len() != 3 {
        return false;
    }
    fixed_uint_chars(&parts[0], 4, 0, 9999) && fixed_uint_chars(&parts[1], 2, 1, 12)
        && fixed_uint_chars(&parts[2], 2, 1, 31)
}

/// "HH:MM" or "HH:MM:SS", 24-hour.
pub fn is_valid_time(s: &str) -> (b: bool)
    ensures
        b == valid_time(s@),
{
    let v = chars_of(s);
    valid_time_chars(&v)
}

/// "YYYY-MM-DD" (day range is 1-31 regardless of month).
pub fn is_valid_ymd(s: &str) -> (b: bool)
    ensures
        b == valid_ymd(s@),
{
    let v = chars_of(s);
    valid_ymd_chars(&v)
}

fn slice_chars(v: &Vec<char>, from: usize, to: usize) -> (r: Vec<char>)
    requires
        from <= to <= v.len(),
    ensures
        r@ == v@.subrange(from as int, to as int),
{
    let mut r: Vec<char> = Vec::new();
    let mut i: usize = from;
    while i < to
        invariant
            from <= i <= to,
            to <= v.len(),
            r@ == v@.subrange(from as int, i as int),
        decreases to - i,
    {
        r.push(v[i]);
        i = i + 1;
        assert(r@ =~= v@.subrange(from as int, i as int));
    }
    r
}

fn normalize_datetime_chars(v: &Vec<char>) -> (r: Option<Vec<char>>)
    ensures
        match r {
            Some(x) => datetime_norm(v@) == Some(x@),
            None => datetime_norm(v@) is None,
        },
{
    if v.len() == 0 {
        return Some(Vec::new());
    }
    let space = vec![' '];
    assert(space@ =~= seq![' ']);
    let sp = match find_exec(v, &space) {
        Some(p) => p,
        None => {
            return None;
        },
    };
    proof {
        assert(space@ =~= seq![' ']);
    }
    let date = slice_chars(v, 0, sp);
    assert(sp + 1 <= v.len()) by {
        assert(occurs_at(v@, seq![' '], sp as int));
    }
    let time = slice_chars(v, sp + 1, v.len());
    assert(date@ =~= v@.take(sp as int));
    assert(time@ =~= v@.skip(sp + 1));
    if !valid_ymd_chars(&date) {
        return None;
    }
    let parts = split_exec(&time, ':');
    if parts.len() != 2 && parts.len() != 3 {
        return None;
    }
    if !fixed_uint_chars(&parts[0], 2, 0, 23) || !fixed_uint_chars(&parts[1], 2, 0, 59) {
        return None;
    }
    let mut out: Vec<char> = date;
    out.push(' ');
    extend_chars(&mut out, &parts[0]);
    out.push(':');
    extend_chars(&mut out, &parts[1]);
    out.push(':');
    if parts.len() == 3 {
        if !fixed_uint_chars(&parts[2], 2, 0, 59) {
            return None;
        }
        extend_chars(&mut out, &parts[2]);
    } else {
        out.push('0');
        out.push('0');
    }
    let ghost secs = if parts@.len() == 3 { parts@[2]@ } else { seq!['0', '0'] };
    assert(out@ =~= v@.take(sp as int) + seq![' '] + parts@[0]@ + seq![':'] + parts@[1]@ + seq![':'] + secs);
    Some(out)
}

/// "YYYY-MM-DD HH:MM" or "YYYY-MM-DD HH:MM:SS" → canonical
/// "YYYY-MM-DD HH:MM:SS".  Empty string stays empty ("unset").
pub fn normalize_datetime(s: &str) -> (r: Option<String>)
    ensures
        match r {
            Some(x) => datetime_norm(s@) == Some(x@),
            None => datetime_norm(s@) is None,
        },
{
    let v = chars_of(s);
    match normalize_datetime_chars(&v) {
        Some(x) => Some(string_of(&x)),
        None => None,
    }
}


// ─── Custom setting validation ───────────────────────────────────────────

pub open spec fn msg1(lang: Seq<char>, k: Key, a: Seq<char>) -> Seq<char> {
    fill(tr_text(lang, k), seq![a])
}

pub open spec fn msg2(lang: Seq<char>, k: Key, a: Seq<char>, b: Seq<char>) -> Seq<char> {
    fill(tr_text(lang, k), seq![a, b])
}

/// "Setting '<key>' requires <what>".
pub open spec fn needs_what(lang: Seq<char>, key: Seq<char>, what: Key) -> Seq<char> {
    msg2(lang, Key::SettingNeedsWhat, key, tr_text(lang, what))
}

/// A string value, or the "requires <what>" error.
pub open spec fn str_or(v: JsonModel, lang: Seq<char>, key: Seq<char>, what: Key) -> Result<
    Seq<char>,
    Seq<char>,
> {
    match v {
        JsonModel::Str(s) => Ok(s),
        _ => Err(needs_what(lang, key, what)),
    }
}

/// Applies `f` to every item in order; the first failing item decides the
/// error.
pub open spec fn each<T>(items: Seq<JsonModel>, f: spec_fn(JsonModel) -> Result<T, Seq<char>>) -> Result<
    Seq<T>,
    Seq<char>,
>
    decreases items.len(),
{
    if items.len() == 0 {
        Ok(Seq::empty())
    } else {
        match f(items[0]) {
            Err(e) => Err(e),
            Ok(x) => match each(items.drop_first(), f) {
                Ok(r) => Ok(seq![x] + r),
                Err(e) => Err(e),
            },
        }
    }
}

pub open spec fn prepend<T>(done: Seq<T>, r: Result<Seq<T>, Seq<char>>) -> Result<Seq<T>, Seq<char>> {
    match r {
        Ok(x) => Ok(done + x),
        Err(e) => Err(e),
    }
}

/// At most the first `n` items.
pub open spec fn first_items(items: Seq<JsonModel>, n: nat) -> Seq<JsonModel> {
    if items.len() <= n {
        items
    } else {
        items.take(n as int)
    }
}

pub open spec fn text_key() -> Seq<char> {
    seq!['t', 'e', 'x', 't']
}

pub open spec fn done_key() -> Seq<char> {
    seq!['d', 'o', 'n', 'e']
}

pub open spec fn time_key() -> Seq<char> {
    seq!['t', 'i', 'm', 'e']
}

pub open spec fn start_key() -> Seq<char> {
    seq!['s', 't', 'a', 'r', 't']
}

pub open spec fn end_key() -> Seq<char> {
    seq!['e', 'n', 'd']
}

/// The fixed weekday names, Monday first.
pub open spec fn weekday_names() -> Seq<Seq<char>> {
    seq![
        seq!['m', 'o', 'n'],
        seq!['t', 'u', 'e'],
        seq!['w', 'e', 'd'],
        seq!['t', 'h', 'u'],
        seq!['f', 'r', 'i'],
        seq!['s', 'a', 't'],
        seq!['s', 'u', 'n'],
    ]
}

/// `#rrggbb` or `#rrggbbaa`.
pub open spec fn valid_color(s: Seq<char>) -> bool {
    (s.len() == 7 || s.len() == 9) && s[0] == '#' && forall|i: int|
        1 <= i < s.len() ==> is_hex_digit(#[trigger] s[i])
}

/// Item check of a multi-select value.
pub open spec fn multi_item(opts: Seq<Seq<char>>, key: Seq<char>, lang: Seq<char>) -> spec_fn(
    JsonModel,
) -> Result<Seq<char>, Seq<char>> {
    |x: JsonModel|
        match x {
            JsonModel::Str(s) => if opts.contains(s) {
                Ok(s)
            } else {
                Err(msg2(lang, Key::SettingValueNotAllowed, key, s))
            },
            _ => Err(msg1(lang, Key::SettingNeedsStringArray, key)),
        }
}

/// Item check of a weekdays value.
pub open spec fn weekday_item(key: Seq<char>, lang: Seq<char>) -> spec_fn(JsonModel) -> Result<
    Seq<char>,
    Seq<char>,
> {
    |x: JsonModel|
        match x {
            JsonModel::Str(s) => if weekday_names().contains(s) {
                Ok(s)
            } else {
                Err(msg2(lang, Key::InvalidWeekday, key, s))
            },
            _ => Err(msg1(lang, Key::SettingNeedsStringArray, key)),
        }
}

/// Item check of a task-list value.
pub open spec fn task_item(key: Seq<char>, lang: Seq<char>) -> spec_fn(JsonModel) -> Result<
    JsonModel,
    Seq<char>,
> {
    |x: JsonModel|
        match x {
            JsonModel::Str(s) => Ok(JsonModel::Str(prefix(s, 200))),
            _ => Err(msg1(lang, Key::SettingNeedsStringArray, key)),
        }
}

/// Item check of a to-do list value.
pub open spec fn todo_item(key: Seq<char>, lang: Seq<char>) -> spec_fn(JsonModel) -> Result<
    JsonModel,
    Seq<char>,
> {
    |x: JsonModel|
        match x {
            JsonModel::Object(e) => match obj_lookup(e, text_key()) {
                Some(JsonModel::Str(t)) => {
                    let done = match obj_lookup(e, done_key()) {
                        Some(JsonModel::Bool(b)) => b,
                        _ => false,
                    };
                    Ok(
                        JsonModel::Object(
                            seq![
                                (text_key(), JsonModel::Str(prefix(t, 200))),
                                (done_key(), JsonModel::Bool(done)),
                            ],
                        ),
                    )
                },
                _ => Err(msg1(lang, Key::EntryMissingText, key)),
            },
            _ => Err(msg1(lang, Key::EntryNeedsObject, key)),
        }
}

/// Item check of a dated task list value.
pub open spec fn datetask_item(key: Seq<char>, lang: Seq<char>) -> spec_fn(JsonModel) -> Result<
    JsonModel,
    Seq<char>,
> {
    |x: JsonModel|
        match x {
            JsonModel::Object(e) => match obj_lookup(e, time_key()) {
                Some(JsonModel::Str(tm)) => match obj_lookup(e, text_key()) {
                    Some(JsonModel::Str(t)) => match datetime_norm(tm) {
                        Some(n) => Ok(
                            JsonModel::Object(
                                seq![
                                    (time_key(), JsonModel::Str(n)),
                                    (text_key(), JsonModel::Str(prefix(t, 200))),
                                ],
                            ),
                        ),
                        None => Err(msg1(lang, Key::EntryTimeFormat, key)),
                    },
                    _ => Err(msg1(lang, Key::EntryMissingText, key)),
                },
                _ => Err(msg1(lang, Key::EntryMissingTime, key)),
            },
            _ => Err(msg1(lang, Key::EntryNeedsObject, key)),
        }
}

/// First occurrences of each string, in order.
pub open spec fn dedup(s: Seq<Seq<char>>) -> Seq<Seq<char>>
    decreases s.len(),
{
    if s.len() == 0 {
        s
    } else {
        let d = dedup(s.drop_last());
        if d.contains(s.last()) {
            d
        } else {
            d.push(s.last())
        }
    }
}

pub open spec fn strs_model(s: Seq<Seq<char>>) -> Seq<JsonModel> {
    s.map_values(|x: Seq<char>| JsonModel::Str(x))
}

/// The names of `days` that occur in `picked`, in the order of `days`.
pub open spec fn days_picked(days: Seq<Seq<char>>, picked: Seq<Seq<char>>) -> Seq<Seq<char>>
    decreases days.len(),
{
    if days.len() == 0 {
        Seq::empty()
    } else {
        (if picked.contains(days[0]) {
            seq![days[0]]
        } else {
            Seq::empty()
        }) + days_picked(days.drop_first(), picked)
    }
}

/// The value a custom setting stores for `value`, or the error message,
/// according to the setting's declared kind.  Number-like settings keep
/// the number as given here; their floating-point bounds are applied by
/// the caller.
pub open spec fn validated(def: &SkinSettingDef, value: JsonModel, lang: Seq<char>) -> Result<
    JsonModel,
    Seq<char>,
> {
    let key = def.key@;
    match def.kind {
        SkinSettingKind::Boolean => match value {
            JsonModel::Bool(b) => Ok(JsonModel::Bool(b)),
            _ => Err(msg1(lang, Key::SettingNeedsBool, key)),
        },
        SkinSettingKind::Number | SkinSettingKind::Slider | SkinSettingKind::Stepper => match value {
            JsonModel::Number(n) => Ok(JsonModel::Number(n)),
            _ => Err(msg1(lang, Key::SettingNeedsNumber, key)),
        },
        SkinSettingKind::Text | SkinSettingKind::Password => match str_or(
            value,
            lang,
            key,
            Key::WhatText,
        ) {
            Ok(s) => Ok(JsonModel::Str(prefix(s, 256))),
            Err(e) => Err(e),
        },
        SkinSettingKind::LongText => match str_or(value, lang, key, Key::WhatText) {
            Ok(s) => Ok(JsonModel::Str(prefix(s, 4000))),
            Err(e) => Err(e),
        },
        SkinSettingKind::Font => match str_or(value, lang, key, Key::WhatFont) {
            Ok(s) => Ok(JsonModel::Str(prefix(s, 128))),
            Err(e) => Err(e),
        },
        SkinSettingKind::File | SkinSettingKind::Directory | SkinSettingKind::GpuAdapter => match str_or(
            value,
            lang,
            key,
            Key::WhatText,
        ) {
            Ok(s) => Ok(JsonModel::Str(s)),
            Err(e) => Err(e),
        },
        SkinSettingKind::Time => match str_or(value, lang, key, Key::WhatTime) {
            Ok(s) => if valid_time(s) {
                Ok(JsonModel::Str(s))
            } else {
                Err(msg1(lang, Key::SettingNeedsTime, key))
            },
            Err(e) => Err(e),
        },
        SkinSettingKind::Date => match str_or(value, lang, key, Key::WhatDate) {
            Ok(s) => if valid_ymd(s) {
                Ok(JsonModel::Str(s))
            } else {
                Err(msg1(lang, Key::SettingNeedsDate, key))
            },
            Err(e) => Err(e),
        },
        SkinSettingKind::DateTime => match str_or(value, lang, key, Key::WhatTime) {
            Ok(s) => match datetime_norm(s) {
                Some(n) => Ok(JsonModel::Str(n)),
                None => Err(msg1(lang, Key::SettingNeedsDateTime, key)),
            },
            Err(e) => Err(e),
        },
        SkinSettingKind::Palette => match str_or(value, lang, key, Key::WhatColor) {
            Ok(s) => if valid_color(s) {
                Ok(JsonModel::Str(s))
            } else {
                Err(msg1(lang, Key::SettingNeedsColor, key))
            },
            Err(e) => Err(e),
        },
        SkinSettingKind::Select | SkinSettingKind::Radio => match str_or(
            value,
            lang,
            key,
            Key::WhatOption,
        ) {
            Ok(s) => if def.option_values().contains(s) {
                Ok(JsonModel::Str(s))
            } else {
                Err(msg2(lang, Key::SettingValueNotAllowed, key, s))
            },
            Err(e) => Err(e),
        },
        SkinSettingKind::MultiSelect => match value {
            JsonModel::Array(items) => match each(
                items,
                multi_item(def.option_values(), key, lang),
            ) {
                Ok(strs) => Ok(JsonModel::Array(strs_model(dedup(strs)))),
                Err(e) => Err(e),
            },
            _ => Err(msg1(lang, Key::SettingNeedsArray, key)),
        },
        SkinSettingKind::Weekdays => match value {
            JsonModel::Array(items) => match each(items, weekday_item(key, lang)) {
                Ok(strs) => Ok(JsonModel::Array(strs_model(days_picked(weekday_names(), strs)))),
                Err(e) => Err(e),
            },
            _ => Err(msg1(lang, Key::SettingNeedsArray, key)),
        },
        SkinSettingKind::TaskList => match value {
            JsonModel::Array(items) => match each(first_items(items, 500), task_item(key, lang)) {
                Ok(r) => Ok(JsonModel::Array(r)),
                Err(e) => Err(e),
            },
            _ => Err(msg1(lang, Key::SettingNeedsArray, key)),
        },
        SkinSettingKind::TodoList => match value {
            JsonModel::Array(items) => match each(first_items(items, 500), todo_item(key, lang)) {
                Ok(r) => Ok(JsonModel::Array(r)),
                Err(e) => Err(e),
            },
            _ => Err(msg1(lang, Key::SettingNeedsArray, key)),
        },
        SkinSettingKind::DateTaskList => match value {
            JsonModel::Array(items) => match each(
                first_items(items, 500),
                datetask_item(key, lang),
            ) {
                Ok(r) => Ok(JsonModel::Array(r)),
                Err(e) => Err(e),
            },
            _ => Err(msg1(lang, Key::SettingNeedsArray, key)),
        },
        SkinSettingKind::TimeRange => match value {
            JsonModel::Object(e) => match obj_lookup(e, start_key()) {
                Some(JsonModel::Str(st)) => match obj_lookup(e, end_key()) {
                    Some(JsonModel::Str(en)) => match (datetime_norm(st), datetime_norm(en)) {
                        (Some(a), Some(b)) => Ok(
                            JsonModel::Object(
                                seq![
                                    (start_key(), JsonModel::Str(a)),
                                    (end_key(), JsonModel::Str(b)),
                                ],
                            ),
                        ),
                        _ => Err(msg1(lang, Key::SettingNeedsDateTime, key)),
                    },
                    _ => Err(msg1(lang, Key::SettingMissingEnd, key)),
                },
                _ => Err(msg1(lang, Key::SettingMissingStart, key)),
            },
            _ => Err(msg1(lang, Key::SettingNeedsTimeRange, key)),
        },
    }
}


/// Cutting to a length twice cuts no more than once.
proof fn lemma_prefix_stable(s: Seq<char>, n: nat)
    ensures
        prefix(prefix(s, n), n) == prefix(s, n),
{
}

/// When `each` succeeds, every item passed and gave the matching result.
proof fn lemma_each_ok<T>(items: Seq<JsonModel>, f: spec_fn(JsonModel) -> Result<T, Seq<char>>, r: Seq<T>)
    requires
        each(items, f) == Ok::<Seq<T>, Seq<char>>(r),
    ensures
        r.len() == items.len(),
        forall|i: int| 0 <= i < items.len() ==> f(#[trigger] items[i]) == Ok::<T, Seq<char>>(r[i]),
    decreases items.len(),
{
    if items.len() > 0 {
        let rest = items.drop_first();
        let x = f(items[0])->Ok_0;
        let r2 = each(rest, f)->Ok_0;
        lemma_each_ok(rest, f, r2);
        assert(r == seq![x] + r2);
        assert forall|i: int| 0 <= i < items.len() implies f(#[trigger] items[i]) == Ok::<T, Seq<char>>(r[i]) by {
            if i > 0 {
                assert(items[i] == rest[i - 1]);
            }
        }
    }
}

/// When every item passes, `each` gives their results in order.
proof fn lemma_each_all<T>(items: Seq<JsonModel>, f: spec_fn(JsonModel) -> Result<T, Seq<char>>, r: Seq<T>)
    requires
        r.len() == items.len(),
        forall|i: int| 0 <= i < items.len() ==> f(#[trigger] items[i]) == Ok::<T, Seq<char>>(r[i]),
    ensures
        each(items, f) == Ok::<Seq<T>, Seq<char>>(r),
    decreases items.len(),
{
    if items.len() > 0 {
        let rest = items.drop_first();
        assert forall|i: int| 0 <= i < rest.len() implies f(#[trigger] rest[i]) == Ok::<T, Seq<char>>(r.drop_first()[i]) by {
            assert(rest[i] == items[i + 1]);
        }
        lemma_each_all(rest, f, r.drop_first());
        assert(f(items[0]) == Ok::<T, Seq<char>>(r[0]));
        assert(seq![r[0]] + r.drop_first() =~= r);
    } else {
        assert(r =~= Seq::<T>::empty());
    }
}

/// `dedup` keeps exactly the strings that occur.
proof fn lemma_dedup_in(s: Seq<Seq<char>>, x: Seq<char>)
    ensures
        dedup(s).contains(x) <==> s.contains(x),
    decreases s.len(),
{
    if s.len() > 0 {
        lemma_dedup_in(s.drop_last(), x);
        let d = dedup(s.drop_last());
        if s.drop_last().contains(x) {
            let k = choose|k: int| 0 <= k < s.drop_last().len() && s.drop_last()[k] == x;
            assert(s[k] == x);
        }
        if s.contains(x) && !s.drop_last().contains(x) {
            let k = choose|k: int| 0 <= k < s.len() && s[k] == x;
            if k < s.len() - 1 {
                assert(s.drop_last()[k] == x);
            }
            assert(s.last() == x);
        }
        if !d.contains(s.last()) {
            assert(d.push(s.last())[d.len() as int] == s.last());
            if d.push(s.last()).contains(x) && x != s.last() {
                let k = choose|k: int| 0 <= k < d.len() + 1 && d.push(s.last())[k] == x;
                assert(d[k] == x);
            }
            if d.contains(x) {
                let k = choose|k: int| 0 <= k < d.len() && d[k] == x;
                assert(d.push(s.last())[k] == x);
            }
        }
        if x == s.last() {
            assert(s[s.len() - 1] == x);
        }
    }
}

/// `dedup` gives each string once.
proof fn lemma_dedup_distinct(s: Seq<Seq<char>>)
    ensures
        dedup(s).no_duplicates(),
    decreases s.len(),
{
    if s.len() > 0 {
        lemma_dedup_distinct(s.drop_last());
        let d = dedup(s.drop_last());
        if !d.contains(s.last()) {
            let e = d.push(s.last());
            assert forall|i: int, j: int| 0 <= i < e.len() && 0 <= j < e.len() && i != j implies e[i] != e[j] by {
                if i == d.len() && j < d.len() {
                    assert(e[j] == d[j]);
                } else if j == d.len() && i < d.len() {
                    assert(e[i] == d[i]);
                }
            }
        }
    }
}

/// A list without repeats is its own `dedup`.
proof fn lemma_dedup_of_distinct(s: Seq<Seq<char>>)
    requires
        s.no_duplicates(),
    ensures
        dedup(s) == s,
    decreases s.len(),
{
    if s.len() > 0 {
        let init = s.drop_last();
        assert(init.no_duplicates()) by {
            assert forall|i: int, j: int| 0 <= i < init.len() && 0 <= j < init.len() && i != j implies init[i] != init[j] by {
                assert(init[i] == s[i] && init[j] == s[j]);
            }
        }
        lemma_dedup_of_distinct(init);
        if init.contains(s.last()) {
            let k = choose|k: int| 0 <= k < init.len() && init[k] == s.last();
            assert(s[k] == s[s.len() - 1]);
        }
        assert(init.push(s.last()) =~= s);
    }
}

/// `days_picked` keeps the days that were picked, and only those.
proof fn lemma_days_picked_in(days: Seq<Seq<char>>, picked: Seq<Seq<char>>, x: Seq<char>)
    ensures
        days_picked(days, picked).contains(x) <==> (days.contains(x) && picked.contains(x)),
    decreases days.len(),
{
    if days.len() > 0 {
        let rest = days.drop_first();
        lemma_days_picked_in(rest, picked, x);
        let head: Seq<Seq<char>> = if picked.contains(days[0]) {
            seq![days[0]]
        } else {
            Seq::empty()
        };
        let tail = days_picked(rest, picked);
        let all = head + tail;
        assert(days_picked(days, picked) == all);
        if all.contains(x) {
            let k = choose|k: int| 0 <= k < all.len() && all[k] == x;
            if k >= head.len() {
                assert(tail[k - head.len()] == x);
                let m = choose|m: int| 0 <= m < rest.len() && rest[m] == x;
                assert(days[m + 1] == x);
            } else {
                assert(days[0] == x);
            }
        }
        if days.contains(x) && picked.contains(x) {
            let k = choose|k: int| 0 <= k < days.len() && days[k] == x;
            if k == 0 {
                assert(all[0] == x);
            } else {
                assert(rest[k - 1] == x);
                let m = choose|m: int| 0 <= m < tail.len() && tail[m] == x;
                assert(all[m + head.len()] == x);
            }
        }
    }
}

/// `days_picked` looks only at which of the days were picked.
proof fn lemma_days_picked_same(days: Seq<Seq<char>>, p: Seq<Seq<char>>, q: Seq<Seq<char>>)
    requires
        forall|x: Seq<char>| #[trigger] days.contains(x) ==> (p.contains(x) <==> q.contains(x)),
    ensures
        days_picked(days, p) == days_picked(days, q),
    decreases days.len(),
{
    if days.len() > 0 {
        let rest = days.drop_first();
        assert forall|x: Seq<char>| #[trigger] rest.contains(x) implies (p.contains(x) <==> q.contains(x)) by {
            let k = choose|k: int| 0 <= k < rest.len() && rest[k] == x;
            assert(days[k + 1] == x);
            assert(days.contains(x));
        }
        lemma_days_picked_same(rest, p, q);
        assert(days.contains(days[0]));
    }
}

/// One stored list item passes its own item check unchanged.
proof fn lemma_list_item_stable(kind: ListItem, key: Seq<char>, lang: Seq<char>, x: JsonModel, y: JsonModel)
    requires
        list_item_spec(kind, key, lang)(x) == Ok::<JsonModel, Seq<char>>(y),
    ensures
        list_item_spec(kind, key, lang)(y) == Ok::<JsonModel, Seq<char>>(y),
{
    assert(text_key()[0] != done_key()[0]);
    assert(time_key()[1] != text_key()[1]);
    match kind {
        ListItem::Task => {
            if let JsonModel::Str(s) = x {
                lemma_prefix_stable(s, 200);
            }
        },
        ListItem::Todo => {
            if let JsonModel::Object(e) = x {
                if let Some(JsonModel::Str(t)) = obj_lookup(e, text_key()) {
                    lemma_prefix_stable(t, 200);
                    let ent = y->Object_0;
                    assert(ent.drop_first()[0].0 == done_key());
                    assert(obj_lookup(ent.drop_first(), done_key()) == Some(ent[1].1));
                }
            }
        },
        ListItem::DateTask => {
            if let JsonModel::Object(e) = x {
                if let Some(JsonModel::Str(tm)) = obj_lookup(e, time_key()) {
                    if let Some(JsonModel::Str(t)) = obj_lookup(e, text_key()) {
                        lemma_prefix_stable(t, 200);
                        if datetime_norm(tm) is Some {
                            lemma_datetime_norm_stable(tm);
                        }
                        let ent = y->Object_0;
                        assert(ent.drop_first()[0].0 == text_key());
                        assert(obj_lookup(ent.drop_first(), text_key()) == Some(ent[1].1));
                    }
                }
            }
        },
    }
}

/// A stored list passes its own check unchanged.
proof fn lemma_list_stable(kind: ListItem, key: Seq<char>, lang: Seq<char>, items: Seq<JsonModel>, r: Seq<JsonModel>)
    requires
        each(first_items(items, 500), list_item_spec(kind, key, lang)) == Ok::<Seq<JsonModel>, Seq<char>>(r),
    ensures
        first_items(r, 500) == r,
        each(r, list_item_spec(kind, key, lang)) == Ok::<Seq<JsonModel>, Seq<char>>(r),
{
    let f = list_item_spec(kind, key, lang);
    let firsts = first_items(items, 500);
    lemma_each_ok(firsts, f, r);
    assert forall|i: int| 0 <= i < r.len() implies f(#[trigger] r[i]) == Ok::<JsonModel, Seq<char>>(r[i]) by {
        assert(f(firsts[i]) == Ok::<JsonModel, Seq<char>>(r[i]));
        lemma_list_item_stable(kind, key, lang, firsts[i], r[i]);
    }
    lemma_each_all(r, f, r);
}

/// A stored string set passes its own check unchanged.
proof fn lemma_names_stable(
    kind: NameItem,
    opts: Seq<Seq<char>>,
    key: Seq<char>,
    lang: Seq<char>,
    d: Seq<Seq<char>>,
)
    requires
        forall|j: int| 0 <= j < d.len() ==> (match kind {
            NameItem::Option => opts,
            NameItem::Weekday => weekday_names(),
        }).contains(#[trigger] d[j]),
    ensures
        each(strs_model(d), name_item_spec(kind, opts, key, lang)) == Ok::<Seq<Seq<char>>, Seq<char>>(d),
{
    let f = name_item_spec(kind, opts, key, lang);
    let m = strs_model(d);
    assert forall|j: int| 0 <= j < m.len() implies f(#[trigger] m[j]) == Ok::<Seq<char>, Seq<char>>(d[j]) by {
        assert(m[j] == JsonModel::Str(d[j]));
    }
    lemma_each_all(m, f, d);
}

/// The strings a name check accepted are all allowed names.
proof fn lemma_names_allowed(
    kind: NameItem,
    opts: Seq<Seq<char>>,
    key: Seq<char>,
    lang: Seq<char>,
    items: Seq<JsonModel>,
    strs: Seq<Seq<char>>,
)
    requires
        each(items, name_item_spec(kind, opts, key, lang)) == Ok::<Seq<Seq<char>>, Seq<char>>(strs),
    ensures
        forall|x: Seq<char>| #[trigger] strs.contains(x) ==> (match kind {
            NameItem::Option => opts,
            NameItem::Weekday => weekday_names(),
        }).contains(x),
{
    let f = name_item_spec(kind, opts, key, lang);
    lemma_each_ok(items, f, strs);
    assert forall|x: Seq<char>| #[trigger] strs.contains(x) implies (match kind {
        NameItem::Option => opts,
        NameItem::Weekday => weekday_names(),
    }).contains(x) by {
        let k = choose|k: int| 0 <= k < strs.len() && strs[k] == x;
        assert(f(items[k]) == Ok::<Seq<char>, Seq<char>>(strs[k]));
    }
}

/// What a custom setting stores passes the same check again, unchanged:
/// validating an accepted value a second time neither changes it nor
/// refuses it.
#[verifier::spinoff_prover]
#[verifier::rlimit(40)]
pub proof fn law_validation_stable(def: &SkinSettingDef, value: JsonModel, lang: Seq<char>, stored: JsonModel)
    requires
        validated(def, value, lang) == Ok::<JsonModel, Seq<char>>(stored),
    ensures
        validated(def, stored, lang) == Ok::<JsonModel, Seq<char>>(stored),
{
    let key = def.key@;
    let opts = def.option_values();
    assert(start_key()[0] != end_key()[0]);
    match def.kind {
        SkinSettingKind::Text | SkinSettingKind::Password => {
            lemma_prefix_stable(value->Str_0, 256);
        },
        SkinSettingKind::LongText => {
            lemma_prefix_stable(value->Str_0, 4000);
        },
        SkinSettingKind::Font => {
            lemma_prefix_stable(value->Str_0, 128);
        },
        SkinSettingKind::DateTime => {
            lemma_datetime_norm_stable(value->Str_0);
        },
        SkinSettingKind::MultiSelect => {
            let items = value->Array_0;
            let strs = each(items, multi_item(opts, key, lang))->Ok_0;
            assert(name_item_spec(NameItem::Option, opts, key, lang) == multi_item(opts, key, lang));
            lemma_names_allowed(NameItem::Option, opts, key, lang, items, strs);
            let d = dedup(strs);
            assert forall|j: int| 0 <= j < d.len() implies opts.contains(#[trigger] d[j]) by {
                lemma_dedup_in(strs, d[j]);
            }
            lemma_names_stable(NameItem::Option, opts, key, lang, d);
            lemma_dedup_distinct(strs);
            lemma_dedup_of_distinct(d);
        },
        SkinSettingKind::Weekdays => {
            let items = value->Array_0;
            let names = weekday_names();
            let strs = each(items, weekday_item(key, lang))->Ok_0;
            assert(name_item_spec(NameItem::Weekday, opts, key, lang) == weekday_item(key, lang));
            lemma_names_allowed(NameItem::Weekday, opts, key, lang, items, strs);
            let d = days_picked(names, strs);
            assert forall|j: int| 0 <= j < d.len() implies names.contains(#[trigger] d[j]) by {
                lemma_days_picked_in(names, strs, d[j]);
            }
            lemma_names_stable(NameItem::Weekday, opts, key, lang, d);
            assert forall|x: Seq<char>| #[trigger] names.contains(x) implies (d.contains(x) <==> strs.contains(x)) by {
                lemma_days_picked_in(names, strs, x);
            }
            lemma_days_picked_same(names, d, strs);
        },
        SkinSettingKind::TaskList => {
            let items = value->Array_0;
            assert(list_item_spec(ListItem::Task, key, lang) == task_item(key, lang));
            lemma_list_stable(ListItem::Task, key, lang, items, stored->Array_0);
        },
        SkinSettingKind::TodoList => {
            let items = value->Array_0;
            assert(list_item_spec(ListItem::Todo, key, lang) == todo_item(key, lang));
            lemma_list_stable(ListItem::Todo, key, lang, items, stored->Array_0);
        },
        SkinSettingKind::DateTaskList => {
            let items = value->Array_0;
            assert(list_item_spec(ListItem::DateTask, key, lang) == datetask_item(key, lang));
            lemma_list_stable(ListItem::DateTask, key, lang, items, stored->Array_0);
        },
        SkinSettingKind::TimeRange => {
            let e = value->Object_0;
            let st = obj_lookup(e, start_key())->Some_0->Str_0;
            let en = obj_lookup(e, end_key())->Some_0->Str_0;
            lemma_datetime_norm_stable(st);
            lemma_datetime_norm_stable(en);
            let ent = stored->Object_0;
            assert(ent.drop_first()[0].0 == end_key());
            assert(obj_lookup(ent.drop_first(), end_key()) == Some(ent[1].1));
        },
        _ => {},
    }
}


/// The stored date-time form: empty (unset) or "YYYY-MM-DD HH:MM:SS".
pub open spec fn canonical_datetime(s: Seq<char>) -> bool {
    s.len() == 0 || (s.len() == 19 && valid_ymd(s.take(10)) && s[10] == ' ' && valid_time(s.skip(11))
        && split_on(s.skip(11), ':').len() == 3)
}

/// What `datetime_norm` gives back is in the stored date-time form.
proof fn lemma_datetime_norm_shape(s: Seq<char>)
    requires
        datetime_norm(s) is Some,
    ensures
        canonical_datetime(datetime_norm(s)->0),
{
    if s.len() > 0 {
        let n = datetime_norm(s)->0;
        let sp = find(s, seq![' ']);
        let date = s.take(sp);
        let time = s.skip(sp + 1);
        let p = split_on(time, ':');
        let secs = if p.len() == 3 {
            p[2]
        } else {
            seq!['0', '0']
        };
        lemma_zero_seconds();
        let (h, m) = (p[0], p[1]);
        let rest = h + seq![':'] + m + seq![':'] + secs;
        lemma_ymd_fields(date);
        assert(n =~= date + seq![' '] + rest);
        assert(n.take(10) =~= date);
        assert(n.skip(11) =~= rest);
        lemma_time_fields(h, m, secs);
    }
}

/// Strings from `allowed`, each at most once.
pub open spec fn distinct_names_within(a: Seq<JsonModel>, allowed: Seq<Seq<char>>) -> bool {
    &&& forall|i: int|
        0 <= i < a.len() ==> (#[trigger] a[i] matches JsonModel::Str(s) && allowed.contains(s))
    &&& forall|i: int, j: int| 0 <= i < j < a.len() ==> #[trigger] a[i] != #[trigger] a[j]
}

/// The stored form of one list item.
pub open spec fn list_item_shape(kind: ListItem, y: JsonModel) -> bool {
    match kind {
        ListItem::Task => y matches JsonModel::Str(s) && s.len() <= 200,
        ListItem::Todo => y matches JsonModel::Object(e) && e.len() == 2 && e[0].0 == text_key() && (
        e[0].1 matches JsonModel::Str(t) && t.len() <= 200) && e[1].0 == done_key() && e[1].1 is Bool,
        ListItem::DateTask => y matches JsonModel::Object(e) && e.len() == 2 && e[0].0 == time_key()
            && (e[0].1 matches JsonModel::Str(tm) && canonical_datetime(tm)) && e[1].0 == text_key() && (
        e[1].1 matches JsonModel::Str(t) && t.len() <= 200),
    }
}

/// The stored form of a list: at most 500 items, each in its item form.
pub open spec fn list_shape(kind: ListItem, w: JsonModel) -> bool {
    w matches JsonModel::Array(a) && a.len() <= 500 && forall|i: int|
        0 <= i < a.len() ==> list_item_shape(kind, #[trigger] a[i])
}

/// The stored form of each kind of custom setting, as the settings table
/// documents it: the length limits of text values, the time and date
/// formats, option membership, and the shape of lists and ranges.
pub open spec fn stored_shape(def: &SkinSettingDef, w: JsonModel) -> bool {
    match def.kind {
        SkinSettingKind::Boolean => w is Bool,
        SkinSettingKind::Number | SkinSettingKind::Slider | SkinSettingKind::Stepper => w is Number,
        SkinSettingKind::Text | SkinSettingKind::Password => w matches JsonModel::Str(s) && s.len() <= 256,
        SkinSettingKind::LongText => w matches JsonModel::Str(s) && s.len() <= 4000,
        SkinSettingKind::Font => w matches JsonModel::Str(s) && s.len() <= 128,
        SkinSettingKind::File | SkinSettingKind::Directory | SkinSettingKind::GpuAdapter => w is Str,
        SkinSettingKind::Time => w matches JsonModel::Str(s) && valid_time(s),
        SkinSettingKind::Date => w matches JsonModel::Str(s) && valid_ymd(s),
        SkinSettingKind::DateTime => w matches JsonModel::Str(s) && canonical_datetime(s),
        SkinSettingKind::Palette => w matches JsonModel::Str(s) && valid_color(s),
        SkinSettingKind::Select | SkinSettingKind::Radio => w matches JsonModel::Str(s)
            && def.option_values().contains(s),
        SkinSettingKind::MultiSelect => w matches JsonModel::Array(a) && distinct_names_within(
            a,
            def.option_values(),
        ),
        SkinSettingKind::Weekdays => w matches JsonModel::Array(a) && distinct_names_within(
            a,
            weekday_names(),
        ),
        SkinSettingKind::TaskList => list_shape(ListItem::Task, w),
        SkinSettingKind::TodoList => list_shape(ListItem::Todo, w),
        SkinSettingKind::DateTaskList => list_shape(ListItem::DateTask, w),
        SkinSettingKind::TimeRange => w matches JsonModel::Object(e) && e.len() == 2 && e[0].0
            == start_key() && (e[0].1 matches JsonModel::Str(a) && canonical_datetime(a)) && e[1].0
            == end_key() && (e[1].1 matches JsonModel::Str(b) && canonical_datetime(b)),
    }
}

/// One list item that passed its check is in its stored form.
proof fn lemma_list_item_shape(kind: ListItem, key: Seq<char>, lang: Seq<char>, x: JsonModel, y: JsonModel)
    requires
        list_item_spec(kind, key, lang)(x) == Ok::<JsonModel, Seq<char>>(y),
    ensures
        list_item_shape(kind, y),
{
    if let ListItem::DateTask = kind {
        if let JsonModel::Object(e) = x {
            if let Some(JsonModel::Str(tm)) = obj_lookup(e, time_key()) {
                if datetime_norm(tm) is Some {
                    lemma_datetime_norm_shape(tm);
                }
            }
        }
    }
}

/// A list that passed its check is in its stored form.
proof fn lemma_list_shape(kind: ListItem, key: Seq<char>, lang: Seq<char>, items: Seq<JsonModel>, r: Seq<JsonModel>)
    requires
        each(first_items(items, 500), list_item_spec(kind, key, lang)) == Ok::<Seq<JsonModel>, Seq<char>>(r),
    ensures
        list_shape(kind, JsonModel::Array(r)),
{
    let f = list_item_spec(kind, key, lang);
    let firsts = first_items(items, 500);
    lemma_each_ok(firsts, f, r);
    assert forall|i: int| 0 <= i < r.len() implies list_item_shape(kind, #[trigger] r[i]) by {
        assert(f(firsts[i]) == Ok::<JsonModel, Seq<char>>(r[i]));
        lemma_list_item_shape(kind, key, lang, firsts[i], r[i]);
    }
}

/// Distinct allowed names, stored as strings.
proof fn lemma_names_shape(d: Seq<Seq<char>>, allowed: Seq<Seq<char>>)
    requires
        d.no_duplicates(),
        forall|j: int| 0 <= j < d.len() ==> allowed.contains(#[trigger] d[j]),
    ensures
        distinct_names_within(strs_model(d), allowed),
{
    let a = strs_model(d);
    assert forall|i: int, j: int| 0 <= i < j < a.len() implies #[trigger] a[i] != #[trigger] a[j] by {
        assert(d[i] != d[j]);
    }
}

/// `days_picked` over distinct days gives each day at most once.
proof fn lemma_days_picked_distinct(days: Seq<Seq<char>>, picked: Seq<Seq<char>>)
    requires
        days.no_duplicates(),
    ensures
        days_picked(days, picked).no_duplicates(),
    decreases days.len(),
{
    if days.len() > 0 {
        let rest = days.drop_first();
        assert(rest.no_duplicates()) by {
            assert forall|i: int, j: int| 0 <= i < rest.len() && 0 <= j < rest.len() && i != j implies rest[i] != rest[j] by {
                assert(rest[i] == days[i + 1] && rest[j] == days[j + 1]);
            }
        }
        lemma_days_picked_distinct(rest, picked);
        let tail = days_picked(rest, picked);
        if picked.contains(days[0]) {
            let all = seq![days[0]] + tail;
            lemma_days_picked_in(rest, picked, days[0]);
            assert(!rest.contains(days[0])) by {
                if rest.contains(days[0]) {
                    let k = choose|k: int| 0 <= k < rest.len() && rest[k] == days[0];
                    assert(days[k + 1] == days[0]);
                }
            }
            assert forall|i: int, j: int| 0 <= i < all.len() && 0 <= j < all.len() && i != j implies all[i] != all[j] by {
                if i == 0 {
                    assert(all[j] == tail[j - 1]);
                    assert(tail.contains(tail[j - 1]));
                } else if j == 0 {
                    assert(all[i] == tail[i - 1]);
                    assert(tail.contains(tail[i - 1]));
                } else {
                    assert(all[i] == tail[i - 1] && all[j] == tail[j - 1]);
                }
            }
        } else {
            assert(days_picked(days, picked) =~= tail);
        }
    }
}

/// The weekday names are distinct.
proof fn lemma_weekday_names_distinct()
    ensures
        weekday_names().no_duplicates(),
{
    let n = weekday_names();
    assert forall|i: int, j: int| 0 <= i < n.len() && 0 <= j < n.len() && i != j implies n[i] != n[j] by {
        if n[i] == n[j] {
            assert(n[i][0] == n[j][0] && n[i][1] == n[j][1]);
        }
    }
}

/// Whatever a custom setting accepts is stored in the form the settings
/// table documents for its kind.
#[verifier::spinoff_prover]
#[verifier::rlimit(40)]
pub proof fn law_stored_value_shape(def: &SkinSettingDef, value: JsonModel, lang: Seq<char>, stored: JsonModel)
    requires
        validated(def, value, lang) == Ok::<JsonModel, Seq<char>>(stored),
    ensures
        stored_shape(def, stored),
{
    let key = def.key@;
    let opts = def.option_values();
    match def.kind {
        SkinSettingKind::DateTime => {
            lemma_datetime_norm_shape(value->Str_0);
        },
        SkinSettingKind::MultiSelect => {
            let items = value->Array_0;
            let strs = each(items, multi_item(opts, key, lang))->Ok_0;
            assert(name_item_spec(NameItem::Option, opts, key, lang) == multi_item(opts, key, lang));
            lemma_names_allowed(NameItem::Option, opts, key, lang, items, strs);
            let d = dedup(strs);
            assert forall|j: int| 0 <= j < d.len() implies opts.contains(#[trigger] d[j]) by {
                lemma_dedup_in(strs, d[j]);
            }
            lemma_dedup_distinct(strs);
            lemma_names_shape(d, opts);
        },
        SkinSettingKind::Weekdays => {
            let items = value->Array_0;
            let names = weekday_names();
            let strs = each(items, weekday_item(key, lang))->Ok_0;
            let d = days_picked(names, strs);
            assert forall|j: int| 0 <= j < d.len() implies names.contains(#[trigger] d[j]) by {
                lemma_days_picked_in(names, strs, d[j]);
            }
            lemma_weekday_names_distinct();
            lemma_days_picked_distinct(names, strs);
            lemma_names_shape(d, names);
        },
        SkinSettingKind::TaskList => {
            assert(list_item_spec(ListItem::Task, key, lang) == task_item(key, lang));
            lemma_list_shape(ListItem::Task, key, lang, value->Array_0, stored->Array_0);
        },
        SkinSettingKind::TodoList => {
            assert(list_item_spec(ListItem::Todo, key, lang) == todo_item(key, lang));
            lemma_list_shape(ListItem::Todo, key, lang, value->Array_0, stored->Array_0);
        },
        SkinSettingKind::DateTaskList => {
            assert(list_item_spec(ListItem::DateTask, key, lang) == datetask_item(key, lang));
            lemma_list_shape(ListItem::DateTask, key, lang, value->Array_0, stored->Array_0);
        },
        SkinSettingKind::TimeRange => {
            let e = value->Object_0;
            lemma_datetime_norm_shape(obj_lookup(e, start_key())->Some_0->Str_0);
            lemma_datetime_norm_shape(obj_lookup(e, end_key())->Some_0->Str_0);
        },
        _ => {},
    }
}

pub open spec fn res_model(r: Result<JsonValue, String>) -> Result<JsonModel, Seq<char>> {
    match r {
        Ok(v) => Ok(v.model()),
        Err(e) => Err(e@),
    }
}


/// Which per-item check a list setting uses.
pub enum ListItem {
    Task,
    Todo,
    DateTask,
}

pub open spec fn list_item_spec(kind: ListItem, key: Seq<char>, lang: Seq<char>) -> spec_fn(
    JsonModel,
) -> Result<JsonModel, Seq<char>> {
    match kind {
        ListItem::Task => task_item(key, lang),
        ListItem::Todo => todo_item(key, lang),
        ListItem::DateTask => datetask_item(key, lang),
    }
}

/// Which per-item check a string-set setting uses.
pub enum NameItem {
    Option,
    Weekday,
}

pub open spec fn name_item_spec(
    kind: NameItem,
    opts: Seq<Seq<char>>,
    key: Seq<char>,
    lang: Seq<char>,
) -> spec_fn(JsonModel) -> Result<Seq<char>, Seq<char>> {
    match kind {
        NameItem::Option => multi_item(opts, key, lang),
        NameItem::Weekday => weekday_item(key, lang),
    }
}

fn str_value(v: &Vec<char>) -> (r: JsonValue)
    ensures
        r.model() == JsonModel::Str(v@),
{
    JsonValue::Str(string_of(v))
}

pub(crate) fn err1(lang: &str, k: Key, a: &str) -> (r: String)
    ensures
        r@ == msg1(lang@, k, a@),
{
    let args = [a];
    let r = trf(lang, k, &args);
    assert(crate::i18n::arg_views(args@) =~= seq![a@]);
    r
}

fn err2(lang: &str, k: Key, a: &str, b: &str) -> (r: String)
    ensures
        r@ == msg2(lang@, k, a@, b@),
{
    let args = [a, b];
    let r = trf(lang, k, &args);
    assert(crate::i18n::arg_views(args@) =~= seq![a@, b@]);
    r
}

/// The string content of `value`, or the "requires <what>" error.
fn require_str<'a>(def: &SkinSettingDef, value: &'a JsonValue, what: Key, lang: &str) -> (r:
    Result<&'a String, String>)
    ensures
        match r {
            Ok(s) => str_or(value.model(), lang@, def.key@, what) == Ok::<Seq<char>, Seq<char>>(s@),
            Err(e) => str_or(value.model(), lang@, def.key@, what) == Err::<Seq<char>, Seq<char>>(
                e@,
            ),
        },
{
    match value {
        JsonValue::Str(s) => Ok(s),
        _ => Err(err2(lang, Key::SettingNeedsWhat, def.key.as_str(), tr(lang, what))),
    }
}

/// Whether `s` is one of the declared option values of `def`.
fn option_contains(def: &SkinSettingDef, s: &Vec<char>) -> (b: bool)
    ensures
        b == def.option_values().contains(s@),
{
    let mut i: usize = 0;
    while i < def.options.len()
        invariant
            i <= def.options.len(),
            forall|j: int| 0 <= j < i ==> def.option_values()[j] != s@,
        decreases def.options.len() - i,
    {
        let o = chars_of(def.options[i].value.as_str());
        if crate::text::chars_eq(&o, s) {
            assert(def.option_values()[i as int] == s@);
            return true;
        }
        i = i + 1;
    }
    false
}

fn weekday_names_exec() -> (r: Vec<Vec<char>>)
    ensures
        crate::text::views(r@) == weekday_names(),
{
    let mut r: Vec<Vec<char>> = Vec::new();
    r.push(vec!['m', 'o', 'n']);
    r.push(vec!['t', 'u', 'e']);
    r.push(vec!['w', 'e', 'd']);
    r.push(vec!['t', 'h', 'u']);
    r.push(vec!['f', 'r', 'i']);
    r.push(vec!['s', 'a', 't']);
    r.push(vec!['s', 'u', 'n']);
    assert(crate::text::views(r@) =~= weekday_names());
    r
}

/// Whether `s` occurs among `names`.
fn names_contain(names: &Vec<Vec<char>>, s: &Vec<char>) -> (b: bool)
    ensures
        b == crate::text::views(names@).contains(s@),
{
    let mut i: usize = 0;
    while i < names.len()
        invariant
            i <= names.len(),
            forall|j: int| 0 <= j < i ==> crate::text::views(names@)[j] != s@,
        decreases names.len() - i,
    {
        if crate::text::chars_eq(&names[i], s) {
            assert(crate::text::views(names@)[i as int] == s@);
            return true;
        }
        i = i + 1;
    }
    false
}

fn name_item_exec(kind: &NameItem, def: &SkinSettingDef, item: &JsonValue, lang: &str) -> (r: Result<
    Vec<char>,
    String,
>)
    ensures
        match r {
            Ok(x) => (name_item_spec(*kind, def.option_values(), def.key@, lang@))(item.model())
                == Ok::<Seq<char>, Seq<char>>(x@),
            Err(e) => (name_item_spec(*kind, def.option_values(), def.key@, lang@))(item.model())
                == Err::<Seq<char>, Seq<char>>(e@),
        },
{
    match item {
        JsonValue::Str(s) => {
            let v = chars_of(s.as_str());
            match kind {
                NameItem::Option => {
                    if option_contains(def, &v) {
                        Ok(v)
                    } else {
                        Err(err2(lang, Key::SettingValueNotAllowed, def.key.as_str(), s.as_str()))
                    }
                },
                NameItem::Weekday => {
                    let days = weekday_names_exec();
                    if names_contain(&days, &v) {
                        Ok(v)
                    } else {
                        Err(err2(lang, Key::InvalidWeekday, def.key.as_str(), s.as_str()))
                    }
                },
            }
        },
        _ => Err(err1(lang, Key::SettingNeedsStringArray, def.key.as_str())),
    }
}

fn literal_key(which: u8) -> (r: String)
    requires
        which < 5,
    ensures
        which == 0 ==> r@ == text_key(),
        which == 1 ==> r@ == done_key(),
        which == 2 ==> r@ == time_key(),
        which == 3 ==> r@ == start_key(),
        which == 4 ==> r@ == end_key(),
{
    let v = if which == 0 {
        vec!['t', 'e', 'x', 't']
    } else if which == 1 {
        vec!['d', 'o', 'n', 'e']
    } else if which == 2 {
        vec!['t', 'i', 'm', 'e']
    } else if which == 3 {
        vec!['s', 't', 'a', 'r', 't']
    } else {
        vec!['e', 'n', 'd']
    };
    let r = string_of(&v);
    assert(which == 0 ==> r@ =~= text_key());
    assert(which == 1 ==> r@ =~= done_key());
    assert(which == 2 ==> r@ =~= time_key());
    assert(which == 3 ==> r@ =~= start_key());
    assert(which == 4 ==> r@ =~= end_key());
    r
}

fn key_chars(which: u8) -> (r: Vec<char>)
    requires
        which < 5,
    ensures
        which == 0 ==> r@ == text_key(),
        which == 1 ==> r@ == done_key(),
        which == 2 ==> r@ == time_key(),
        which == 3 ==> r@ == start_key(),
        which == 4 ==> r@ == end_key(),
{
    let s = literal_key(which);
    chars_of(s.as_str())
}

/// A two-entry object with string/value pairs.
fn object2(k1: String, v1: JsonValue, k2: String, v2: JsonValue) -> (r: JsonValue)
    ensures
        r.model() == JsonModel::Object(seq![(k1@, v1.model()), (k2@, v2.model())]),
{
    let mut e: Vec<(String, JsonValue)> = Vec::new();
    e.push((k1, v1));
    e.push((k2, v2));
    let r = JsonValue::Object(e);
    proof {
        lemma_object_model(&e);
        assert(entries_model(e@) =~= seq![(k1@, v1.model()), (k2@, v2.model())]);
    }
    r
}

fn list_item_exec(kind: &ListItem, key: &String, item: &JsonValue, lang: &str) -> (r: Result<
    JsonValue,
    String,
>)
    ensures
        res_model(r) == (list_item_spec(*kind, key@, lang@))(item.model()),
{
    match kind {
        ListItem::Task => match item {
            JsonValue::Str(s) => Ok(JsonValue::Str(crate::text::take_chars(s.as_str(), 200))),
            _ => Err(err1(lang, Key::SettingNeedsStringArray, key.as_str())),
        },
        ListItem::Todo => match item {
            JsonValue::Object(e) => {
                proof {
                    lemma_object_model(e);
                }
                let tk = key_chars(0);
                match object_get(e, &tk) {
                    Some(JsonValue::Str(t)) => {
                        let dk = key_chars(1);
                        let done = match object_get(e, &dk) {
                            Some(JsonValue::Bool(b)) => *b,
                            _ => false,
                        };
                        let text = JsonValue::Str(crate::text::take_chars(t.as_str(), 200));
                        Ok(object2(literal_key(0), text, literal_key(1), JsonValue::Bool(done)))
                    },
                    _ => Err(err1(lang, Key::EntryMissingText, key.as_str())),
                }
            },
            _ => Err(err1(lang, Key::EntryNeedsObject, key.as_str())),
        },
        ListItem::DateTask => match item {
            JsonValue::Object(e) => {
                proof {
                    lemma_object_model(e);
                }
                let tmk = key_chars(2);
                match object_get(e, &tmk) {
                    Some(JsonValue::Str(tm)) => {
                        let tk = key_chars(0);
                        match object_get(e, &tk) {
                            Some(JsonValue::Str(t)) => match normalize_datetime(tm.as_str()) {
                                Some(n) => {
                                    let text = JsonValue::Str(
                                        crate::text::take_chars(t.as_str(), 200),
                                    );
                                    Ok(
                                        object2(
                                            literal_key(2),
                                            JsonValue::Str(n),
                                            literal_key(0),
                                            text,
                                        ),
                                    )
                                },
                                None => Err(err1(lang, Key::EntryTimeFormat, key.as_str())),
                            },
                            _ => Err(err1(lang, Key::EntryMissingText, key.as_str())),
                        }
                    },
                    _ => Err(err1(lang, Key::EntryMissingTime, key.as_str())),
                }
            },
            _ => Err(err1(lang, Key::EntryNeedsObject, key.as_str())),
        },
    }
}

/// Checks the first `limit` items of a list setting.
fn check_list(kind: &ListItem, key: &String, items: &Vec<JsonValue>, limit: usize, lang: &str) -> (r:
    Result<Vec<JsonValue>, String>)
    ensures
        match r {
            Ok(v) => each(
                first_items(elems_model(items@), limit as nat),
                list_item_spec(*kind, key@, lang@),
            ) == Ok::<Seq<JsonModel>, Seq<char>>(elems_model(v@)),
            Err(e) => each(
                first_items(elems_model(items@), limit as nat),
                list_item_spec(*kind, key@, lang@),
            ) == Err::<Seq<JsonModel>, Seq<char>>(e@),
        },
{
    let ghost f = list_item_spec(*kind, key@, lang@);
    let ghost all = first_items(elems_model(items@), limit as nat);
    let n = if items.len() < limit {
        items.len()
    } else {
        limit
    };
    assert(all.len() == n);
    let mut out: Vec<JsonValue> = Vec::new();
    let mut i: usize = 0;
    assert(all.skip(0) =~= all);
    assert(prepend(elems_model(out@), each(all, f)) =~~= each(all, f));
    while i < n
        invariant
            n == all.len(),
            n <= items.len(),
            i <= n,
            all == first_items(elems_model(items@), limit as nat),
            f == list_item_spec(*kind, key@, lang@),
            each(all, f) == prepend(elems_model(out@), each(all.skip(i as int), f)),
        decreases n - i,
    {
        let ghost rest = all.skip(i as int);
        assert(rest[0] == items@[i as int].model());
        assert(rest.drop_first() =~= all.skip(i + 1));
        match list_item_exec(kind, key, &items[i], lang) {
            Ok(x) => {
                let ghost before = elems_model(out@);
                out.push(x);
                assert(elems_model(out@) =~= before.push(x.model()));
                i = i + 1;
                proof {
                    match each(all.skip(i as int), f) {
                        Ok(t) => {
                            assert(before + (seq![x.model()] + t) =~= elems_model(out@) + t);
                        },
                        Err(_) => {},
                    }
                }
            },
            Err(e) => {
                return Err(e);
            },
        }
    }
    assert(all.skip(n as int).len() == 0);
    assert(elems_model(out@) + Seq::<JsonModel>::empty() =~= elems_model(out@));
    Ok(out)
}

/// Checks every item of a string-set setting.
fn check_names(kind: &NameItem, def: &SkinSettingDef, items: &Vec<JsonValue>, lang: &str) -> (r: Result<
    Vec<Vec<char>>,
    String,
>)
    ensures
        match r {
            Ok(v) => each(
                elems_model(items@),
                name_item_spec(*kind, def.option_values(), def.key@, lang@),
            ) == Ok::<Seq<Seq<char>>, Seq<char>>(crate::text::views(v@)),
            Err(e) => each(
                elems_model(items@),
                name_item_spec(*kind, def.option_values(), def.key@, lang@),
            ) == Err::<Seq<Seq<char>>, Seq<char>>(e@),
        },
{
    let ghost f = name_item_spec(*kind, def.option_values(), def.key@, lang@);
    let ghost all = elems_model(items@);
    let mut out: Vec<Vec<char>> = Vec::new();
    let mut i: usize = 0;
    assert(all.skip(0) =~= all);
    assert(prepend(crate::text::views(out@), each(all, f)) =~~= each(all, f));
    while i < items.len()
        invariant
            i <= items.len(),
            all == elems_model(items@),
            f == name_item_spec(*kind, def.option_values(), def.key@, lang@),
            each(all, f) == prepend(crate::text::views(out@), each(all.skip(i as int), f)),
        decreases items.len() - i,
    {
        let ghost rest = all.skip(i as int);
        assert(rest[0] == items@[i as int].model());
        assert(rest.drop_first() =~= all.skip(i + 1));
        match name_item_exec(kind, def, &items[i], lang) {
            Ok(x) => {
                let ghost before = crate::text::views(out@);
                out.push(x);
                assert(crate::text::views(out@) =~= before.push(x@));
                i = i + 1;
                proof {
                    match each(all.skip(i as int), f) {
                        Ok(t) => {
                            assert(before + (seq![x@] + t) =~= crate::text::views(out@) + t);
                        },
                        Err(_) => {},
                    }
                }
            },
            Err(e) => {
                return Err(e);
            },
        }
    }
    assert(all.skip(items.len() as int).len() == 0);
    assert(crate::text::views(out@) + Seq::<Seq<char>>::empty() =~= crate::text::views(out@));
    Ok(out)
}

fn strs_value(v: &Vec<Vec<char>>) -> (r: JsonValue)
    ensures
        r.model() == JsonModel::Array(strs_model(crate::text::views(v@))),
{
    let mut out: Vec<JsonValue> = Vec::new();
    let mut i: usize = 0;
    while i < v.len()
        invariant
            i <= v.len(),
            elems_model(out@) == strs_model(crate::text::views(v@)).take(i as int),
        decreases v.len() - i,
    {
        let ghost before = elems_model(out@);
        let x = str_value(&v[i]);
        out.push(x);
        assert(elems_model(out@) =~= before.push(x.model()));
        i = i + 1;
        assert(elems_model(out@) =~= strs_model(crate::text::views(v@)).take(i as int));
    }
    assert(strs_model(crate::text::views(v@)).take(v.len() as int) =~= strs_model(
        crate::text::views(v@),
    ));
    let r = JsonValue::Array(out);
    proof {
        lemma_array_model(&out);
    }
    r
}


fn dedup_exec(strs: &Vec<Vec<char>>) -> (r: Vec<Vec<char>>)
    ensures
        crate::text::views(r@) == dedup(crate::text::views(strs@)),
{
    let ghost all = crate::text::views(strs@);
    let mut out: Vec<Vec<char>> = Vec::new();
    let mut i: usize = 0;
    assert(all.take(0) =~= Seq::<Seq<char>>::empty());
    while i < strs.len()
        invariant
            i <= strs.len(),
            all == crate::text::views(strs@),
            crate::text::views(out@) == dedup(all.take(i as int)),
        decreases strs.len() - i,
    {
        assert(all.take(i + 1).drop_last() =~= all.take(i as int));
        assert(all.take(i + 1).last() == strs@[i as int]@);
        if !names_contain(&out, &strs[i]) {
            let ghost before = crate::text::views(out@);
            let x = strs[i].clone();
            out.push(x);
            assert(crate::text::views(out@) =~= before.push(strs@[i as int]@));
        }
        i = i + 1;
    }
    assert(all.take(strs.len() as int) =~= all);
    out
}

fn days_picked_exec(days: &Vec<Vec<char>>, picked: &Vec<Vec<char>>) -> (r: Vec<Vec<char>>)
    ensures
        crate::text::views(r@) == days_picked(crate::text::views(days@), crate::text::views(picked@)),
{
    let ghost d = crate::text::views(days@);
    let ghost p = crate::text::views(picked@);
    let mut out: Vec<Vec<char>> = Vec::new();
    let mut i: usize = 0;
    assert(d.skip(0) =~= d);
    assert(crate::text::views(out@) + days_picked(d, p) =~= days_picked(d, p));
    while i < days.len()
        invariant
            i <= days.len(),
            d == crate::text::views(days@),
            p == crate::text::views(picked@),
            days_picked(d, p) == crate::text::views(out@) + days_picked(d.skip(i as int), p),
        decreases days.len() - i,
    {
        let ghost rest = d.skip(i as int);
        assert(rest[0] == days@[i as int]@);
        assert(rest.drop_first() =~= d.skip(i + 1));
        let ghost before = crate::text::views(out@);
        if names_contain(picked, &days[i]) {
            let x = days[i].clone();
            out.push(x);
            assert(crate::text::views(out@) =~= before.push(days@[i as int]@));
            assert(before + (seq![days@[i as int]@] + days_picked(d.skip(i + 1), p)) =~= crate::text::views(
                out@,
            ) + days_picked(d.skip(i + 1), p));
        } else {
            assert(before + (Seq::<Seq<char>>::empty() + days_picked(d.skip(i + 1), p)) =~= before
                + days_picked(d.skip(i + 1), p));
        }
        i = i + 1;
    }
    assert(d.skip(days.len() as int).len() == 0);
    assert(crate::text::views(out@) + Seq::<Seq<char>>::empty() =~= crate::text::views(out@));
    out
}

fn valid_color_chars(v: &Vec<char>) -> (b: bool)
    ensures
        b == valid_color(v@),
{
    if v.len() != 7 && v.len() != 9 {
        return false;
    }
    if v[0] != '#' {
        return false;
    }
    let mut i: usize = 1;
    while i < v.len()
        invariant
            1 <= i <= v.len(),
            forall|j: int| 1 <= j < i ==> is_hex_digit(#[trigger] v@[j]),
        decreases v.len() - i,
    {
        let c = v[i];
        if !(('0' <= c && c <= '9') || ('a' <= c && c <= 'f') || ('A' <= c && c <= 'F')) {
            assert(!is_hex_digit(v@[i as int]));
            return false;
        }
        i = i + 1;
    }
    true
}

/// Validate / coerce a custom setting value against its declared kind.
/// Shared by the manager command and the skin-facing command.  Number-like
/// kinds return the number unchanged: clamping it to the declared
/// floating-point bounds is left to the caller.
pub fn validate_custom_setting(def: &SkinSettingDef, value: &JsonValue, lang: &str) -> (r: Result<
    JsonValue,
    String,
>)
    ensures
        res_model(r) == validated(def, value.model(), lang@),
{
    match def.kind {
        SkinSettingKind::Boolean => match value {
            JsonValue::Bool(b) => Ok(JsonValue::Bool(*b)),
            _ => Err(err1(lang, Key::SettingNeedsBool, def.key.as_str())),
        },
        SkinSettingKind::Number | SkinSettingKind::Slider | SkinSettingKind::Stepper => match value {
            JsonValue::Number(n) => Ok(JsonValue::Number(n.copy())),
            _ => Err(err1(lang, Key::SettingNeedsNumber, def.key.as_str())),
        },
        SkinSettingKind::Text | SkinSettingKind::Password => {
            let s = require_str(def, value, Key::WhatText, lang)?;
            Ok(JsonValue::Str(crate::text::take_chars(s.as_str(), 256)))
        },
        SkinSettingKind::LongText => {
            let s = require_str(def, value, Key::WhatText, lang)?;
            Ok(JsonValue::Str(crate::text::take_chars(s.as_str(), 4000)))
        },
        SkinSettingKind::Font => {
            let s = require_str(def, value, Key::WhatFont, lang)?;
            Ok(JsonValue::Str(crate::text::take_chars(s.as_str(), 128)))
        },
        SkinSettingKind::File | SkinSettingKind::Directory | SkinSettingKind::GpuAdapter => {
            let s = require_str(def, value, Key::WhatText, lang)?;
            Ok(JsonValue::Str(s.clone()))
        },
        SkinSettingKind::Time => {
            let s = require_str(def, value, Key::WhatTime, lang)?;
            if is_valid_time(s.as_str()) {
                Ok(JsonValue::Str(s.clone()))
            } else {
                Err(err1(lang, Key::SettingNeedsTime, def.key.as_str()))
            }
        },
        SkinSettingKind::Date => {
            let s = require_str(def, value, Key::WhatDate, lang)?;
            if is_valid_ymd(s.as_str()) {
                Ok(JsonValue::Str(s.clone()))
            } else {
                Err(err1(lang, Key::SettingNeedsDate, def.key.as_str()))
            }
        },
        SkinSettingKind::DateTime => {
            let s = require_str(def, value, Key::WhatTime, lang)?;
            match normalize_datetime(s.as_str()) {
                Some(n) => Ok(JsonValue::Str(n)),
                None => Err(err1(lang, Key::SettingNeedsDateTime, def.key.as_str())),
            }
        },
        SkinSettingKind::Palette => {
            let s = require_str(def, value, Key::WhatColor, lang)?;
            let v = chars_of(s.as_str());
            if valid_color_chars(&v) {
                Ok(JsonValue::Str(s.clone()))
            } else {
                Err(err1(lang, Key::SettingNeedsColor, def.key.as_str()))
            }
        },
        SkinSettingKind::Select | SkinSettingKind::Radio => {
            let s = require_str(def, value, Key::WhatOption, lang)?;
            let v = chars_of(s.as_str());
            if option_contains(def, &v) {
                Ok(JsonValue::Str(s.clone()))
            } else {
                Err(err2(lang, Key::SettingValueNotAllowed, def.key.as_str(), s.as_str()))
            }
        },
        SkinSettingKind::MultiSelect => match value {
            JsonValue::Array(items) => {
                proof {
                    lemma_array_model(items);
                }
                let strs = check_names(&NameItem::Option, def, items, lang)?;
                let unique = dedup_exec(&strs);
                Ok(strs_value(&unique))
            },
            _ => Err(err1(lang, Key::SettingNeedsArray, def.key.as_str())),
        },
        SkinSettingKind::Weekdays => match value {
            JsonValue::Array(items) => {
                proof {
                    lemma_array_model(items);
                }
                let strs = check_names(&NameItem::Weekday, def, items, lang)?;
                let days = weekday_names_exec();
                let picked = days_picked_exec(&days, &strs);
                Ok(strs_value(&picked))
            },
            _ => Err(err1(lang, Key::SettingNeedsArray, def.key.as_str())),
        },
        SkinSettingKind::TaskList => match value {
            JsonValue::Array(items) => {
                proof {
                    lemma_array_model(items);
                }
                let out = check_list(&ListItem::Task, &def.key, items, 500, lang)?;
                let r = JsonValue::Array(out);
                proof {
                    lemma_array_model(&out);
                }
                Ok(r)
            },
            _ => Err(err1(lang, Key::SettingNeedsArray, def.key.as_str())),
        },
        SkinSettingKind::TodoList => match value {
            JsonValue::Array(items) => {
                proof {
                    lemma_array_model(items);
                }
                let out = check_list(&ListItem::Todo, &def.key, items, 500, lang)?;
                let r = JsonValue::Array(out);
                proof {
                    lemma_array_model(&out);
                }
                Ok(r)
            },
            _ => Err(err1(lang, Key::SettingNeedsArray, def.key.as_str())),
        },
        SkinSettingKind::DateTaskList => match value {
            JsonValue::Array(items) => {
                proof {
                    lemma_array_model(items);
                }
                let out = check_list(&ListItem::DateTask, &def.key, items, 500, lang)?;
                let r = JsonValue::Array(out);
                proof {
                    lemma_array_model(&out);
                }
                Ok(r)
            },
            _ => Err(err1(lang, Key::SettingNeedsArray, def.key.as_str())),
        },
        SkinSettingKind::TimeRange => match value {
            JsonValue::Object(e) => {
                proof {
                    lemma_object_model(e);
                }
                let sk = key_chars(3);
                let st = match object_get(e, &sk) {
                    Some(JsonValue::Str(x)) => x,
                    _ => {
                        return Err(err1(lang, Key::SettingMissingStart, def.key.as_str()));
                    },
                };
                let ek = key_chars(4);
                let en = match object_get(e, &ek) {
                    Some(JsonValue::Str(x)) => x,
                    _ => {
                        return Err(err1(lang, Key::SettingMissingEnd, def.key.as_str()));
                    },
                };
                let a = normalize_datetime(st.as_str());
                let b = normalize_datetime(en.as_str());
                match (a, b) {
                    (Some(a), Some(b)) => Ok(
                        object2(literal_key(3), JsonValue::Str(a), literal_key(4), JsonValue::Str(b)),
                    ),
                    _ => Err(err1(lang, Key::SettingNeedsDateTime, def.key.as_str())),
                }
            },
            _ => Err(err1(lang, Key::SettingNeedsTimeRange, def.key.as_str())),
        },
    }
}


// ─── Caller identity and window geometry ────────────────────────────────

pub open spec fn manager_label() -> Seq<char> {
    seq!['m', 'a', 'i', 'n']
}

/// Manager-only commands: only the window labelled "main" may call them.
pub fn require_manager(window_label: &str, lang: &str) -> (r: Result<(), String>)
    ensures
        r is Ok <==> window_label@ == manager_label(),
        r matches Err(e) ==> e@ == tr_text(lang@, Key::ManagerOnly),
{
    let l = chars_of(window_label);
    let main = vec!['m', 'a', 'i', 'n'];
    assert(main@ =~= manager_label());
    if crate::text::chars_eq(&l, &main) {
        Ok(())
    } else {
        Err(string_of(&chars_of(tr(lang, Key::ManagerOnly))))
    }
}

/// The window edge or corner a border-resize drag starts from.
#[derive(Debug, Clone, Copy, PartialEq, Eq, Structural)]
pub enum ResizeEdge {
    Left,
    Right,
    Top,
    Bottom,
    TopLeft,
    TopRight,
    BottomLeft,
    BottomRight,
}

pub open spec fn resize_edge_of(d: Seq<char>) -> Option<ResizeEdge> {
    if d == seq!['w'] {
        Some(ResizeEdge::Left)
    } else if d == seq!['e'] {
        Some(ResizeEdge::Right)
    } else if d == seq!['n'] {
        Some(ResizeEdge::Top)
    } else if d == seq!['s'] {
        Some(ResizeEdge::Bottom)
    } else if d == seq!['n', 'w'] {
        Some(ResizeEdge::TopLeft)
    } else if d == seq!['n', 'e'] {
        Some(ResizeEdge::TopRight)
    } else if d == seq!['s', 'w'] {
        Some(ResizeEdge::BottomLeft)
    } else if d == seq!['s', 'e'] {
        Some(ResizeEdge::BottomRight)
    } else {
        None
    }
}

/// Maps the bridge's resize zone ("w", "e", "n", "s", "nw", "ne", "sw",
/// "se") to the edge to drag; any other direction is refused.
pub fn resize_edge(direction: &str, lang: &str) -> (r: Result<ResizeEdge, String>)
    ensures
        match r {
            Ok(e) => resize_edge_of(direction@) == Some(e),
            Err(m) => resize_edge_of(direction@) is None && m@ == msg1(
                lang@,
                Key::InvalidResizeDirection,
                direction@,
            ),
        },
{
    let d = chars_of(direction);
    let table: Vec<(Vec<char>, ResizeEdge)> = vec![
        (vec!['w'], ResizeEdge::Left),
        (vec!['e'], ResizeEdge::Right),
        (vec!['n'], ResizeEdge::Top),
        (vec!['s'], ResizeEdge::Bottom),
        (vec!['n', 'w'], ResizeEdge::TopLeft),
        (vec!['n', 'e'], ResizeEdge::TopRight),
        (vec!['s', 'w'], ResizeEdge::BottomLeft),
        (vec!['s', 'e'], ResizeEdge::BottomRight),
    ];
    assert(table@[0].0@ =~= seq!['w']);
    assert(table@[1].0@ =~= seq!['e']);
    assert(table@[2].0@ =~= seq!['n']);
    assert(table@[3].0@ =~= seq!['s']);
    assert(table@[4].0@ =~= seq!['n', 'w']);
    assert(table@[5].0@ =~= seq!['n', 'e']);
    assert(table@[6].0@ =~= seq!['s', 'w']);
    assert(table@[7].0@ =~= seq!['s', 'e']);
    let mut i: usize = 0;
    while i < table.len()
        invariant
            table@.len() == 8,
            table@[0].0@ == seq!['w'] && table@[0].1 == ResizeEdge::Left,
            table@[1].0@ == seq!['e'] && table@[1].1 == ResizeEdge::Right,
            table@[2].0@ == seq!['n'] && table@[2].1 == ResizeEdge::Top,
            table@[3].0@ == seq!['s'] && table@[3].1 == ResizeEdge::Bottom,
            table@[4].0@ == seq!['n', 'w'] && table@[4].1 == ResizeEdge::TopLeft,
            table@[5].0@ == seq!['n', 'e'] && table@[5].1 == ResizeEdge::TopRight,
            table@[6].0@ == seq!['s', 'w'] && table@[6].1 == ResizeEdge::BottomLeft,
            table@[7].0@ == seq!['s', 'e'] && table@[7].1 == ResizeEdge::BottomRight,
            d@ == direction@,
            i <= 8,
            forall|j: int| 0 <= j < i ==> table@[j].0@ != d@,
        decreases 8 - i,
    {
        if crate::text::chars_eq(&table[i].0, &d) {
            return Ok(table[i].1);
        }
        i = i + 1;
    }
    Err(err1(lang, Key::InvalidResizeDirection, direction))
}

/// Largest logical coordinate a skin window may be moved to (either sign).
pub const MAX_COORD: i32 = 32767;

/// Largest logical width or height of a skin window.
pub const MAX_DIMENSION: u32 = 10000;

/// A window coordinate clamped to `[-MAX_COORD, MAX_COORD]`.
pub fn clamp_coord(x: i32) -> (r: i32)
    ensures
        r == (if x < -MAX_COORD {
            -MAX_COORD as int
        } else if x > MAX_COORD {
            MAX_COORD as int
        } else {
            x as int
        }),
{
    if x < -MAX_COORD {
        -MAX_COORD
    } else if x > MAX_COORD {
        MAX_COORD
    } else {
        x
    }
}

/// A window width or height clamped to `[1, MAX_DIMENSION]`.
pub fn clamp_dimension(v: u32) -> (r: u32)
    ensures
        r == (if v < 1 {
            1
        } else if v > MAX_DIMENSION {
            MAX_DIMENSION
        } else {
            v
        }),
{
    if v < 1 {
        1
    } else if v > MAX_DIMENSION {
        MAX_DIMENSION
    } else {
        v
    }
}

/// Windows 11 is build 22000 and later.  An OS version string of the form
/// "major.minor.build" with a parsable build decides; anything else is
/// treated as modern.
pub open spec fn win11_from_version(v: Option<Seq<char>>) -> bool {
    match v {
        None => true,
        Some(s) => {
            let p = split_on(s, '.');
            if p.len() < 3 {
                true
            } else {
                match uint_value(p[2], u32::MAX as nat) {
                    Some(b) => b >= 22000,
                    None => true,
                }
            }
        },
    }
}

/// Whether an OS version string denotes Windows 11 or newer.
pub fn windows_11_from_version(version: Option<&str>) -> (b: bool)
    ensures
        b == win11_from_version(
            match version {
                Some(s) => Some(s@),
                None => None,
            },
        ),
{
    match version {
        None => true,
        Some(s) => {
            let v = chars_of(s);
            let parts = split_exec(&v, '.');
            if parts.len() < 3 {
                return true;
            }
            match parse_uint(&parts[2], 0xffff_ffffu64) {
                Some(b) => b >= 22000,
                None => true,
            }
        },
    }
}

/// `sysinfo::System::os_version`: this machine's OS version string, when
/// the platform reports one.  Nothing is promised of its content.
#[verifier::external_body]
fn os_version() -> Option<String> {
    sysinfo::System::os_version()
}

/// Whether the OS draws its own frame accents (Windows 11+), read from
/// this machine's OS version.
pub fn is_windows_11_or_newer() -> bool {
    match os_version() {
        Some(v) => windows_11_from_version(Some(v.as_str())),
        None => windows_11_from_version(None),
    }
}

} // verus!
