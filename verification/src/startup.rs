//! Startup decisions: which command-line argument is a skin package to
//! install, whether the program directory is under a protected system root,
//! the one-time migration of the legacy data layout and the seeding of the
//! bundled skins.

use vstd::prelude::*;
use crate::i18n::{tr, tr_text, Key};
use crate::skin::protocol::{extension_of, path_extension};
use crate::skin::types::SkinGroup;
use crate::text::{
    ascii_lower_seq, chars_eq, chars_of, starts_with, str_to_lowercase, strings_view,
    unicode_lower_str,
};

verus! {

/// A path whose extension is "dskin", ignoring ASCII case.
pub open spec fn is_dskin_path(p: Seq<char>) -> bool {
    match extension_of(p) {
        Some(e) => ascii_lower_seq(e) == "dskin"@,
        None => false,
    }
}

fn dskin_extension(p: &str) -> (b: bool)
    ensures
        b == is_dskin_path(p@),
{
    match path_extension(p) {
        Some(e) => {
            let low = crate::text::ascii_lower_chars(&e);
            let want = chars_of("dskin");
            chars_eq(&low, &want)
        },
        None => false,
    }
}

/// The first skin package among the command-line arguments: argv[0] (the
/// program) is skipped; an argument is taken when its extension is "dskin"
/// (ASCII case ignored) and `is_file` says it is an existing file.
/// `is_file` is asked only about arguments with that extension, in order,
/// until one is a file.
pub fn dskin_arg<F: Fn(&String) -> bool>(args: &Vec<String>, is_file: F) -> (r: Option<String>)
    requires
        forall|s: &String| #[trigger] is_file.requires((s,)),
    ensures
        match r {
            Some(a) => exists|i: int|
                1 <= i < args.len() && args@[i]@ == a@ && is_dskin_path(a@) && call_ensures(
                    is_file,
                    (&args@[i],),
                    true,
                ) && forall|j: int|
                    1 <= j < i && is_dskin_path(#[trigger] args@[j]@) ==> call_ensures(
                        is_file,
                        (&args@[j],),
                        false,
                    ),
            None => forall|j: int|
                1 <= j < args.len() && is_dskin_path(#[trigger] args@[j]@) ==> call_ensures(
                    is_file,
                    (&args@[j],),
                    false,
                ),
        },
{
    let mut i: usize = 1;
    while i < args.len()
        invariant
            1 <= i,
            forall|s: &String| #[trigger] is_file.requires((s,)),
            forall|j: int|
                1 <= j < i && j < args.len() && is_dskin_path(#[trigger] args@[j]@) ==> call_ensures(
                    is_file,
                    (&args@[j],),
                    false,
                ),
        decreases args.len() - i,
    {
        let a = &args[i];
        if dskin_extension(a.as_str()) {
            let f = is_file(a);
            if f {
                return Some(args[i].clone());
            }
        }
        i = i + 1;
    }
    None
}

// ─── Protected system roots ──────────────────────────────────────────────

/// `s` without its trailing backslashes.
pub open spec fn trim_end_backslashes(s: Seq<char>) -> Seq<char>
    decreases s.len(),
{
    if s.len() > 0 && s.last() == '\\' {
        trim_end_backslashes(s.drop_last())
    } else {
        s
    }
}

/// Whether `dir` is `root` or lies below it: compared in Unicode lower
/// case, on a separator boundary ("C:\Program Files-x" is not below
/// "C:\Program Files").
pub open spec fn under_root(dir: Seq<char>, root: Seq<char>) -> bool {
    let d = unicode_lower_str(dir);
    let r = trim_end_backslashes(unicode_lower_str(root));
    d == r || starts_with(d, r.push('\\'))
}

/// Whether `dir` is under one of the protected roots.
pub open spec fn under_any_root(dir: Seq<char>, roots: Seq<Seq<char>>) -> bool {
    exists|i: int| 0 <= i < roots.len() && #[trigger] under_root(dir, roots[i])
}

fn trim_end_backslashes_exec(v: &Vec<char>) -> (r: Vec<char>)
    ensures
        r@ == trim_end_backslashes(v@),
{
    let mut n: usize = v.len();
    assert(v@.take(v.len() as int) =~= v@);
    while n > 0 && v[n - 1] == '\\'
        invariant
            n <= v.len(),
            trim_end_backslashes(v@) == trim_end_backslashes(v@.take(n as int)),
        decreases n,
    {
        assert(v@.take(n as int).drop_last() =~= v@.take(n - 1));
        n = n - 1;
    }
    let r = crate::text::sub_chars(v, 0, n);
    assert(r@ =~= v@.take(n as int));
    r
}

fn under_root_exec(d: &Vec<char>, root: &str) -> (b: bool)
    ensures
        forall|dir: Seq<char>| d@ == unicode_lower_str(dir) ==> (b == under_root(dir, root@)),
{
    let low = str_to_lowercase(root);
    let lv = chars_of(low.as_str());
    let r = trim_end_backslashes_exec(&lv);
    if chars_eq(d, &r) {
        return true;
    }
    let mut rs = r.clone();
    rs.push('\\');
    assert(rs@ =~= r@.push('\\'));
    crate::text::starts_with_exec(d, &rs)
}

/// Whether `dir` lies under one of the protected system roots (Program
/// Files, Windows): such a program directory is never used for data, so
/// the data layout does not depend on whether this run is elevated.
pub fn is_under_protected_root(dir: &str, roots: &Vec<String>) -> (b: bool)
    ensures
        b == under_any_root(dir@, strings_view(roots@)),
{
    let dl = str_to_lowercase(dir);
    let d = chars_of(dl.as_str());
    let mut i: usize = 0;
    while i < roots.len()
        invariant
            i <= roots.len(),
            d@ == unicode_lower_str(dir@),
            forall|j: int| 0 <= j < i ==> !#[trigger] under_root(dir@, strings_view(roots@)[j]),
        decreases roots.len() - i,
    {
        let hit = under_root_exec(&d, roots[i].as_str());
        assert(strings_view(roots@)[i as int] == roots@[i as int]@);
        if hit {
            assert(under_root(dir@, strings_view(roots@)[i as int]));
            return true;
        }
        i = i + 1;
    }
    false
}

proof fn lemma_trim_end_prefix(s: Seq<char>)
    ensures
        trim_end_backslashes(s).len() <= s.len(),
        s.take(trim_end_backslashes(s).len() as int) == trim_end_backslashes(s),
        forall|k: int|
            trim_end_backslashes(s).len() <= k < s.len() ==> #[trigger] s[k] == '\\',
    decreases s.len(),
{
    if s.len() > 0 && s.last() == '\\' {
        let d = s.drop_last();
        lemma_trim_end_prefix(d);
        let t = trim_end_backslashes(d);
        assert(s.take(t.len() as int) =~= d.take(t.len() as int));
        assert forall|k: int| t.len() <= k < s.len() implies #[trigger] s[k] == '\\' by {
            if k < d.len() {
                assert(s[k] == d[k]);
            }
        }
    } else {
        assert(s.take(s.len() as int) =~= s);
    }
}

/// A protected root counts as under itself, whatever trailing backslashes
/// it is written with.
pub proof fn law_root_is_under_itself(root: Seq<char>)
    ensures
        under_root(root, root),
{
    let d = unicode_lower_str(root);
    lemma_trim_end_prefix(d);
    let r = trim_end_backslashes(d);
    if d != r {
        assert(r.len() < d.len()) by {
            if r.len() == d.len() {
                assert(d.take(d.len() as int) =~= d);
            }
        }
        let rs = r.push('\\');
        assert(d[r.len() as int] == '\\');
        assert(d.take(rs.len() as int) =~= rs);
    }
}

// ─── Legacy layout migration ─────────────────────────────────────────────

/// The legacy config is copied over only when the current one does not
/// exist yet, the legacy one does, and they are different files.
pub open spec fn migrates_config(
    current_exists: bool,
    legacy_exists: bool,
    legacy: Seq<char>,
    current: Seq<char>,
) -> bool {
    !current_exists && legacy_exists && legacy != current
}

/// Whether the legacy config is to be copied to the current location.
pub fn should_migrate_config(current_exists: bool, legacy_exists: bool, legacy: &str, current: &str) -> (b:
    bool)
    ensures
        b == migrates_config(current_exists, legacy_exists, legacy@, current@),
{
    !current_exists && legacy_exists && !crate::text::str_eq(legacy, current)
}

/// A legacy skin entry is moved only when it is a folder and no skin of
/// the same folder name exists yet (the existing one is kept).
pub fn should_migrate_skin(is_dir: bool, dest_exists: bool) -> (b: bool)
    ensures
        b == (is_dir && !dest_exists),
{
    is_dir && !dest_exists
}

// ─── Bundled skins ───────────────────────────────────────────────────────

/// The bundled skins, in their display order in the default group.
pub open spec fn bundled_ids() -> Seq<Seq<char>> {
    seq![
        "isles-countdown"@,
        "isles-calendar"@,
        "isles-clock"@,
        "isles-monitor"@,
        "isles-weather"@,
        "isles-timer"@,
    ]
}

/// The bundled skin ids.
pub fn bundled_skin_ids() -> (r: Vec<&'static str>)
    ensures
        r@.map_values(|s: &'static str| s@) == bundled_ids(),
{
    let r = vec![
        "isles-countdown",
        "isles-calendar",
        "isles-clock",
        "isles-monitor",
        "isles-weather",
        "isles-timer",
    ];
    assert(r@.map_values(|s: &'static str| s@) =~= bundled_ids());
    r
}

/// The id of the group the bundled skins are put in.
pub open spec fn default_group_id() -> Seq<char> {
    "g-default-skins"@
}

/// The bundled skins to put in the default group: those installed
/// (`installed[i]` for the i-th bundled id) that are in no group yet
/// (`grouped[i]`); skins the user already grouped stay where they are.
pub open spec fn to_group(ids: Seq<Seq<char>>, installed: Seq<bool>, grouped: Seq<bool>) -> Seq<Seq<char>>
    decreases ids.len(),
{
    if ids.len() == 0 || installed.len() < ids.len() || grouped.len() < ids.len() {
        Seq::empty()
    } else {
        let n = ids.len() - 1;
        let prev = to_group(ids.drop_last(), installed.take(n), grouped.take(n));
        if installed[n] && !grouped[n] {
            prev.push(ids[n])
        } else {
            prev
        }
    }
}

/// The bundled skins that go to the default group.
pub fn ungrouped_bundled(installed: &Vec<bool>, grouped: &Vec<bool>) -> (r: Vec<String>)
    requires
        installed.len() == 6,
        grouped.len() == 6,
    ensures
        strings_view(r@) == to_group(bundled_ids(), installed@, grouped@),
{
    let ids = bundled_skin_ids();
    let ghost idv = ids@.map_values(|s: &'static str| s@);
    let mut out: Vec<String> = Vec::new();
    let mut i: usize = 0;
    assert(idv.take(0) =~= Seq::<Seq<char>>::empty());
    assert(ids@.len() == idv.len());
    assert(bundled_ids().len() == 6);
    while i < ids.len()
        invariant
            i <= ids.len(),
            ids.len() == 6,
            installed.len() == 6,
            grouped.len() == 6,
            idv == ids@.map_values(|s: &'static str| s@),
            idv == bundled_ids(),
            strings_view(out@) == to_group(idv.take(i as int), installed@.take(i as int), grouped@.take(i as int)),
        decreases ids.len() - i,
    {
        assert(idv.take(i + 1).drop_last() =~= idv.take(i as int));
        assert(installed@.take(i + 1).take(i as int) =~= installed@.take(i as int));
        assert(grouped@.take(i + 1).take(i as int) =~= grouped@.take(i as int));
        if installed[i] && !grouped[i] {
            let ghost before = strings_view(out@);
            out.push(ids[i].to_string());
            assert(strings_view(out@) =~= before.push(idv[i as int]));
        }
        i = i + 1;
    }
    assert(idv.take(6) =~= idv);
    assert(installed@.take(6) =~= installed@);
    assert(grouped@.take(6) =~= grouped@);
    out
}

/// The default group the bundled skins are put in, named in `lang`.
pub fn default_skins_group(lang: &str) -> (g: SkinGroup)
    ensures
        g.id@ == default_group_id(),
        g.name@ == tr_text(lang@, Key::DefaultSkinsGroup),
        !g.collapsed,
{
    SkinGroup {
        id: "g-default-skins".to_string(),
        name: tr(lang, Key::DefaultSkinsGroup).to_string(),
        collapsed: false,
    }
}

} // verus!
