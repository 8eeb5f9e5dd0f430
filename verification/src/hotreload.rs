//! Skin hot reload: which file events are the app's own writes, which skin
//! folder an event belongs to, and the bookkeeping of recent self-writes
//! and of folders waiting for their quiet period.
//!
//! Paths are Windows paths ('\\' and '/' both separate components); times
//! are milliseconds on a monotonic clock.

use vstd::prelude::*;
use crate::text::{
    chars_eq, chars_of, ends_with, ends_with_exec, split_exec, split_on, starts_with,
    starts_with_exec, string_of, views,
};

verus! {

/// Quiet period after the last change before a skin folder is reloaded.
pub const DEBOUNCE_MS: u64 = 300;

/// How long a registered self-write keeps matching events.
pub const SELF_WRITE_TTL_MS: u64 = 5000;

pub open spec fn unify_seps(p: Seq<char>) -> Seq<char> {
    p.map_values(|c: char| if c == '\\' { '/' } else { c })
}

/// The components of a path (empty pieces included; they match nothing).
pub open spec fn components(p: Seq<char>) -> Seq<Seq<char>> {
    split_on(unify_seps(p), '/')
}

/// File names the app itself writes into skin folders.
pub open spec fn self_write_names() -> Seq<Seq<char>> {
    seq![
        "settings.json"@,
        "settings.json.tmp"@,
        "settings.json.bak"@,
        "preview.png"@,
    ]
}

/// A component written by the app itself: a fixed self-write name, an
/// install staging folder (".staging-*") or a replaced folder ("*.old").
pub open spec fn self_write_component(c: Seq<char>) -> bool {
    self_write_names().contains(c) || starts_with(c, ".staging-"@) || ends_with(c, ".old"@)
}

/// Some component of the path is the app's own.
pub open spec fn self_write(p: Seq<char>) -> bool {
    exists|i: int| 0 <= i < components(p).len() && #[trigger] self_write_component(components(p)[i])
}

fn unify_seps_exec(v: &Vec<char>) -> (r: Vec<char>)
    ensures
        r@ == unify_seps(v@),
{
    let mut r: Vec<char> = Vec::new();
    let mut i: usize = 0;
    while i < v.len()
        invariant
            i <= v.len(),
            r@ == unify_seps(v@.take(i as int)),
        decreases v.len() - i,
    {
        r.push(if v[i] == '\\' {
            '/'
        } else {
            v[i]
        });
        i = i + 1;
        assert(r@ =~= unify_seps(v@.take(i as int)));
    }
    assert(v@.take(v@.len() as int) =~= v@);
    r
}

fn self_write_component_exec(c: &Vec<char>) -> (b: bool)
    ensures
        b == self_write_component(c@),
{
    let names = vec![
        chars_of("settings.json"),
        chars_of("settings.json.tmp"),
        chars_of("settings.json.bak"),
        chars_of("preview.png"),
    ];
    assert(views(names@) =~= self_write_names());
    let mut i: usize = 0;
    while i < names.len()
        invariant
            views(names@) == self_write_names(),
            i <= names.len(),
            forall|j: int| 0 <= j < i ==> self_write_names()[j] != c@,
        decreases names.len() - i,
    {
        if chars_eq(&names[i], c) {
            assert(self_write_names()[i as int] == c@);
            return true;
        }
        i = i + 1;
    }
    let staging = chars_of(".staging-");
    let old = chars_of(".old");
    starts_with_exec(c, &staging) || ends_with_exec(c, &old)
}

/// Whether an event path is one of the app's own writes.
pub fn is_self_write(path: &str) -> (b: bool)
    ensures
        b == self_write(path@),
{
    let v = chars_of(path);
    let u = unify_seps_exec(&v);
    let comps = split_exec(&u, '/');
    let mut i: usize = 0;
    while i < comps.len()
        invariant
            views(comps@) == components(path@),
            i <= comps.len(),
            forall|j: int| 0 <= j < i ==> !#[trigger] self_write_component(components(path@)[j]),
        decreases comps.len() - i,
    {
        if self_write_component_exec(&comps[i]) {
            assert(self_write_component(components(path@)[i as int]));
            return true;
        }
        i = i + 1;
    }
    false
}

pub open spec fn verbatim_prefix() -> Seq<char> {
    seq!['\\', '\\', '?', '\\']
}

/// A path without the `\\?\` long-path prefix that canonical paths carry
/// and watcher events do not.
pub open spec fn normalized_path(p: Seq<char>) -> Seq<char> {
    if starts_with(p, verbatim_prefix()) {
        p.skip(4)
    } else {
        p
    }
}

/// Strips the `\\?\` long-path prefix.
pub fn normalize_watch_path(path: &str) -> (r: String)
    ensures
        r@ == normalized_path(path@),
{
    let v = chars_of(path);
    let pre = vec!['\\', '\\', '?', '\\'];
    assert(pre@ =~= verbatim_prefix());
    if starts_with_exec(&v, &pre) {
        let rest = crate::text::sub_chars(&v, 4, v.len());
        assert(rest@ =~= v@.skip(4));
        string_of(&rest)
    } else {
        string_of(&v)
    }
}

/// The non-empty pieces, in order.
pub open spec fn nonempty_pieces(s: Seq<Seq<char>>) -> Seq<Seq<char>>
    decreases s.len(),
{
    if s.len() == 0 {
        s
    } else {
        let prev = nonempty_pieces(s.drop_last());
        if s.last().len() > 0 {
            prev.push(s.last())
        } else {
            prev
        }
    }
}

/// The non-empty components of a path.
pub open spec fn parts(p: Seq<char>) -> Seq<Seq<char>> {
    nonempty_pieces(components(p))
}

pub(crate) fn parts_exec(v: &Vec<char>) -> (r: Vec<Vec<char>>)
    ensures
        views(r@) == parts(v@),
{
    let u = unify_seps_exec(v);
    let comps = split_exec(&u, '/');
    let ghost all = components(v@);
    let mut out: Vec<Vec<char>> = Vec::new();
    let mut i: usize = 0;
    assert(all.take(0) =~= Seq::<Seq<char>>::empty());
    while i < comps.len()
        invariant
            views(comps@) == all,
            i <= comps.len(),
            views(out@) == nonempty_pieces(all.take(i as int)),
        decreases comps.len() - i,
    {
        assert(all.take(i + 1).drop_last() =~= all.take(i as int));
        assert(all.take(i + 1).last() == comps@[i as int]@);
        if comps[i].len() > 0 {
            let ghost before = views(out@);
            out.push(comps[i].clone());
            assert(views(out@) =~= before.push(comps@[i as int]@));
        }
        i = i + 1;
    }
    assert(all.take(comps.len() as int) =~= all);
    out
}

/// The skin folder an event path lies in: `skins_dir` joined with the
/// first component below it; `None` outside `skins_dir` or at it.
pub open spec fn folder_of(skins_dir: Seq<char>, path: Seq<char>) -> Option<Seq<char>> {
    let d = parts(skins_dir);
    let p = parts(path);
    if d.len() < p.len() && p.take(d.len() as int) == d {
        let sep = if skins_dir.len() > 0 && (skins_dir.last() == '\\' || skins_dir.last() == '/') {
            Seq::empty()
        } else {
            seq!['\\']
        };
        Some(skins_dir + sep + p[d.len() as int])
    } else {
        None
    }
}

/// The skin folder a changed path belongs to, i.e. `<skins_dir>\<folder>`.
pub fn skin_folder(skins_dir: &str, path: &str) -> (r: Option<String>)
    ensures
        match r {
            Some(f) => folder_of(skins_dir@, path@) == Some(f@),
            None => folder_of(skins_dir@, path@) is None,
        },
{
    let dv = chars_of(skins_dir);
    let pv = chars_of(path);
    let d = parts_exec(&dv);
    let p = parts_exec(&pv);
    if d.len() >= p.len() {
        return None;
    }
    let mut i: usize = 0;
    while i < d.len()
        invariant
            views(d@) == parts(skins_dir@),
            views(p@) == parts(path@),
            i <= d.len() < p.len(),
            forall|j: int| 0 <= j < i ==> views(d@)[j] == views(p@)[j],
        decreases d.len() - i,
    {
        if !chars_eq(&d[i], &p[i]) {
            assert(views(p@).take(d.len() as int)[i as int] != views(d@)[i as int]);
            return None;
        }
        i = i + 1;
    }
    assert(views(p@).take(d.len() as int) =~= views(d@));
    let mut out = dv.clone();
    if !(dv.len() > 0 && (dv[dv.len() - 1] == '\\' || dv[dv.len() - 1] == '/')) {
        out.push('\\');
    }
    crate::text::extend_chars(&mut out, &p[d.len()]);
    let ghost sep = if dv@.len() > 0 && (dv@.last() == '\\' || dv@.last() == '/') {
        Seq::<char>::empty()
    } else {
        seq!['\\']
    };
    assert(out@ =~= skins_dir@ + sep + views(p@)[d.len() as int]);
    Some(string_of(&out))
}

// ─── Time-keyed path sets ────────────────────────────────────────────────

/// The time recorded for `k` (the first entry with that key).
pub open spec fn time_of(entries: Seq<(Seq<char>, u64)>, k: Seq<char>) -> Option<u64>
    decreases entries.len(),
{
    if entries.len() == 0 {
        None
    } else if entries[0].0 == k {
        Some(entries[0].1)
    } else {
        time_of(entries.drop_first(), k)
    }
}

pub open spec fn pairs_view(v: Seq<(String, u64)>) -> Seq<(Seq<char>, u64)> {
    v.map_values(|e: (String, u64)| (e.0@, e.1))
}

/// Time elapsed from `t` to `now` (zero if `t` is later).
pub open spec fn elapsed(t: u64, now: u64) -> int {
    if now >= t {
        now - t
    } else {
        0
    }
}

proof fn lemma_time_of_skip(e: Seq<(Seq<char>, u64)>, k: Seq<char>, i: int)
    requires
        0 <= i <= e.len(),
        forall|j: int| 0 <= j < i ==> e[j].0 != k,
    ensures
        time_of(e, k) == time_of(e.skip(i), k),
    decreases i,
{
    if i > 0 {
        assert(e.skip(1) =~= e.drop_first());
        lemma_time_of_skip(e.drop_first(), k, i - 1);
        assert(e.drop_first().skip(i - 1) =~= e.skip(i));
    } else {
        assert(e.skip(0) =~= e);
    }
}

fn lookup_time(entries: &Vec<(String, u64)>, k: &Vec<char>) -> (r: Option<u64>)
    ensures
        r == time_of(pairs_view(entries@), k@),
{
    let ghost e = pairs_view(entries@);
    let mut i: usize = 0;
    while i < entries.len()
        invariant
            i <= entries.len(),
            e == pairs_view(entries@),
            forall|j: int| 0 <= j < i ==> e[j].0 != k@,
        decreases entries.len() - i,
    {
        let c = chars_of(entries[i].0.as_str());
        if chars_eq(&c, k) {
            proof {
                lemma_time_of_skip(e, k@, i as int);
                assert(e.skip(i as int)[0] == e[i as int]);
            }
            return Some(entries[i].1);
        }
        i = i + 1;
    }
    proof {
        lemma_time_of_skip(e, k@, entries.len() as int);
    }
    None
}

/// Recent self-writes of skins into their own folders: normalized path →
/// time of the write.
pub struct RecentSelfWrites {
    entries: Vec<(String, u64)>,
}

impl RecentSelfWrites {
    pub closed spec fn items(&self) -> Seq<(Seq<char>, u64)> {
        pairs_view(self.entries@)
    }

    /// No writes registered.
    pub fn new() -> (r: RecentSelfWrites)
        ensures
            r.items().len() == 0,
    {
        let r = RecentSelfWrites { entries: Vec::new() };
        assert(r.items() =~= Seq::<(Seq<char>, u64)>::empty());
        r
    }

    /// Whether `path` (normalized) was written less than the TTL before
    /// `now`; entries are not consumed by a hit.
    pub open spec fn hits(&self, path: Seq<char>, now: u64) -> bool {
        match time_of(self.items(), normalized_path(path)) {
            Some(t) => elapsed(t, now) < SELF_WRITE_TTL_MS,
            None => false,
        }
    }
}

/// The registrations kept when `key` is registered at `now`: the other
/// keys' registrations that are still within the TTL.
pub open spec fn kept_after(e: Seq<(Seq<char>, u64)>, key: Seq<char>, now: u64) -> Seq<(Seq<char>, u64)>
    decreases e.len(),
{
    if e.len() == 0 {
        e
    } else {
        let prev = kept_after(e.drop_last(), key, now);
        let x = e.last();
        if x.0 != key && elapsed(x.1, now) < SELF_WRITE_TTL_MS {
            prev.push(x)
        } else {
            prev
        }
    }
}

/// Registers a skin's write into its own folder: expired registrations
/// are dropped, then `path` (normalized) is recorded at `now`.
pub fn note_self_write(recent: &mut RecentSelfWrites, path: &str, now: u64)
    ensures
        final(recent).items() == kept_after(old(recent).items(), normalized_path(path@), now).push(
            (normalized_path(path@), now),
        ),
{
    let key = normalize_watch_path(path);
    let kv = chars_of(key.as_str());
    let ghost old_items = recent.items();
    let mut kept: Vec<(String, u64)> = Vec::new();
    let mut i: usize = 0;
    assert(old_items.take(0) =~= Seq::<(Seq<char>, u64)>::empty());
    while i < recent.entries.len()
        invariant
            i <= recent.entries.len(),
            old_items == pairs_view(recent.entries@),
            kv@ == normalized_path(path@),
            pairs_view(kept@) == kept_after(old_items.take(i as int), kv@, now),
        decreases recent.entries.len() - i,
    {
        let t = recent.entries[i].1;
        let c = chars_of(recent.entries[i].0.as_str());
        assert(old_items.take(i + 1).drop_last() =~= old_items.take(i as int));
        assert(old_items.take(i + 1).last() == old_items[i as int]);
        if !chars_eq(&c, &kv) && (if now >= t { now - t } else { 0 }) < SELF_WRITE_TTL_MS {
            let ghost before = pairs_view(kept@);
            kept.push((recent.entries[i].0.clone(), t));
            assert(pairs_view(kept@) =~= before.push(old_items[i as int]));
        }
        i = i + 1;
    }
    assert(old_items.take(recent.entries.len() as int) =~= old_items);
    let ghost before = pairs_view(kept@);
    kept.push((key, now));
    assert(pairs_view(kept@) =~= before.push((kv@, now)));
    recent.entries = kept;
}

proof fn lemma_kept_after_excludes(e: Seq<(Seq<char>, u64)>, key: Seq<char>, now: u64)
    ensures
        time_of(kept_after(e, key, now), key) is None,
        forall|k: Seq<char>|
            #[trigger] time_of(kept_after(e, key, now), k) matches Some(t) ==> elapsed(t, now)
                < SELF_WRITE_TTL_MS,
    decreases e.len(),
{
    if e.len() > 0 {
        lemma_kept_after_excludes(e.drop_last(), key, now);
        lemma_time_of_push(kept_after(e.drop_last(), key, now), e.last());
    }
}

/// Right after a registration its path hits, and every registration that
/// survives a later one is still fresh.
pub proof fn law_note_then_hit(e: Seq<(Seq<char>, u64)>, key: Seq<char>, now: u64)
    ensures
        time_of(kept_after(e, key, now).push((key, now)), key) == Some(now),
        forall|k: Seq<char>|
            #[trigger] time_of(kept_after(e, key, now).push((key, now)), k) matches Some(t)
                ==> elapsed(t, now) < SELF_WRITE_TTL_MS,
{
    lemma_kept_after_excludes(e, key, now);
    lemma_time_of_push(kept_after(e, key, now), (key, now));
}

proof fn lemma_time_of_push_at(e: Seq<(Seq<char>, u64)>, x: (Seq<char>, u64), k: Seq<char>)
    ensures
        time_of(e.push(x), k) == (match time_of(e, k) {
            Some(t) => Some(t),
            None => if x.0 == k {
                Some(x.1)
            } else {
                None
            },
        }),
    decreases e.len(),
{
    let ex = e.push(x);
    if e.len() > 0 {
        lemma_time_of_push_at(e.drop_first(), x, k);
        assert(ex.drop_first() =~= e.drop_first().push(x));
        assert(ex[0] == e[0]);
        assert(time_of(ex, k) == if e[0].0 == k {
            Some(e[0].1)
        } else {
            time_of(e.drop_first().push(x), k)
        });
    } else {
        assert(ex.drop_first() =~= Seq::<(Seq<char>, u64)>::empty());
        assert(ex[0] == x);
        assert(time_of(ex.drop_first(), k) is None);
        assert(time_of(e, k) is None);
    }
}

proof fn lemma_time_of_push(e: Seq<(Seq<char>, u64)>, x: (Seq<char>, u64))
    ensures
        forall|k: Seq<char>|
            #[trigger] time_of(e.push(x), k) == (match time_of(e, k) {
                Some(t) => Some(t),
                None => if x.0 == k {
                    Some(x.1)
                } else {
                    None
                },
            }),
{
    assert forall|k: Seq<char>|
        #[trigger] time_of(e.push(x), k) == (match time_of(e, k) {
            Some(t) => Some(t),
            None => if x.0 == k {
                Some(x.1)
            } else {
                None
            },
        }) by {
        lemma_time_of_push_at(e, x, k);
    }
}

/// Whether an event on `path` hits a fresh self-write registration.
pub fn hit_recent_self_write(recent: &RecentSelfWrites, path: &str, now: u64) -> (b: bool)
    ensures
        b == recent.hits(path@, now),
{
    let key = normalize_watch_path(path);
    let kv = chars_of(key.as_str());
    match lookup_time(&recent.entries, &kv) {
        Some(t) => (if now >= t {
            now - t
        } else {
            0
        }) < SELF_WRITE_TTL_MS,
        None => false,
    }
}

/// A registered self-write keeps matching every event on the same path
/// (with or without the `\\?\` prefix) until the TTL has passed.
pub proof fn law_self_write_hits_until_ttl(r: RecentSelfWrites, p: Seq<char>, t: u64, later: u64)
    requires
        time_of(r.items(), normalized_path(p)) == Some(t),
        t <= later,
        !starts_with(p, verbatim_prefix()),
    ensures
        r.hits(p, later) == (later - t < SELF_WRITE_TTL_MS),
        r.hits(verbatim_prefix() + p, later) == r.hits(p, later),
{
    assert((verbatim_prefix() + p).take(4) =~= verbatim_prefix());
    assert((verbatim_prefix() + p).skip(4) =~= p);
}


// ─── Debounce of reloads per skin folder ─────────────────────────────────

/// The entries whose key is not `key`, in order.
pub open spec fn without_key(e: Seq<(Seq<char>, u64)>, key: Seq<char>) -> Seq<(Seq<char>, u64)>
    decreases e.len(),
{
    if e.len() == 0 {
        e
    } else {
        let prev = without_key(e.drop_last(), key);
        if e.last().0 != key {
            prev.push(e.last())
        } else {
            prev
        }
    }
}

/// A folder whose last event is at least the quiet period old.
pub open spec fn is_due(x: (Seq<char>, u64), now: u64) -> bool {
    elapsed(x.1, now) >= DEBOUNCE_MS
}

/// The entries that are due (`due == true`) or still waiting, in order.
pub open spec fn due_split(e: Seq<(Seq<char>, u64)>, now: u64, due: bool) -> Seq<(Seq<char>, u64)>
    decreases e.len(),
{
    if e.len() == 0 {
        e
    } else {
        let prev = due_split(e.drop_last(), now, due);
        if is_due(e.last(), now) == due {
            prev.push(e.last())
        } else {
            prev
        }
    }
}

pub open spec fn keys_of(e: Seq<(Seq<char>, u64)>) -> Seq<Seq<char>> {
    e.map_values(|x: (Seq<char>, u64)| x.0)
}

/// No key occurs twice.
pub open spec fn keys_distinct(e: Seq<(Seq<char>, u64)>) -> bool {
    forall|i: int, j: int| 0 <= i < j < e.len() ==> #[trigger] e[i].0 != #[trigger] e[j].0
}

proof fn lemma_without_key_sub(e: Seq<(Seq<char>, u64)>, key: Seq<char>)
    ensures
        forall|i: int|
            0 <= i < without_key(e, key).len() ==> #[trigger] without_key(e, key)[i].0 != key
                && e.contains(without_key(e, key)[i]),
        keys_distinct(e) ==> keys_distinct(without_key(e, key)),
        keys_distinct(e) ==> forall|i: int|
            0 <= i < e.len() && e[i].0 != key ==> without_key(e, key).contains(#[trigger] e[i]),
    decreases e.len(),
{
    if e.len() > 0 {
        let d = e.drop_last();
        lemma_without_key_sub(d, key);
        let w = without_key(e, key);
        let wd = without_key(d, key);
        assert forall|i: int| 0 <= i < w.len() implies #[trigger] w[i].0 != key && e.contains(w[i]) by {
            if i < wd.len() {
                assert(w[i] == wd[i]);
                assert(wd[i].0 != key);
                assert(d.contains(wd[i]));
                let k = choose|k: int| 0 <= k < d.len() && d[k] == wd[i];
                assert(e[k] == d[k]);
            } else {
                assert(w[i] == e.last());
                assert(e[e.len() - 1] == e.last());
            }
        }
        if keys_distinct(e) {
            assert(keys_distinct(d)) by {
                assert forall|i: int, j: int| 0 <= i < j < d.len() implies #[trigger] d[i].0
                    != #[trigger] d[j].0 by {
                    assert(d[i] == e[i] && d[j] == e[j]);
                }
            }
            assert forall|i: int, j: int| 0 <= i < j < w.len() implies #[trigger] w[i].0
                != #[trigger] w[j].0 by {
                if j < wd.len() {
                    assert(w[i] == wd[i] && w[j] == wd[j]);
                } else {
                    assert(w[j] == e.last());
                    assert(w[i] == wd[i]);
                    assert(wd[i].0 != key);
                    assert(d.contains(wd[i]));
                    let k = choose|k: int| 0 <= k < d.len() && d[k] == wd[i];
                    assert(e[k] == d[k]);
                    assert(e[e.len() - 1] == e.last());
                }
            }
            assert forall|i: int| 0 <= i < e.len() && e[i].0 != key implies w.contains(
                #[trigger] e[i],
            ) by {
                if i < d.len() {
                    assert(d[i] == e[i]);
                    assert(wd.contains(d[i]));
                    let k = choose|k: int| 0 <= k < wd.len() && wd[k] == d[i];
                    assert(w[k] == wd[k]);
                } else {
                    assert(w[w.len() - 1] == e[i]);
                }
            }
        }
    }
}

/// Skin folders waiting for their quiet period: folder → time of its last
/// event.  Each folder occurs once.
pub struct PendingReloads {
    entries: Vec<(String, u64)>,
}

impl PendingReloads {
    pub closed spec fn items(&self) -> Seq<(Seq<char>, u64)> {
        pairs_view(self.entries@)
    }

    /// Nothing pending.
    pub fn new() -> (r: PendingReloads)
        ensures
            r.items().len() == 0,
    {
        let r = PendingReloads { entries: Vec::new() };
        assert(r.items() =~= Seq::<(Seq<char>, u64)>::empty());
        r
    }

    /// Records an event in `folder` at `now`: its entry is replaced.
    pub fn touch(&mut self, folder: &str, now: u64)
        ensures
            final(self).items() == without_key(old(self).items(), folder@).push((folder@, now)),
            keys_distinct(old(self).items()) ==> keys_distinct(final(self).items()),
    {
        let kv = chars_of(folder);
        let ghost old_items = self.items();
        let mut kept: Vec<(String, u64)> = Vec::new();
        let mut i: usize = 0;
        assert(old_items.take(0) =~= Seq::<(Seq<char>, u64)>::empty());
        while i < self.entries.len()
            invariant
                i <= self.entries.len(),
                old_items == pairs_view(self.entries@),
                kv@ == folder@,
                pairs_view(kept@) == without_key(old_items.take(i as int), folder@),
            decreases self.entries.len() - i,
        {
            let c = chars_of(self.entries[i].0.as_str());
            assert(old_items.take(i + 1).drop_last() =~= old_items.take(i as int));
            assert(old_items.take(i + 1).last() == old_items[i as int]);
            if !chars_eq(&c, &kv) {
                let ghost before = pairs_view(kept@);
                kept.push((self.entries[i].0.clone(), self.entries[i].1));
                assert(pairs_view(kept@) =~= before.push(old_items[i as int]));
            }
            i = i + 1;
        }
        assert(old_items.take(self.entries.len() as int) =~= old_items);
        let ghost before = pairs_view(kept@);
        kept.push((string_of(&kv), now));
        assert(pairs_view(kept@) =~= before.push((folder@, now)));
        self.entries = kept;
        proof {
            lemma_without_key_sub(old_items, folder@);
            let w = without_key(old_items, folder@);
            let n = w.push((folder@, now));
            if keys_distinct(old_items) {
                assert forall|i: int, j: int| 0 <= i < j < n.len() implies #[trigger] n[i].0
                    != #[trigger] n[j].0 by {
                    if j < w.len() {
                        assert(n[i] == w[i] && n[j] == w[j]);
                    } else {
                        assert(n[i] == w[i]);
                    }
                }
            }
        }
    }

    /// Drops every pending folder (hot reload switched off).
    pub fn clear(&mut self)
        ensures
            final(self).items().len() == 0,
    {
        self.entries = Vec::new();
        assert(self.items() =~= Seq::<(Seq<char>, u64)>::empty());
    }

    /// Removes and returns the folders that have been quiet for the
    /// debounce period at `now`; the others keep waiting.
    pub fn take_due(&mut self, now: u64) -> (fired: Vec<String>)
        ensures
            views_of_strings(fired@) == keys_of(due_split(old(self).items(), now, true)),
            final(self).items() == due_split(old(self).items(), now, false),
    {
        let ghost old_items = self.items();
        let mut fired: Vec<String> = Vec::new();
        let mut waiting: Vec<(String, u64)> = Vec::new();
        let mut i: usize = 0;
        assert(old_items.take(0) =~= Seq::<(Seq<char>, u64)>::empty());
        while i < self.entries.len()
            invariant
                i <= self.entries.len(),
                old_items == pairs_view(self.entries@),
                pairs_view(waiting@) == due_split(old_items.take(i as int), now, false),
                views_of_strings(fired@) == keys_of(due_split(old_items.take(i as int), now, true)),
            decreases self.entries.len() - i,
        {
            let t = self.entries[i].1;
            assert(old_items.take(i + 1).drop_last() =~= old_items.take(i as int));
            assert(old_items.take(i + 1).last() == old_items[i as int]);
            let ghost due_before = due_split(old_items.take(i as int), now, true);
            if (if now >= t {
                now - t
            } else {
                0
            }) >= DEBOUNCE_MS {
                let ghost before = views_of_strings(fired@);
                fired.push(self.entries[i].0.clone());
                assert(views_of_strings(fired@) =~= before.push(old_items[i as int].0));
                assert(keys_of(due_before.push(old_items[i as int])) =~= keys_of(due_before).push(
                    old_items[i as int].0,
                ));
            } else {
                let ghost before = pairs_view(waiting@);
                waiting.push((self.entries[i].0.clone(), t));
                assert(pairs_view(waiting@) =~= before.push(old_items[i as int]));
            }
            i = i + 1;
        }
        assert(old_items.take(self.entries.len() as int) =~= old_items);
        self.entries = waiting;
        fired
    }
}

pub open spec fn views_of_strings(v: Seq<String>) -> Seq<Seq<char>> {
    v.map_values(|s: String| s@)
}

/// The skin folder a watcher event is for, or `None` when the event is
/// the app's own write (a fresh registration or a fixed self-write name)
/// or lies outside the skins directory.
pub open spec fn event_folder(
    recent: RecentSelfWrites,
    skins_dir: Seq<char>,
    path: Seq<char>,
    now: u64,
) -> Option<Seq<char>> {
    if recent.hits(path, now) || self_write(path) {
        None
    } else {
        folder_of(skins_dir, path)
    }
}

/// Routes one watcher event path: the skin folder to mark pending.
pub fn route_event(recent: &RecentSelfWrites, skins_dir: &str, path: &str, now: u64) -> (r: Option<
    String,
>)
    ensures
        match r {
            Some(f) => event_folder(*recent, skins_dir@, path@, now) == Some(f@),
            None => event_folder(*recent, skins_dir@, path@, now) is None,
        },
{
    if hit_recent_self_write(recent, path, now) || is_self_write(path) {
        None
    } else {
        skin_folder(skins_dir, path)
    }
}

/// A folder touched at `now` does not fire before the quiet period has
/// passed, and fires once it has.
pub proof fn law_touch_waits_for_quiet(e: Seq<(Seq<char>, u64)>, folder: Seq<char>, now: u64, later: u64)
    requires
        now <= later,
    ensures
        keys_of(due_split(without_key(e, folder).push((folder, now)), later, true)).contains(folder)
            <==> later - now >= DEBOUNCE_MS,
{
    lemma_without_key_sub(e, folder);
    let w = without_key(e, folder);
    let n = w.push((folder, now));
    let d = due_split(n, later, true);
    assert(n.drop_last() =~= w);
    lemma_due_split_sub(w, later);
    if later - now >= DEBOUNCE_MS {
        assert(d == due_split(w, later, true).push((folder, now)));
        assert(keys_of(d)[keys_of(d).len() - 1] == folder);
    } else {
        assert(d == due_split(w, later, true));
        if keys_of(d).contains(folder) {
            let k = choose|k: int| 0 <= k < keys_of(d).len() && keys_of(d)[k] == folder;
            assert(d[k].0 == folder);
            assert(w.contains(d[k]));
            let m = choose|m: int| 0 <= m < w.len() && w[m] == d[k];
            assert(w[m].0 != folder);
        }
    }
}

proof fn lemma_due_split_sub(e: Seq<(Seq<char>, u64)>, now: u64)
    ensures
        forall|i: int|
            0 <= i < due_split(e, now, true).len() ==> e.contains(
                #[trigger] due_split(e, now, true)[i],
            ),
    decreases e.len(),
{
    if e.len() > 0 {
        let d = e.drop_last();
        lemma_due_split_sub(d, now);
        let s = due_split(e, now, true);
        let sd = due_split(d, now, true);
        assert forall|i: int| 0 <= i < s.len() implies e.contains(#[trigger] s[i]) by {
            if i < sd.len() {
                assert(s[i] == sd[i]);
                assert(d.contains(sd[i]));
                let k = choose|k: int| 0 <= k < d.len() && d[k] == sd[i];
                assert(e[k] == d[k]);
            } else {
                assert(e[e.len() - 1] == s[i]);
            }
        }
    }
}

/// After the due folders are taken, none of the waiting ones is due.
pub proof fn law_waiting_not_due(e: Seq<(Seq<char>, u64)>, now: u64)
    ensures
        forall|i: int|
            0 <= i < due_split(e, now, false).len() ==> !is_due(
                #[trigger] due_split(e, now, false)[i],
                now,
            ),
        due_split(e, now, true).len() + due_split(e, now, false).len() == e.len(),
    decreases e.len(),
{
    if e.len() > 0 {
        law_waiting_not_due(e.drop_last(), now);
        let s = due_split(e, now, false);
        let sd = due_split(e.drop_last(), now, false);
        assert forall|i: int| 0 <= i < s.len() implies !is_due(#[trigger] s[i], now) by {
            if i < sd.len() {
                assert(s[i] == sd[i]);
            }
        }
    }
}

} // verus!
