//! Hotkeys: validation of "Ctrl+Alt+D" style combos, and the registry that
//! decides what a pressed hotkey does.
//!
//! A combo is parsed by the `global-hotkey` crate; every comparison goes
//! through its canonical display form (lower-case modifiers in a fixed
//! order, then the key code name, e.g. `control+alt+KeyD`), never through
//! the text the user typed.  Registering with the operating system is done
//! by the caller; the registry here keeps the bookkeeping of what is
//! registered.

use vstd::prelude::*;
use crate::i18n::{arg_views, fill, tr, tr_text, trf, Key};
use crate::text::{chars_eq, chars_of, string_of, trim_str, trim_ws};

verus! {

/// What `HotKey::from_str` of the `global-hotkey` crate gives for a text:
/// the modifier bits and the canonical display form of the hotkey, or
/// `None` when the text is not a hotkey.
pub uninterp spec fn hotkey_parse(text: Seq<char>) -> Option<(u32, Seq<char>)>;

/// Parses `text` with `global_hotkey::hotkey::HotKey::from_str` and hands
/// back the modifier bits and the `Display` form.  Claimed: the result is
/// `hotkey_parse(text)`, and a text without '+' (a single token) never
/// yields modifiers.
#[verifier::external_body]
fn parse_hotkey_text(text: &str) -> (r: Option<(u32, String)>)
    ensures
        match r {
            Some(p) => hotkey_parse(text@) == Some((p.0, p.1@)),
            None => hotkey_parse(text@) is None,
        },
        !text@.contains('+') ==> (match r {
            Some(p) => p.0 == 0,
            None => true,
        }),
{
    match text.parse::<global_hotkey::hotkey::HotKey>() {
        Ok(h) => Some((h.mods.bits(), h.to_string())),
        Err(_) => None,
    }
}

/// A validated hotkey: its modifier bits (never empty) and its canonical
/// display form.
pub struct Shortcut {
    pub mods: u32,
    pub display: String,
}

/// The outcome of validating a parse result: the invalid-hotkey message
/// unless the text parsed and has a modifier.
pub open spec fn validated(parsed: Option<(u32, Seq<char>)>, lang: Seq<char>) -> Result<
    (u32, Seq<char>),
    Seq<char>,
> {
    match parsed {
        Some(p) => if p.0 != 0 {
            Ok(p)
        } else {
            Err(tr_text(lang, Key::HotkeyInvalid))
        },
        None => Err(tr_text(lang, Key::HotkeyInvalid)),
    }
}

pub open spec fn shortcut_result(r: Result<Shortcut, String>) -> Result<(u32, Seq<char>), Seq<char>> {
    match r {
        Ok(s) => Ok((s.mods, s.display@)),
        Err(e) => Err(e@),
    }
}

/// Validates a parse result: a bare key with no modifier is rejected, since
/// globally taking an unmodified key would break normal typing.
pub fn validate_parsed(parsed: Option<(u32, String)>, lang: &str) -> (r: Result<Shortcut, String>)
    ensures
        shortcut_result(r) == validated(
            match parsed {
                Some(p) => Some((p.0, p.1@)),
                None => None,
            },
            lang@,
        ),
{
    match parsed {
        Some(p) => {
            if p.0 != 0 {
                Ok(Shortcut { mods: p.0, display: p.1 })
            } else {
                Err(tr(lang, Key::HotkeyInvalid).to_string())
            }
        },
        None => Err(tr(lang, Key::HotkeyInvalid).to_string()),
    }
}

/// Parses a "Ctrl+Alt+D" style combo (surrounding whitespace ignored).  A
/// bare key with no modifier is rejected.
pub fn parse_validated(combo: &str, lang: &str) -> (r: Result<Shortcut, String>)
    ensures
        shortcut_result(r) == validated(hotkey_parse(trim_ws(combo@)), lang@),
        !trim_ws(combo@).contains('+') ==> r is Err,
{
    let t = trim_str(combo);
    let parsed = parse_hotkey_text(t.as_str());
    validate_parsed(parsed, lang)
}

/// What a pressed hotkey does.
pub enum HotkeyAction {
    /// Toggle the visibility of one skin.
    ToggleSkin(String),
    /// Toggle focus mode (the global hotkey).
    ToggleFocus,
    /// Not one of ours.
    Ignore,
}

pub open spec fn pairs_model(v: Seq<(String, String)>) -> Seq<(Seq<char>, Seq<char>)> {
    v.map_values(|e: (String, String)| (e.0@, e.1@))
}

/// The skin bound to `key` in the registry (first match).
pub open spec fn skin_of(e: Seq<(Seq<char>, Seq<char>)>, key: Seq<char>) -> Option<Seq<char>>
    decreases e.len(),
{
    if e.len() == 0 {
        None
    } else if e[0].0 == key {
        Some(e[0].1)
    } else {
        skin_of(e.drop_first(), key)
    }
}

/// The key bound for `skin` in the registry (first match).
pub open spec fn key_of(e: Seq<(Seq<char>, Seq<char>)>, skin: Seq<char>) -> Option<Seq<char>>
    decreases e.len(),
{
    if e.len() == 0 {
        None
    } else if e[0].1 == skin {
        Some(e[0].0)
    } else {
        key_of(e.drop_first(), skin)
    }
}

/// The entries whose key differs from `key` and whose skin differs from
/// `skin`, in order.
pub open spec fn without_binding(
    e: Seq<(Seq<char>, Seq<char>)>,
    key: Seq<char>,
    skin: Seq<char>,
) -> Seq<(Seq<char>, Seq<char>)>
    decreases e.len(),
{
    if e.len() == 0 {
        e
    } else {
        let prev = without_binding(e.drop_last(), key, skin);
        if e.last().0 != key && e.last().1 != skin {
            prev.push(e.last())
        } else {
            prev
        }
    }
}

/// No key and no skin occurs twice.
pub open spec fn bindings_wf(e: Seq<(Seq<char>, Seq<char>)>) -> bool {
    forall|i: int, j: int|
        0 <= i < j < e.len() ==> #[trigger] e[i].0 != #[trigger] e[j].0 && e[i].1 != e[j].1
}

pub open spec fn opt_view(o: Option<String>) -> Option<Seq<char>> {
    match o {
        Some(s) => Some(s@),
        None => None,
    }
}

/// The action of a pressed hotkey: a skin hotkey first (it is the more
/// specific one), then the global hotkey.
pub open spec fn dispatch_action(
    skins: Seq<(Seq<char>, Seq<char>)>,
    registered: Option<Seq<char>>,
    key: Seq<char>,
) -> Option<Option<Seq<char>>> {
    match skin_of(skins, key) {
        Some(id) => Some(Some(id)),
        None => if registered == Some(key) {
            Some(None)
        } else {
            None
        },
    }
}

pub open spec fn action_model(a: HotkeyAction) -> Option<Option<Seq<char>>> {
    match a {
        HotkeyAction::ToggleSkin(id) => Some(Some(id@)),
        HotkeyAction::ToggleFocus => Some(None),
        HotkeyAction::Ignore => None,
    }
}

/// Whether `key` may be bound to `skin`: it is not the global hotkey and no
/// other skin holds it (re-binding a skin's own key is fine).
pub open spec fn binding_free(
    skins: Seq<(Seq<char>, Seq<char>)>,
    registered: Option<Seq<char>>,
    skin: Seq<char>,
    key: Seq<char>,
) -> bool {
    registered != Some(key) && match skin_of(skins, key) {
        Some(other) => other == skin,
        None => true,
    }
}

/// Registered hotkeys, by canonical display form: the global hotkey that
/// is actually registered, and the per-skin hotkeys (key → skin id).
pub struct HotkeyRegistry {
    registered: Option<String>,
    skin_hotkeys: Vec<(String, String)>,
}

proof fn lemma_skin_of_index(e: Seq<(Seq<char>, Seq<char>)>, key: Seq<char>)
    ensures
        match skin_of(e, key) {
            Some(id) => exists|i: int| 0 <= i < e.len() && e[i] == (key, id) && (forall|j: int| 0 <= j < i ==> #[trigger] e[j].0 != key),
            None => forall|i: int| 0 <= i < e.len() ==> #[trigger] e[i].0 != key,
        },
    decreases e.len(),
{
    if e.len() > 0 {
        lemma_skin_of_index(e.drop_first(), key);
        let d = e.drop_first();
        if e[0].0 == key {
            assert(e[0] == (key, e[0].1));
        } else {
            match skin_of(d, key) {
                Some(id) => {
                    let i = choose|i: int| 0 <= i < d.len() && d[i] == (key, id) && (forall|j: int| 0 <= j < i ==> #[trigger] d[j].0 != key);
                    assert(e[i + 1] == d[i]);
                    assert forall|j: int| 0 <= j < i + 1 implies #[trigger] e[j].0 != key by {
                        if j > 0 {
                            assert(e[j] == d[j - 1]);
                        }
                    }
                },
                None => {
                    assert forall|i: int| 0 <= i < e.len() implies #[trigger] e[i].0 != key by {
                        if i > 0 {
                            assert(e[i] == d[i - 1]);
                        }
                    }
                },
            }
        }
    }
}

proof fn lemma_key_of_index(e: Seq<(Seq<char>, Seq<char>)>, skin: Seq<char>)
    ensures
        match key_of(e, skin) {
            Some(k) => exists|i: int| 0 <= i < e.len() && e[i] == (k, skin),
            None => forall|i: int| 0 <= i < e.len() ==> #[trigger] e[i].1 != skin,
        },
    decreases e.len(),
{
    if e.len() > 0 {
        lemma_key_of_index(e.drop_first(), skin);
        let d = e.drop_first();
        if e[0].1 == skin {
            assert(e[0] == (e[0].0, skin));
        } else {
            match key_of(d, skin) {
                Some(k) => {
                    let i = choose|i: int| 0 <= i < d.len() && d[i] == (k, skin);
                    assert(e[i + 1] == d[i]);
                },
                None => {
                    assert forall|i: int| 0 <= i < e.len() implies #[trigger] e[i].1 != skin by {
                        if i > 0 {
                            assert(e[i] == d[i - 1]);
                        }
                    }
                },
            }
        }
    }
}

proof fn lemma_without_binding(e: Seq<(Seq<char>, Seq<char>)>, key: Seq<char>, skin: Seq<char>)
    ensures
        forall|i: int|
            0 <= i < without_binding(e, key, skin).len() ==> {
                let x = #[trigger] without_binding(e, key, skin)[i];
                x.0 != key && x.1 != skin && e.contains(x)
            },
        bindings_wf(e) ==> bindings_wf(without_binding(e, key, skin)),
        forall|i: int|
            0 <= i < e.len() && e[i].0 != key && e[i].1 != skin ==> without_binding(
                e,
                key,
                skin,
            ).contains(#[trigger] e[i]),
    decreases e.len(),
{
    if e.len() > 0 {
        let d = e.drop_last();
        lemma_without_binding(d, key, skin);
        let w = without_binding(e, key, skin);
        let wd = without_binding(d, key, skin);
        assert forall|i: int| 0 <= i < w.len() implies ({
            let x = #[trigger] w[i];
            x.0 != key && x.1 != skin && e.contains(x)
        }) by {
            if i < wd.len() {
                assert(w[i] == wd[i]);
                let x = wd[i];
                assert(x.0 != key && x.1 != skin && d.contains(x));
                let k = choose|k: int| 0 <= k < d.len() && d[k] == x;
                assert(e[k] == d[k]);
            } else {
                assert(e[e.len() - 1] == w[i]);
            }
        }
        if bindings_wf(e) {
            assert forall|i: int, j: int| 0 <= i < j < w.len() implies #[trigger] w[i].0
                != #[trigger] w[j].0 && w[i].1 != w[j].1 by {
                if j < wd.len() {
                    assert(w[i] == wd[i] && w[j] == wd[j]);
                    let x = wd[i];
                    let y = wd[j];
                    assert(x.0 != key && x.1 != skin && d.contains(x));
                    assert(y.0 != key && y.1 != skin && d.contains(y));
                    let a = choose|a: int| 0 <= a < d.len() && d[a] == x;
                    let b = choose|b: int| 0 <= b < d.len() && d[b] == y;
                    assert(e[a] == d[a] && e[b] == d[b]);
                    if a == b {
                        // two distinct positions of wd hold the same entry of d
                        lemma_without_binding_injective(d, key, skin, i, j);
                    }
                } else {
                    assert(w[i] == wd[i]);
                    let x = wd[i];
                    assert(x.0 != key && x.1 != skin && d.contains(x));
                    let a = choose|a: int| 0 <= a < d.len() && d[a] == x;
                    assert(e[a] == d[a]);
                    assert(w[j] == e[e.len() - 1]);
                }
            }
        }
        assert forall|i: int| 0 <= i < e.len() && e[i].0 != key && e[i].1 != skin implies w.contains(
            #[trigger] e[i],
        ) by {
            if i < d.len() {
                assert(d[i] == e[i]);
                assert(wd.contains(d[i]));
                let k = choose|k: int| 0 <= k < wd.len() && wd[k] == d[i];
                assert(w[k] == wd[k]);
            } else {
                assert(w[w.len() - 1] == e[i]);
            }
        }
    }
}

/// Distinct positions of the filtered sequence come from distinct positions
/// of the original one, so in a well-formed registry their entries differ.
proof fn lemma_without_binding_injective(
    e: Seq<(Seq<char>, Seq<char>)>,
    key: Seq<char>,
    skin: Seq<char>,
    i: int,
    j: int,
)
    requires
        bindings_wf(e),
        0 <= i < j < without_binding(e, key, skin).len(),
    ensures
        without_binding(e, key, skin)[i] != without_binding(e, key, skin)[j],
    decreases e.len(),
{
    let d = e.drop_last();
    let wd = without_binding(d, key, skin);
    let w = without_binding(e, key, skin);
    assert(bindings_wf(d)) by {
        assert forall|a: int, b: int| 0 <= a < b < d.len() implies #[trigger] d[a].0
            != #[trigger] d[b].0 && d[a].1 != d[b].1 by {
            assert(d[a] == e[a] && d[b] == e[b]);
        }
    }
    if j < wd.len() {
        lemma_without_binding_injective(d, key, skin, i, j);
    } else {
        lemma_without_binding(d, key, skin);
        let x = wd[i];
        assert(d.contains(x));
        let a = choose|a: int| 0 <= a < d.len() && d[a] == x;
        assert(e[a] == d[a]);
        assert(w[j] == e[e.len() - 1]);
        assert(e[a].0 != e[e.len() - 1].0);
    }
}

impl HotkeyRegistry {
    pub closed spec fn registered_view(&self) -> Option<Seq<char>> {
        opt_view(self.registered)
    }

    pub closed spec fn bindings(&self) -> Seq<(Seq<char>, Seq<char>)> {
        pairs_model(self.skin_hotkeys@)
    }

    /// Nothing registered.
    pub fn new() -> (r: HotkeyRegistry)
        ensures
            r.registered_view() is None,
            r.bindings().len() == 0,
    {
        let r = HotkeyRegistry { registered: None, skin_hotkeys: Vec::new() };
        assert(r.bindings() =~= Seq::<(Seq<char>, Seq<char>)>::empty());
        r
    }

    /// The global hotkey that is actually registered (display form).
    pub fn registered_combo(&self) -> (r: Option<String>)
        ensures
            opt_view(r) == self.registered_view(),
    {
        match &self.registered {
            Some(s) => Some(s.clone()),
            None => None,
        }
    }

    /// Records the global hotkey that is now registered (display form).
    pub fn set_registered_combo(&mut self, combo: Option<String>)
        ensures
            final(self).registered_view() == opt_view(combo),
            final(self).bindings() == old(self).bindings(),
    {
        self.registered = combo;
    }

    fn find_key(&self, key: &Vec<char>) -> (r: Option<usize>)
        ensures
            match r {
                Some(i) => i < self.bindings().len() && self.bindings()[i as int].0 == key@ && skin_of(
                    self.bindings(),
                    key@,
                ) == Some(self.bindings()[i as int].1),
                None => skin_of(self.bindings(), key@) is None,
            },
    {
        let ghost e = self.bindings();
        let mut i: usize = 0;
        assert(e.skip(0) =~= e);
        while i < self.skin_hotkeys.len()
            invariant
                i <= self.skin_hotkeys.len(),
                e == pairs_model(self.skin_hotkeys@),
                skin_of(e, key@) == skin_of(e.skip(i as int), key@),
            decreases self.skin_hotkeys.len() - i,
        {
            let c = chars_of(self.skin_hotkeys[i].0.as_str());
            assert(e.skip(i as int)[0] == e[i as int]);
            if chars_eq(&c, key) {
                return Some(i);
            }
            assert(e.skip(i as int).drop_first() =~= e.skip(i + 1));
            i = i + 1;
        }
        None
    }

    /// What pressing the hotkey with display form `key` does.
    pub fn dispatch(&self, key: &str) -> (a: HotkeyAction)
        ensures
            action_model(a) == dispatch_action(self.bindings(), self.registered_view(), key@),
    {
        let kv = chars_of(key);
        match self.find_key(&kv) {
            Some(i) => HotkeyAction::ToggleSkin(self.skin_hotkeys[i].1.clone()),
            None => {
                let hit = match &self.registered {
                    Some(r) => {
                        let rv = chars_of(r.as_str());
                        chars_eq(&rv, &kv)
                    },
                    None => false,
                };
                if hit {
                    HotkeyAction::ToggleFocus
                } else {
                    HotkeyAction::Ignore
                }
            },
        }
    }

    /// Checks that `key` may be bound to `skin_id`: the conflict message
    /// when it is the global hotkey or another skin's.
    pub fn check_skin_conflict(&self, skin_id: &str, key: &str, lang: &str) -> (r: Result<(), String>)
        ensures
            r is Ok <==> binding_free(self.bindings(), self.registered_view(), skin_id@, key@),
            match r {
                Err(e) => e@ == fill(tr_text(lang@, Key::HotkeyConflict), seq![key@]),
                Ok(_) => true,
            },
    {
        let kv = chars_of(key);
        let global = match &self.registered {
            Some(r) => {
                let rv = chars_of(r.as_str());
                chars_eq(&rv, &kv)
            },
            None => false,
        };
        let taken = if global {
            true
        } else {
            match self.find_key(&kv) {
                Some(i) => {
                    let other = chars_of(self.skin_hotkeys[i].1.as_str());
                    let sv = chars_of(skin_id);
                    !chars_eq(&other, &sv)
                },
                None => false,
            }
        };
        if taken {
            let args = [key];
            let m = trf(lang, Key::HotkeyConflict, &args);
            assert(arg_views(args@) =~= seq![key@]);
            Err(m)
        } else {
            Ok(())
        }
    }

    /// Removes the binding of `skin_id` and returns its key, if it had one.
    pub fn take_skin_hotkey(&mut self, skin_id: &str) -> (r: Option<String>)
        requires
            bindings_wf(old(self).bindings()),
        ensures
            opt_view(r) == key_of(old(self).bindings(), skin_id@),
            match r {
                Some(k) => final(self).bindings() == without_binding(old(self).bindings(), k@, skin_id@),
                None => final(self).bindings() == old(self).bindings(),
            },
            bindings_wf(final(self).bindings()),
            final(self).registered_view() == old(self).registered_view(),
            key_of(final(self).bindings(), skin_id@) is None,
    {
        let ghost e = self.bindings();
        let sv = chars_of(skin_id);
        let mut i: usize = 0;
        assert(e.skip(0) =~= e);
        while i < self.skin_hotkeys.len()
            invariant
                i <= self.skin_hotkeys.len(),
                e == pairs_model(self.skin_hotkeys@),
                e == old(self).bindings(),
                self.registered == old(self).registered,
                bindings_wf(e),
                sv@ == skin_id@,
                key_of(e, skin_id@) == key_of(e.skip(i as int), skin_id@),
            decreases self.skin_hotkeys.len() - i,
        {
            let c = chars_of(self.skin_hotkeys[i].1.as_str());
            assert(e.skip(i as int)[0] == e[i as int]);
            if chars_eq(&c, &sv) {
                let key = self.skin_hotkeys[i].0.clone();
                let kv = chars_of(key.as_str());
                self.remove_binding(&kv, &sv);
                return Some(key);
            }
            assert(e.skip(i as int).drop_first() =~= e.skip(i + 1));
            i = i + 1;
        }
        proof {
            assert(e.skip(e.len() as int).len() == 0);
            lemma_key_of_index(e, skin_id@);
        }
        None
    }

    fn remove_binding(&mut self, key: &Vec<char>, skin: &Vec<char>)
        requires
            bindings_wf(old(self).bindings()),
        ensures
            final(self).bindings() == without_binding(old(self).bindings(), key@, skin@),
            bindings_wf(final(self).bindings()),
            final(self).registered_view() == old(self).registered_view(),
            key_of(final(self).bindings(), skin@) is None,
            skin_of(final(self).bindings(), key@) is None,
    {
        let ghost e = self.bindings();
        let mut kept: Vec<(String, String)> = Vec::new();
        let mut i: usize = 0;
        assert(e.take(0) =~= Seq::<(Seq<char>, Seq<char>)>::empty());
        while i < self.skin_hotkeys.len()
            invariant
                i <= self.skin_hotkeys.len(),
                e == pairs_model(self.skin_hotkeys@),
                pairs_model(kept@) == without_binding(e.take(i as int), key@, skin@),
            decreases self.skin_hotkeys.len() - i,
        {
            let k = chars_of(self.skin_hotkeys[i].0.as_str());
            let s = chars_of(self.skin_hotkeys[i].1.as_str());
            assert(e.take(i + 1).drop_last() =~= e.take(i as int));
            assert(e.take(i + 1).last() == e[i as int]);
            if !chars_eq(&k, key) && !chars_eq(&s, skin) {
                let ghost before = pairs_model(kept@);
                kept.push((self.skin_hotkeys[i].0.clone(), self.skin_hotkeys[i].1.clone()));
                assert(pairs_model(kept@) =~= before.push(e[i as int]));
            }
            i = i + 1;
        }
        assert(e.take(self.skin_hotkeys.len() as int) =~= e);
        self.skin_hotkeys = kept;
        proof {
            lemma_without_binding(e, key@, skin@);
            let w = without_binding(e, key@, skin@);
            lemma_key_of_index(w, skin@);
            lemma_skin_of_index(w, key@);
            match key_of(w, skin@) {
                Some(k) => {
                    let i = choose|i: int| 0 <= i < w.len() && w[i] == (k, skin@);
                    assert(w[i].1 != skin@);
                },
                None => {},
            }
            match skin_of(w, key@) {
                Some(id) => {
                    let i = choose|i: int| 0 <= i < w.len() && w[i] == (key@, id) && (forall|j: int| 0 <= j < i ==> #[trigger] w[j].0 != key@);
                    assert(w[i].0 != key@);
                },
                None => {},
            }
        }
    }

    /// Binds `key` to `skin_id`, replacing any binding of either.
    pub fn bind_skin_hotkey(&mut self, key: &str, skin_id: &str)
        requires
            bindings_wf(old(self).bindings()),
        ensures
            final(self).bindings() == without_binding(old(self).bindings(), key@, skin_id@).push(
                (key@, skin_id@),
            ),
            bindings_wf(final(self).bindings()),
            final(self).registered_view() == old(self).registered_view(),
            skin_of(final(self).bindings(), key@) == Some(skin_id@),
            key_of(final(self).bindings(), skin_id@) == Some(key@),
    {
        let kv = chars_of(key);
        let sv = chars_of(skin_id);
        self.remove_binding(&kv, &sv);
        let ghost w = self.bindings();
        self.skin_hotkeys.push((string_of(&kv), string_of(&sv)));
        proof {
            let n = self.bindings();
            assert(n =~= w.push((key@, skin_id@)));
            lemma_without_binding(old(self).bindings(), key@, skin_id@);
            assert forall|i: int, j: int| 0 <= i < j < n.len() implies #[trigger] n[i].0
                != #[trigger] n[j].0 && n[i].1 != n[j].1 by {
                if j < w.len() {
                    assert(n[i] == w[i] && n[j] == w[j]);
                } else {
                    assert(n[i] == w[i]);
                }
            }
            lemma_skin_append(w, (key@, skin_id@));
        }
    }

    /// Drops every skin binding and returns the keys that were bound (to be
    /// unregistered), in order.
    pub fn clear_skin_hotkeys(&mut self) -> (keys: Vec<String>)
        ensures
            final(self).bindings().len() == 0,
            final(self).registered_view() == old(self).registered_view(),
            crate::text::strings_view(keys@) == old(self).bindings().map_values(
                |x: (Seq<char>, Seq<char>)| x.0,
            ),
    {
        let ghost e = self.bindings();
        let mut keys: Vec<String> = Vec::new();
        let mut i: usize = 0;
        while i < self.skin_hotkeys.len()
            invariant
                i <= self.skin_hotkeys.len(),
                e == pairs_model(self.skin_hotkeys@),
                crate::text::strings_view(keys@) == e.take(i as int).map_values(
                    |x: (Seq<char>, Seq<char>)| x.0,
                ),
            decreases self.skin_hotkeys.len() - i,
        {
            let ghost before = crate::text::strings_view(keys@);
            keys.push(self.skin_hotkeys[i].0.clone());
            assert(crate::text::strings_view(keys@) =~= before.push(e[i as int].0));
            assert(e.take(i + 1).map_values(|x: (Seq<char>, Seq<char>)| x.0) =~= e.take(
                i as int,
            ).map_values(|x: (Seq<char>, Seq<char>)| x.0).push(e[i as int].0));
            i = i + 1;
        }
        assert(e.take(e.len() as int) =~= e);
        self.skin_hotkeys = Vec::new();
        assert(self.bindings() =~= Seq::<(Seq<char>, Seq<char>)>::empty());
        keys
    }
}

proof fn lemma_skin_append(w: Seq<(Seq<char>, Seq<char>)>, x: (Seq<char>, Seq<char>))
    requires
        skin_of(w, x.0) is None,
        key_of(w, x.1) is None,
    ensures
        skin_of(w.push(x), x.0) == Some(x.1),
        key_of(w.push(x), x.1) == Some(x.0),
    decreases w.len(),
{
    if w.len() == 0 {
        assert(w.push(x)[0] == x);
    } else {
        lemma_skin_append(w.drop_first(), x);
        assert(w.push(x).drop_first() =~= w.drop_first().push(x));
        assert(w.push(x)[0] == w[0]);
    }
}

/// Whether applying the combo `combo` (already trimmed) as the global
/// hotkey changes nothing: the combo equals the configured one and the
/// hotkey it parses to is the one actually registered.  A combo that failed
/// to register at startup is applied again, not short-circuited.
pub open spec fn apply_is_noop(
    combo: Seq<char>,
    configured: Seq<char>,
    registered: Option<Seq<char>>,
    new_key: Option<Seq<char>>,
) -> bool {
    combo == configured && registered == new_key
}

/// The global hotkey recorded after a failed registration of a new combo:
/// the previous one when it is still (or again) registered, else none.
pub open spec fn registered_after_failure(restored: bool, previous: Option<Seq<char>>) -> Option<
    Seq<char>,
> {
    if restored {
        previous
    } else {
        None
    }
}

/// Decides whether applying `combo` as the global hotkey can be skipped.
pub fn apply_unchanged(
    reg: &HotkeyRegistry,
    combo: &str,
    configured: &str,
    new_key: Option<&str>,
) -> (b: bool)
    ensures
        b == apply_is_noop(
            combo@,
            configured@,
            reg.registered_view(),
            match new_key {
                Some(k) => Some(k@),
                None => None,
            },
        ),
{
    let c = chars_of(combo);
    let o = chars_of(configured);
    if !chars_eq(&c, &o) {
        return false;
    }
    match (reg.registered_combo(), new_key) {
        (Some(r), Some(k)) => {
            let rv = chars_of(r.as_str());
            let kv = chars_of(k);
            chars_eq(&rv, &kv)
        },
        (None, None) => true,
        _ => false,
    }
}

/// Records the outcome of a failed registration: `restored` tells whether
/// the previous hotkey still works (its unregistration failed, or it was
/// registered again).
pub fn settle_failed_apply(reg: &mut HotkeyRegistry, restored: bool, previous: Option<String>)
    ensures
        final(reg).registered_view() == registered_after_failure(restored, opt_view(previous)),
        final(reg).bindings() == old(reg).bindings(),
{
    reg.set_registered_combo(if restored {
        previous
    } else {
        None
    });
}

/// A skin hotkey once bound wins over the global hotkey, and while it is
/// bound no other skin can take it.
pub proof fn law_skin_binding_dispatches(
    e: Seq<(Seq<char>, Seq<char>)>,
    registered: Option<Seq<char>>,
    key: Seq<char>,
    skin: Seq<char>,
    other: Seq<char>,
)
    requires
        bindings_wf(e),
        other != skin,
    ensures
        dispatch_action(without_binding(e, key, skin).push((key, skin)), registered, key) == Some(
            Some(skin),
        ),
        !binding_free(without_binding(e, key, skin).push((key, skin)), registered, other, key),
{
    let w = without_binding(e, key, skin);
    lemma_without_binding(e, key, skin);
    lemma_skin_of_index(w, key);
    lemma_key_of_index(w, skin);
    match skin_of(w, key) {
        Some(id) => {
            let i = choose|i: int| 0 <= i < w.len() && w[i] == (key, id) && (forall|j: int| 0 <= j < i ==> #[trigger] w[j].0 != key);
            assert(w[i].0 != key);
        },
        None => {},
    }
    match key_of(w, skin) {
        Some(k) => {
            let i = choose|i: int| 0 <= i < w.len() && w[i] == (k, skin);
            assert(w[i].1 != skin);
        },
        None => {},
    }
    lemma_skin_append(w, (key, skin));
}

} // verus!
