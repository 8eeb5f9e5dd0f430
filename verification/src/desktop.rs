//! "On desktop" pinning: the bookkeeping of pinned skin windows and the
//! decisions of the loop that keeps them glued to the desktop layer.  The
//! window-system calls themselves are made by the caller.

use vstd::prelude::*;
use crate::text::{chars_eq, chars_of};

verus! {

pub open spec fn pins_view(v: Seq<(String, isize)>) -> Seq<(Seq<char>, isize)> {
    v.map_values(|e: (String, isize)| (e.0@, e.1))
}

/// The pins of the skins other than `id`, in order.
pub open spec fn without_skin(e: Seq<(Seq<char>, isize)>, id: Seq<char>) -> Seq<(Seq<char>, isize)>
    decreases e.len(),
{
    if e.len() == 0 {
        e
    } else {
        let prev = without_skin(e.drop_last(), id);
        if e.last().0 != id {
            prev.push(e.last())
        } else {
            prev
        }
    }
}

/// The pins that are not among `dead` (matched by id and window handle
/// together), in order.
pub open spec fn without_dead(e: Seq<(Seq<char>, isize)>, dead: Seq<(Seq<char>, isize)>) -> Seq<
    (Seq<char>, isize),
>
    decreases e.len(),
{
    if e.len() == 0 {
        e
    } else {
        let prev = without_dead(e.drop_last(), dead);
        if !dead.contains(e.last()) {
            prev.push(e.last())
        } else {
            prev
        }
    }
}

/// No skin is pinned twice.
pub open spec fn one_pin_per_skin(e: Seq<(Seq<char>, isize)>) -> bool {
    forall|i: int, j: int| 0 <= i < j < e.len() ==> #[trigger] e[i].0 != #[trigger] e[j].0
}

/// The pinned skin windows: skin id and window handle.
pub struct Pinner {
    skins: Vec<(String, isize)>,
}

proof fn lemma_without_skin(e: Seq<(Seq<char>, isize)>, id: Seq<char>)
    ensures
        forall|i: int|
            0 <= i < without_skin(e, id).len() ==> #[trigger] without_skin(e, id)[i].0 != id
                && e.contains(without_skin(e, id)[i]),
        one_pin_per_skin(e) ==> one_pin_per_skin(without_skin(e, id)),
    decreases e.len(),
{
    if e.len() > 0 {
        let d = e.drop_last();
        lemma_without_skin(d, id);
        let w = without_skin(e, id);
        let wd = without_skin(d, id);
        assert forall|i: int| 0 <= i < w.len() implies #[trigger] w[i].0 != id && e.contains(w[i]) by {
            if i < wd.len() {
                assert(w[i] == wd[i]);
                assert(wd[i].0 != id);
                assert(d.contains(wd[i]));
                let k = choose|k: int| 0 <= k < d.len() && d[k] == wd[i];
                assert(e[k] == d[k]);
            } else {
                assert(e[e.len() - 1] == w[i]);
            }
        }
        if one_pin_per_skin(e) {
            assert(one_pin_per_skin(d)) by {
                assert forall|i: int, j: int| 0 <= i < j < d.len() implies #[trigger] d[i].0
                    != #[trigger] d[j].0 by {
                    assert(d[i] == e[i] && d[j] == e[j]);
                }
            }
            assert forall|i: int, j: int| 0 <= i < j < w.len() implies #[trigger] w[i].0
                != #[trigger] w[j].0 by {
                if j < wd.len() {
                    assert(w[i] == wd[i] && w[j] == wd[j]);
                } else {
                    assert(w[i] == wd[i]);
                    assert(wd[i].0 != id);
                    assert(d.contains(wd[i]));
                    let k = choose|k: int| 0 <= k < d.len() && d[k] == wd[i];
                    assert(e[k] == d[k]);
                    assert(w[j] == e[e.len() - 1]);
                }
            }
        }
    }
}

proof fn lemma_without_dead(e: Seq<(Seq<char>, isize)>, dead: Seq<(Seq<char>, isize)>)
    ensures
        forall|i: int|
            0 <= i < without_dead(e, dead).len() ==> e.contains(#[trigger] without_dead(e, dead)[i])
                && !dead.contains(without_dead(e, dead)[i]),
        one_pin_per_skin(e) ==> one_pin_per_skin(without_dead(e, dead)),
    decreases e.len(),
{
    if e.len() > 0 {
        let d = e.drop_last();
        lemma_without_dead(d, dead);
        let w = without_dead(e, dead);
        let wd = without_dead(d, dead);
        assert forall|i: int| 0 <= i < w.len() implies e.contains(#[trigger] w[i]) && !dead.contains(
            w[i],
        ) by {
            if i < wd.len() {
                assert(w[i] == wd[i]);
                assert(d.contains(wd[i]));
                let k = choose|k: int| 0 <= k < d.len() && d[k] == wd[i];
                assert(e[k] == d[k]);
            } else {
                assert(e[e.len() - 1] == w[i]);
            }
        }
        if one_pin_per_skin(e) {
            assert(one_pin_per_skin(d)) by {
                assert forall|i: int, j: int| 0 <= i < j < d.len() implies #[trigger] d[i].0
                    != #[trigger] d[j].0 by {
                    assert(d[i] == e[i] && d[j] == e[j]);
                }
            }
            assert forall|i: int, j: int| 0 <= i < j < w.len() implies #[trigger] w[i].0
                != #[trigger] w[j].0 by {
                if j < wd.len() {
                    assert(w[i] == wd[i] && w[j] == wd[j]);
                } else {
                    assert(w[i] == wd[i]);
                    assert(d.contains(wd[i]));
                    let k = choose|k: int| 0 <= k < d.len() && d[k] == wd[i];
                    assert(e[k] == d[k]);
                    assert(w[j] == e[e.len() - 1]);
                }
            }
        }
    }
}

impl Pinner {
    pub closed spec fn pins(&self) -> Seq<(Seq<char>, isize)> {
        pins_view(self.skins@)
    }

    /// Nothing pinned.
    pub fn new() -> (p: Pinner)
        ensures
            p.pins().len() == 0,
    {
        let p = Pinner { skins: Vec::new() };
        assert(p.pins() =~= Seq::<(Seq<char>, isize)>::empty());
        p
    }

    fn remove_skin(&mut self, id: &str)
        ensures
            final(self).pins() == without_skin(old(self).pins(), id@),
    {
        let idv = chars_of(id);
        let ghost e = self.pins();
        let mut kept: Vec<(String, isize)> = Vec::new();
        let mut i: usize = 0;
        assert(e.take(0) =~= Seq::<(Seq<char>, isize)>::empty());
        while i < self.skins.len()
            invariant
                i <= self.skins.len(),
                e == pins_view(self.skins@),
                idv@ == id@,
                pins_view(kept@) == without_skin(e.take(i as int), id@),
            decreases self.skins.len() - i,
        {
            assert(e.take(i + 1).drop_last() =~= e.take(i as int));
            assert(e.take(i + 1).last() == e[i as int]);
            let c = chars_of(self.skins[i].0.as_str());
            if !chars_eq(&c, &idv) {
                let ghost before = pins_view(kept@);
                kept.push((self.skins[i].0.clone(), self.skins[i].1));
                assert(pins_view(kept@) =~= before.push(e[i as int]));
            }
            i = i + 1;
        }
        assert(e.take(self.skins.len() as int) =~= e);
        self.skins = kept;
    }

    /// Pins skin `skin_id` with window `skin_hwnd`, replacing an earlier
    /// pin of the same skin.
    pub fn pin(&mut self, skin_id: &str, skin_hwnd: isize)
        ensures
            final(self).pins() == without_skin(old(self).pins(), skin_id@).push((skin_id@, skin_hwnd)),
            one_pin_per_skin(old(self).pins()) ==> one_pin_per_skin(final(self).pins()),
    {
        self.remove_skin(skin_id);
        let ghost w = self.pins();
        self.skins.push((skin_id.to_string(), skin_hwnd));
        proof {
            let n = self.pins();
            assert(n =~= w.push((skin_id@, skin_hwnd)));
            lemma_without_skin(old(self).pins(), skin_id@);
            if one_pin_per_skin(old(self).pins()) {
                assert forall|i: int, j: int| 0 <= i < j < n.len() implies #[trigger] n[i].0
                    != #[trigger] n[j].0 by {
                    if j < w.len() {
                        assert(n[i] == w[i] && n[j] == w[j]);
                    } else {
                        assert(n[i] == w[i]);
                    }
                }
            }
        }
    }

    /// Unpins skin `skin_id` (its window handle is only needed by the
    /// caller, to restore the window's styles).
    pub fn unpin(&mut self, skin_id: &str, skin_hwnd: isize)
        ensures
            final(self).pins() == without_skin(old(self).pins(), skin_id@),
            one_pin_per_skin(old(self).pins()) ==> one_pin_per_skin(final(self).pins()),
    {
        self.remove_skin(skin_id);
        proof {
            lemma_without_skin(old(self).pins(), skin_id@);
        }
    }

    /// The pinned skins, for one pass of the enforcement loop.
    pub fn pinned(&self) -> (r: Vec<(String, isize)>)
        ensures
            pins_view(r@) == self.pins(),
    {
        let mut out: Vec<(String, isize)> = Vec::new();
        let mut i: usize = 0;
        while i < self.skins.len()
            invariant
                i <= self.skins.len(),
                pins_view(out@) == pins_view(self.skins@).take(i as int),
            decreases self.skins.len() - i,
        {
            let ghost before = pins_view(out@);
            out.push((self.skins[i].0.clone(), self.skins[i].1));
            assert(pins_view(out@) =~= before.push(pins_view(self.skins@)[i as int]));
            assert(pins_view(self.skins@).take(i + 1) =~= pins_view(self.skins@).take(i as int).push(
                pins_view(self.skins@)[i as int],
            ));
            i = i + 1;
        }
        assert(pins_view(self.skins@).take(self.skins.len() as int) =~= pins_view(self.skins@));
        out
    }

    /// Drops the pins whose windows died, matching id and handle together:
    /// a skin re-pinned with a new window meanwhile keeps its fresh pin.
    pub fn reap(&mut self, dead: &Vec<(String, isize)>)
        ensures
            final(self).pins() == without_dead(old(self).pins(), pins_view(dead@)),
            one_pin_per_skin(old(self).pins()) ==> one_pin_per_skin(final(self).pins()),
    {
        let ghost e = self.pins();
        let ghost dv = pins_view(dead@);
        let mut kept: Vec<(String, isize)> = Vec::new();
        let mut i: usize = 0;
        assert(e.take(0) =~= Seq::<(Seq<char>, isize)>::empty());
        while i < self.skins.len()
            invariant
                i <= self.skins.len(),
                e == pins_view(self.skins@),
                dv == pins_view(dead@),
                pins_view(kept@) == without_dead(e.take(i as int), dv),
            decreases self.skins.len() - i,
        {
            assert(e.take(i + 1).drop_last() =~= e.take(i as int));
            assert(e.take(i + 1).last() == e[i as int]);
            let c = chars_of(self.skins[i].0.as_str());
            let h = self.skins[i].1;
            let mut hit = false;
            let mut k: usize = 0;
            while k < dead.len()
                invariant
                    k <= dead.len(),
                    dv == pins_view(dead@),
                    c@ == e[i as int].0,
                    h == e[i as int].1,
                    hit <==> exists|m: int| 0 <= m < k && dv[m] == e[i as int],
                decreases dead.len() - k,
            {
                let dc = chars_of(dead[k].0.as_str());
                if dead[k].1 == h && chars_eq(&dc, &c) {
                    assert(dv[k as int] == e[i as int]);
                    hit = true;
                }
                k = k + 1;
            }
            if !hit {
                let ghost before = pins_view(kept@);
                kept.push((self.skins[i].0.clone(), h));
                assert(pins_view(kept@) =~= before.push(e[i as int]));
            }
            i = i + 1;
        }
        assert(e.take(self.skins.len() as int) =~= e);
        self.skins = kept;
        proof {
            lemma_without_dead(e, dv);
        }
    }
}

/// Unpinning a skin right after pinning it leaves no pin of it.
pub proof fn law_pin_then_unpin(e: Seq<(Seq<char>, isize)>, id: Seq<char>, hwnd: isize)
    ensures
        forall|i: int|
            0 <= i < without_skin(without_skin(e, id).push((id, hwnd)), id).len() ==> (#[trigger] without_skin(
                without_skin(e, id).push((id, hwnd)),
                id,
            )[i]).0 != id,
{
    lemma_without_skin(without_skin(e, id).push((id, hwnd)), id);
}

/// A pinned skin is in place when the window directly below it is the
/// desktop-icons host or another pinned skin (pinned skins stack above the
/// host).  `next` is 0 when there is no window below.
pub open spec fn glued(next: isize, host: isize, pinned_hwnds: Seq<isize>) -> bool {
    next != 0 && (next == host || pinned_hwnds.contains(next))
}

pub open spec fn pin_hwnds(e: Seq<(Seq<char>, isize)>) -> Seq<isize> {
    e.map_values(|x: (Seq<char>, isize)| x.1)
}

/// Whether a pinned skin is already in place.
pub fn in_place(next: isize, host: isize, pinned: &Vec<(String, isize)>) -> (b: bool)
    ensures
        b == glued(next, host, pin_hwnds(pins_view(pinned@))),
{
    let ghost hs = pin_hwnds(pins_view(pinned@));
    if next == 0 {
        return false;
    }
    if next == host {
        return true;
    }
    let mut i: usize = 0;
    while i < pinned.len()
        invariant
            i <= pinned.len(),
            hs == pin_hwnds(pins_view(pinned@)),
            next != 0,
            forall|j: int| 0 <= j < i ==> hs[j] != next,
        decreases pinned.len() - i,
    {
        if pinned[i].1 == next {
            assert(hs[i as int] == next);
            return true;
        }
        i = i + 1;
    }
    assert(hs.len() == pinned.len());
    false
}

/// Where a misplaced skin is re-inserted: right after the window currently
/// directly above the host (`prev`, 0 when the host tops the z-order, then
/// at the top), unless that window is the skin itself.
pub open spec fn insert_after(prev: isize, skin: isize, top: isize) -> Option<isize> {
    let after = if prev == 0 {
        top
    } else {
        prev
    };
    if after == skin {
        None
    } else {
        Some(after)
    }
}

/// The window to insert a misplaced skin after; `None` when it is already
/// directly above the host.
pub fn insertion_point(prev: isize, skin: isize, top: isize) -> (r: Option<isize>)
    ensures
        r == insert_after(prev, skin, top),
{
    let after = if prev == 0 {
        top
    } else {
        prev
    };
    if after == skin {
        None
    } else {
        Some(after)
    }
}

} // verus!
