//! .dskin / .zip skin packages: version comparison, preview header probing
//! and the checks that decide whether a package may be installed.

use vstd::prelude::*;
use crate::i18n::{fill, tr, tr_text, trf, Key};
use crate::skin::loader::{
    invalid_entry_message, is_valid_entry_name, valid_entry_name, valid_skin_id, validate_skin_id,
};
use crate::skin::types::{opt_str_view, url_entry, SkinManifest};
use crate::text::{
    all_digits, ascii_lower_chars, ascii_lower_seq, chars_of, chars_eq, decimal, ends_with,
    ends_with_exec, split_exec, split_on, parse_uint, starts_with, starts_with_exec, uint_value,
    views, u64_to_decimal,
};

verus! {

/// How a package's version relates to the installed one.
#[derive(Debug, Clone, Copy, PartialEq, Eq, Structural)]
pub enum VersionRelation {
    Same,
    Newer,
    Older,
}

/// `s` without its leading 'v' characters.
pub open spec fn strip_v(s: Seq<char>) -> Seq<char>
    decreases s.len(),
{
    if s.len() > 0 && s[0] == 'v' {
        strip_v(s.drop_first())
    } else {
        s
    }
}

/// Dot-separated numeric parts of a version ("v1.2.3" → [1, 2, 3]); `None`
/// when any part is not an unsigned 64-bit number.
pub open spec fn version_parts(s: Seq<char>) -> Option<Seq<nat>> {
    let pieces = split_on(strip_v(s), '.');
    if forall|i: int| 0 <= i < pieces.len() ==> (#[trigger] uint_value(pieces[i], u64::MAX as nat)) is Some {
        Some(Seq::new(pieces.len(), |i: int| uint_value(pieces[i], u64::MAX as nat)->Some_0))
    } else {
        None
    }
}

/// Part `i` of a version, zero past its end.
pub open spec fn part_at(p: Seq<nat>, i: int) -> nat {
    if 0 <= i < p.len() {
        p[i]
    } else {
        0
    }
}

pub open spec fn max_len(a: Seq<nat>, b: Seq<nat>) -> int {
    if a.len() >= b.len() {
        a.len() as int
    } else {
        b.len() as int
    }
}

/// Compares two part lists from position `i` on, the shorter one padded
/// with zeros.
pub open spec fn parts_relation_from(a: Seq<nat>, b: Seq<nat>, i: int) -> VersionRelation
    decreases max_len(a, b) - i,
{
    if i >= max_len(a, b) {
        VersionRelation::Same
    } else if part_at(a, i) != part_at(b, i) {
        if part_at(a, i) > part_at(b, i) {
            VersionRelation::Newer
        } else {
            VersionRelation::Older
        }
    } else {
        parts_relation_from(a, b, i + 1)
    }
}

/// How version `a` relates to version `b`: numerically part by part when
/// both parse, otherwise by text (equal text = Same, different = Newer); a
/// missing version is older than any present one.
pub open spec fn version_relation(a: Option<Seq<char>>, b: Option<Seq<char>>) -> VersionRelation {
    match (a, b) {
        (Some(x), Some(y)) => match (version_parts(x), version_parts(y)) {
            (Some(pa), Some(pb)) => parts_relation_from(pa, pb, 0),
            _ => if x == y {
                VersionRelation::Same
            } else {
                VersionRelation::Newer
            },
        },
        (Some(_), None) => VersionRelation::Newer,
        (None, Some(_)) => VersionRelation::Older,
        (None, None) => VersionRelation::Same,
    }
}

pub open spec fn opt_view(o: Option<&str>) -> Option<Seq<char>> {
    match o {
        Some(s) => Some(s@),
        None => None,
    }
}

fn strip_v_exec(v: &Vec<char>) -> (r: Vec<char>)
    ensures
        r@ == strip_v(v@),
{
    let mut i: usize = 0;
    assert(v@.skip(0) =~= v@);
    while i < v.len() && v[i] == 'v'
        invariant
            i <= v.len(),
            strip_v(v@) == strip_v(v@.skip(i as int)),
        decreases v.len() - i,
    {
        assert(v@.skip(i as int).drop_first() =~= v@.skip(i + 1));
        i = i + 1;
    }
    let mut r: Vec<char> = Vec::new();
    let mut j: usize = i;
    while j < v.len()
        invariant
            i <= j <= v.len(),
            r@ == v@.subrange(i as int, j as int),
        decreases v.len() - j,
    {
        r.push(v[j]);
        j = j + 1;
        assert(r@ =~= v@.subrange(i as int, j as int));
    }
    assert(r@ =~= v@.skip(i as int));
    r
}

fn version_parts_exec(s: &str) -> (r: Option<Vec<u64>>)
    ensures
        match r {
            Some(p) => version_parts(s@) == Some(p@.map_values(|x: u64| x as nat)),
            None => version_parts(s@) is None,
        },
{
    let v = chars_of(s);
    let stripped = strip_v_exec(&v);
    let pieces = split_exec(&stripped, '.');
    let ghost ps = split_on(strip_v(s@), '.');
    let mut out: Vec<u64> = Vec::new();
    let mut i: usize = 0;
    while i < pieces.len()
        invariant
            views(pieces@) == ps,
            ps == split_on(strip_v(s@), '.'),
            i <= pieces.len(),
            out@.len() == i,
            forall|j: int| 0 <= j < i ==> uint_value(ps[j], u64::MAX as nat) == Some(#[trigger] out@[j] as nat),
        decreases pieces.len() - i,
    {
        match parse_uint(&pieces[i], 0xffff_ffff_ffff_ffffu64) {
            Some(n) => {
                out.push(n);
            },
            None => {
                assert(uint_value(ps[i as int], u64::MAX as nat) is None);
                return None;
            },
        }
        i = i + 1;
    }
    assert forall|k: int| 0 <= k < ps.len() implies (#[trigger] uint_value(ps[k], u64::MAX as nat)) is Some by {
        assert(uint_value(ps[k], u64::MAX as nat) == Some(out@[k] as nat));
    }
    assert(Seq::new(ps.len(), |k: int| uint_value(ps[k], u64::MAX as nat)->Some_0) =~= out@.map_values(
        |x: u64| x as nat,
    ));
    Some(out)
}

/// Compare two version strings: dot-separated numeric parts compared part
/// by part (missing parts count as 0, a leading "v" is ignored); when
/// either does not parse, equal text is Same and different text Newer.
pub fn compare_versions(a: Option<&str>, b: Option<&str>) -> (r: VersionRelation)
    ensures
        r == version_relation(opt_view(a), opt_view(b)),
{
    match (a, b) {
        (Some(x), Some(y)) => {
            match (version_parts_exec(x), version_parts_exec(y)) {
                (Some(pa), Some(pb)) => {
                    let ghost ma = pa@.map_values(|v: u64| v as nat);
                    let ghost mb = pb@.map_values(|v: u64| v as nat);
                    let n = if pa.len() >= pb.len() {
                        pa.len()
                    } else {
                        pb.len()
                    };
                    let mut i: usize = 0;
                    assert(version_relation(opt_view(a), opt_view(b)) == parts_relation_from(ma, mb, 0));
                    while i < n
                        invariant
                            version_relation(opt_view(a), opt_view(b)) == parts_relation_from(ma, mb, 0),
                            n == max_len(ma, mb),
                            ma.len() == pa.len(),
                            mb.len() == pb.len(),
                            forall|k: int| 0 <= k < pa.len() ==> ma[k] == pa@[k] as nat,
                            forall|k: int| 0 <= k < pb.len() ==> mb[k] == pb@[k] as nat,
                            i <= n,
                            parts_relation_from(ma, mb, 0) == parts_relation_from(ma, mb, i as int),
                        decreases n - i,
                    {
                        let x = if i < pa.len() {
                            pa[i]
                        } else {
                            0
                        };
                        let y = if i < pb.len() {
                            pb[i]
                        } else {
                            0
                        };
                        assert(x as nat == part_at(ma, i as int));
                        assert(y as nat == part_at(mb, i as int));
                        if x != y {
                            assert(parts_relation_from(ma, mb, i as int) == (if x > y {
                                VersionRelation::Newer
                            } else {
                                VersionRelation::Older
                            }));
                            return if x > y {
                                VersionRelation::Newer
                            } else {
                                VersionRelation::Older
                            };
                        }
                        i = i + 1;
                    }
                    VersionRelation::Same
                },
                _ => {
                    if crate::text::str_eq(x, y) {
                        VersionRelation::Same
                    } else {
                        VersionRelation::Newer
                    }
                },
            }
        },
        (Some(_), None) => VersionRelation::Newer,
        (None, Some(_)) => VersionRelation::Older,
        (None, None) => VersionRelation::Same,
    }
}


proof fn lemma_parts_reflexive(p: Seq<nat>, i: int)
    ensures
        parts_relation_from(p, p, i) == VersionRelation::Same,
    decreases max_len(p, p) - i,
{
    if i < max_len(p, p) {
        lemma_parts_reflexive(p, i + 1);
    }
}

proof fn lemma_parts_antisymmetric(a: Seq<nat>, b: Seq<nat>, i: int)
    ensures
        parts_relation_from(a, b, i) == VersionRelation::Newer <==> parts_relation_from(b, a, i)
            == VersionRelation::Older,
        parts_relation_from(a, b, i) == VersionRelation::Same <==> parts_relation_from(b, a, i)
            == VersionRelation::Same,
    decreases max_len(a, b) - i,
{
    if i < max_len(a, b) && part_at(a, i) == part_at(b, i) {
        lemma_parts_antisymmetric(a, b, i + 1);
    }
}

/// Every version is the same as itself.
pub proof fn law_version_reflexive(v: Option<Seq<char>>)
    ensures
        version_relation(v, v) == VersionRelation::Same,
{
    if let Some(x) = v {
        if let Some(p) = version_parts(x) {
            lemma_parts_reflexive(p, 0);
        }
    }
}

/// Comparison is antisymmetric wherever it is numeric (both versions parse)
/// or a version is missing: `a` is newer than `b` exactly when `b` is older
/// than `a`, and the same exactly when `b` is the same as `a`.
pub proof fn law_version_antisymmetric(a: Option<Seq<char>>, b: Option<Seq<char>>)
    requires
        a is None || b is None || (version_parts(a->Some_0) is Some && version_parts(
            b->Some_0,
        ) is Some),
    ensures
        version_relation(a, b) == VersionRelation::Newer <==> version_relation(b, a)
            == VersionRelation::Older,
        version_relation(a, b) == VersionRelation::Same <==> version_relation(b, a)
            == VersionRelation::Same,
{
    if a is Some && b is Some {
        let pa = version_parts(a->Some_0)->Some_0;
        let pb = version_parts(b->Some_0)->Some_0;
        lemma_parts_antisymmetric(pa, pb, 0);
    }
}

/// Trailing zero parts do not change a version: "1.0" and "1.0.0" compare
/// equal, in either order.
pub proof fn law_trailing_zero_parts(a: Seq<nat>, b: Seq<nat>, i: int)
    requires
        a.len() <= b.len(),
        forall|k: int| 0 <= k < a.len() ==> a[k] == b[k],
        forall|k: int| a.len() <= k < b.len() ==> b[k] == 0,
    ensures
        parts_relation_from(a, b, i) == VersionRelation::Same,
    decreases max_len(a, b) - i,
{
    if i < max_len(a, b) {
        law_trailing_zero_parts(a, b, i + 1);
    }
}


/// `a` is ahead of `b` at position `k`: equal parts from `i` up to `k`,
/// and a larger part at `k`.
pub open spec fn ahead_at(a: Seq<nat>, b: Seq<nat>, i: int, k: int) -> bool {
    &&& i <= k
    &&& part_at(a, k) > part_at(b, k)
    &&& forall|j: int| i <= j < k ==> #[trigger] part_at(a, j) == part_at(b, j)
}

/// Newer from `i` on means ahead at some position.
proof fn lemma_newer_has_position(a: Seq<nat>, b: Seq<nat>, i: int) -> (k: int)
    requires
        parts_relation_from(a, b, i) == VersionRelation::Newer,
    ensures
        ahead_at(a, b, i, k),
    decreases max_len(a, b) - i,
{
    if part_at(a, i) != part_at(b, i) {
        i
    } else {
        let k = lemma_newer_has_position(a, b, i + 1);
        assert forall|j: int| i <= j < k implies #[trigger] part_at(a, j) == part_at(b, j) by {
            if j > i {
                assert(i + 1 <= j < k);
            }
        }
        k
    }
}

/// Being ahead at some position means newer.
proof fn lemma_position_is_newer(a: Seq<nat>, b: Seq<nat>, i: int, k: int)
    requires
        ahead_at(a, b, i, k),
    ensures
        parts_relation_from(a, b, i) == VersionRelation::Newer,
    decreases k - i,
{
    assert(k < max_len(a, b));
    if i < k {
        assert(part_at(a, i) == part_at(b, i));
        lemma_position_is_newer(a, b, i + 1, k);
    }
}

/// Numeric comparison is transitive: newer than newer is newer.
proof fn lemma_parts_transitive(a: Seq<nat>, b: Seq<nat>, c: Seq<nat>)
    requires
        parts_relation_from(a, b, 0) == VersionRelation::Newer,
        parts_relation_from(b, c, 0) == VersionRelation::Newer,
    ensures
        parts_relation_from(a, c, 0) == VersionRelation::Newer,
{
    let k1 = lemma_newer_has_position(a, b, 0);
    let k2 = lemma_newer_has_position(b, c, 0);
    let k = if k1 <= k2 {
        k1
    } else {
        k2
    };
    assert forall|j: int| 0 <= j < k implies #[trigger] part_at(a, j) == part_at(c, j) by {
        assert(part_at(a, j) == part_at(b, j));
        assert(part_at(b, j) == part_at(c, j));
    }
    if k1 < k2 {
        assert(part_at(b, k1) == part_at(c, k1));
    } else if k2 < k1 {
        assert(part_at(a, k2) == part_at(b, k2));
    }
    lemma_position_is_newer(a, c, 0, k);
}

/// Comparison is transitive wherever it is numeric or a version is missing:
/// a version newer than one that is newer than a third is newer than the
/// third.
pub proof fn law_version_transitive(a: Option<Seq<char>>, b: Option<Seq<char>>, c: Option<Seq<char>>)
    requires
        a is None || version_parts(a->Some_0) is Some,
        b is None || version_parts(b->Some_0) is Some,
        c is None || version_parts(c->Some_0) is Some,
        version_relation(a, b) == VersionRelation::Newer,
        version_relation(b, c) == VersionRelation::Newer,
    ensures
        version_relation(a, c) == VersionRelation::Newer,
{
    if a is Some && b is Some && c is Some {
        lemma_parts_transitive(
            version_parts(a->Some_0)->Some_0,
            version_parts(b->Some_0)->Some_0,
            version_parts(c->Some_0)->Some_0,
        );
    }
}

// ─── Preview image headers ───────────────────────────────────────────────

/// Largest side of an author-supplied preview image, in pixels.
pub const MAX_PREVIEW_DIMENSION: u32 = 1280;

/// Big-endian 32-bit value of four bytes.
pub open spec fn be32(a: u8, b: u8, c: u8, d: u8) -> nat {
    a as nat * 16777216 + b as nat * 65536 + c as nat * 256 + d as nat
}

/// Big-endian 16-bit value of two bytes.
pub open spec fn be16(a: u8, b: u8) -> nat {
    a as nat * 256 + b as nat
}

pub open spec fn png_signature() -> Seq<u8> {
    seq![0x89u8, 0x50u8, 0x4eu8, 0x47u8, 0x0du8, 0x0au8, 0x1au8, 0x0au8]
}

pub open spec fn ihdr() -> Seq<u8> {
    seq![0x49u8, 0x48u8, 0x44u8, 0x52u8]
}

/// Width and height from a PNG header: the signature, then the IHDR chunk
/// (always first) whose payload starts with width and height; zero sizes
/// are rejected.
pub open spec fn png_dims(h: Seq<u8>) -> Option<(u32, u32)> {
    if h.len() < 24 || h.take(8) != png_signature() || h.subrange(12, 16) != ihdr() {
        None
    } else {
        let w = be32(h[16], h[17], h[18], h[19]);
        let ht = be32(h[20], h[21], h[22], h[23]);
        if w > 0 && ht > 0 {
            Some((w as u32, ht as u32))
        } else {
            None
        }
    }
}

/// JPEG markers that stand alone, without a length: SOI, EOI, TEM, RSTn.
pub open spec fn standalone_marker(m: u8) -> bool {
    m == 0xd8 || m == 0xd9 || m == 0x01 || (0xd0 <= m <= 0xd7)
}

/// Start-of-frame markers (C0–CF except DHT C4, JPG C8 and DAC CC).
pub open spec fn sof_marker(m: u8) -> bool {
    0xc0 <= m <= 0xcf && m != 0xc4 && m != 0xc8 && m != 0xcc
}

/// Scans JPEG segments from byte `i` for the first start-of-frame header;
/// the scan stops (no size) at start-of-scan, at a malformed segment, or
/// when fewer than ten bytes remain.
pub open spec fn jpeg_scan(h: Seq<u8>, i: int) -> Option<(u32, u32)>
    decreases if i < h.len() {
        h.len() - i
    } else {
        0
    },
{
    if i < 0 || i + 9 >= h.len() {
        None
    } else if h[i] != 0xff {
        jpeg_scan(h, i + 1)
    } else {
        let m = h[i + 1];
        let j = i + 2;
        if standalone_marker(m) {
            jpeg_scan(h, j)
        } else if m == 0xda {
            None
        } else if j + 2 > h.len() {
            None
        } else {
            let seg = be16(h[j], h[j + 1]);
            if seg < 2 {
                None
            } else if sof_marker(m) {
                if j + 7 > h.len() {
                    None
                } else {
                    let ht = be16(h[j + 3], h[j + 4]);
                    let w = be16(h[j + 5], h[j + 6]);
                    if w > 0 && ht > 0 {
                        Some((w as u32, ht as u32))
                    } else {
                        None
                    }
                }
            } else {
                jpeg_scan(h, j + seg)
            }
        }
    }
}

/// Width and height from a JPEG header (SOI, then segments up to the first
/// start-of-frame).
pub open spec fn jpeg_dims(h: Seq<u8>) -> Option<(u32, u32)> {
    if h.len() < 4 || h[0] != 0xff || h[1] != 0xd8 {
        None
    } else {
        jpeg_scan(h, 2)
    }
}

/// Reads width and height from a PNG header without decoding pixels.
pub fn png_dimensions(head: &[u8]) -> (r: Option<(u32, u32)>)
    ensures
        r == png_dims(head@),
{
    if head.len() < 24 {
        return None;
    }
    let sig: [u8; 8] = [0x89u8, 0x50u8, 0x4eu8, 0x47u8, 0x0du8, 0x0au8, 0x1au8, 0x0au8];
    let mut i: usize = 0;
    while i < 8
        invariant
            head@.len() >= 24,
            sig@ == png_signature(),
            i <= 8,
            forall|k: int| 0 <= k < i ==> head@[k] == png_signature()[k],
        decreases 8 - i,
    {
        if head[i] != sig[i] {
            assert(head@.take(8)[i as int] != png_signature()[i as int]);
            return None;
        }
        i = i + 1;
    }
    assert(head@.take(8) =~= png_signature());
    if head[12] != 0x49u8 || head[13] != 0x48u8 || head[14] != 0x44u8 || head[15] != 0x52u8 {
        assert(head@.subrange(12, 16) != ihdr()) by {
            if head@.subrange(12, 16) == ihdr() {
                assert(head@.subrange(12, 16)[0] == head@[12]);
                assert(head@.subrange(12, 16)[1] == head@[13]);
                assert(head@.subrange(12, 16)[2] == head@[14]);
                assert(head@.subrange(12, 16)[3] == head@[15]);
            }
        }
        return None;
    }
    assert(head@.subrange(12, 16) =~= ihdr());
    let w: u32 = (head[16] as u32) * 16777216 + (head[17] as u32) * 65536 + (head[18] as u32) * 256
        + (head[19] as u32);
    let h: u32 = (head[20] as u32) * 16777216 + (head[21] as u32) * 65536 + (head[22] as u32) * 256
        + (head[23] as u32);
    if w > 0 && h > 0 {
        Some((w, h))
    } else {
        None
    }
}

proof fn lemma_jpeg_scan_end(h: Seq<u8>, i: int)
    requires
        i + 9 >= h.len(),
    ensures
        jpeg_scan(h, i) is None,
{
}

/// Reads width and height from a JPEG header by scanning for the
/// start-of-frame segment, without decoding pixels.
pub fn jpeg_dimensions(head: &[u8]) -> (r: Option<(u32, u32)>)
    ensures
        r == jpeg_dims(head@),
{
    if head.len() < 4 || head[0] != 0xff || head[1] != 0xd8 {
        return None;
    }
    let len = head.len();
    let mut i: usize = 2;
    while len > 9 && i < len - 9
        invariant
            len == head@.len(),
            2 <= i,
            jpeg_dims(head@) == jpeg_scan(head@, i as int),
        decreases len - i,
    {
        if head[i] != 0xff {
            i = i + 1;
            continue;
        }
        let marker = head[i + 1];
        let j = i + 2;
        if marker == 0xd8 || marker == 0xd9 || marker == 0x01 || (0xd0 <= marker && marker <= 0xd7) {
            i = j;
            continue;
        }
        if marker == 0xda {
            return None;
        }
        let seg: usize = (head[j] as usize) * 256 + (head[j + 1] as usize);
        if seg < 2 {
            return None;
        }
        if 0xc0 <= marker && marker <= 0xcf && marker != 0xc4 && marker != 0xc8 && marker != 0xcc {
            let h: u32 = (head[j + 3] as u32) * 256 + (head[j + 4] as u32);
            let w: u32 = (head[j + 5] as u32) * 256 + (head[j + 6] as u32);
            return if w > 0 && h > 0 {
                Some((w, h))
            } else {
                None
            };
        }
        if seg >= len - j {
            proof {
                lemma_jpeg_scan_end(head@, j + seg);
            }
            return None;
        }
        i = j + seg;
    }
    proof {
        lemma_jpeg_scan_end(head@, i as int);
    }
    None
}


// ─── Install checks ──────────────────────────────────────────────────────

/// The error for a preview image over the size limit.
pub open spec fn preview_too_large(lang: Seq<char>, name: Seq<char>, w: u32, h: u32) -> Seq<char> {
    fill(
        tr_text(lang, Key::PreviewTooLarge),
        seq![name, decimal(w as nat), decimal(h as nat), decimal(MAX_PREVIEW_DIMENSION as nat)],
    )
}

/// Preview size check on the first preview file present: over the limit
/// on its longer side is refused; an unreadable header passes.
pub open spec fn preview_check(lang: Seq<char>, found: Option<(Seq<char>, Option<(u32, u32)>)>) -> Result<
    (),
    Seq<char>,
> {
    match found {
        Some((name, Some((w, h)))) => if w > MAX_PREVIEW_DIMENSION || h > MAX_PREVIEW_DIMENSION {
            Err(preview_too_large(lang, name, w, h))
        } else {
            Ok(())
        },
        _ => Ok(()),
    }
}

pub open spec fn found_view(found: Option<(&str, Option<(u32, u32)>)>) -> Option<
    (Seq<char>, Option<(u32, u32)>),
> {
    match found {
        Some((n, d)) => Some((n@, d)),
        None => None,
    }
}

/// How many leading bytes of a preview image are probed for its size.
pub const PREVIEW_PROBE_BYTES: u64 = 524288;

/// The pixel size of a preview image from its leading bytes: read as a PNG
/// header, else as a JPEG.
pub fn image_dimensions(head: &[u8]) -> (r: Option<(u32, u32)>)
    ensures
        r == match png_dims(head@) {
            Some(d) => Some(d),
            None => jpeg_dims(head@),
        },
{
    match png_dimensions(head) {
        Some(d) => Some(d),
        None => jpeg_dimensions(head),
    }
}

/// Checks the first preview file of a package (its name and the size read
/// from its header, if any) against the size limit.
pub fn check_preview_limits(found: Option<(&str, Option<(u32, u32)>)>, lang: &str) -> (r: Result<
    (),
    String,
>)
    ensures
        match r {
            Ok(()) => preview_check(lang@, found_view(found)) is Ok,
            Err(m) => preview_check(lang@, found_view(found)) == Err::<(), Seq<char>>(m@),
        },
{
    match found {
        Some((name, Some((w, h)))) => {
            if w > MAX_PREVIEW_DIMENSION || h > MAX_PREVIEW_DIMENSION {
                let ws = u64_to_decimal(w as u64);
                let hs = u64_to_decimal(h as u64);
                let ms = u64_to_decimal(MAX_PREVIEW_DIMENSION as u64);
                let args = [name, ws.as_str(), hs.as_str(), ms.as_str()];
                let m = trf(lang, Key::PreviewTooLarge, &args);
                assert(crate::i18n::arg_views(args@) =~= seq![
                    name@,
                    decimal(w as nat),
                    decimal(h as nat),
                    decimal(MAX_PREVIEW_DIMENSION as nat),
                ]);
                Err(m)
            } else {
                Ok(())
            }
        },
        _ => Ok(()),
    }
}

/// A package must declare a valid id: it names the install folder and keys
/// the user's data.
pub open spec fn package_id_check(lang: Seq<char>, id: Option<Seq<char>>) -> Result<Seq<char>, Seq<char>> {
    match id {
        None => Err(tr_text(lang, Key::PackageMissingId)),
        Some(i) => if valid_skin_id(i) {
            Ok(i)
        } else {
            Err(fill(tr_text(lang, Key::InvalidSkinId), seq![i]))
        },
    }
}

/// The declared id of a package, when present and valid.
pub fn require_package_id(manifest_id: Option<&str>, lang: &str) -> (r: Result<String, String>)
    ensures
        match r {
            Ok(i) => package_id_check(lang@, opt_str_view(manifest_id)) == Ok::<
                Seq<char>,
                Seq<char>,
            >(i@),
            Err(m) => package_id_check(lang@, opt_str_view(manifest_id)) == Err::<
                Seq<char>,
                Seq<char>,
            >(m@),
        },
{
    match manifest_id {
        None => Err(crate::text::string_of(&chars_of(tr(lang, Key::PackageMissingId)))),
        Some(id) => {
            validate_skin_id(id, lang)?;
            Ok(crate::text::string_of(&chars_of(id)))
        },
    }
}

/// The entry check before installing: a web-skin URL needs no file; a file
/// entry must be a valid name (the loader would refuse it after install)
/// and be present in the package.
pub open spec fn package_entry_check(lang: Seq<char>, e: Seq<char>, exists: bool) -> Result<
    (),
    Seq<char>,
> {
    if url_entry(e) {
        Ok(())
    } else if !valid_entry_name(e) {
        Err(invalid_entry_message(e))
    } else if exists {
        Ok(())
    } else {
        Err(fill(tr_text(lang, Key::EntryFileMissing), seq![e]))
    }
}

/// Checks a package's entry; `entry_exists` says whether the entry file is
/// in the extracted package.
pub fn check_entry_exists(entry: &str, entry_exists: bool, lang: &str) -> (r: Result<(), String>)
    ensures
        match r {
            Ok(()) => package_entry_check(lang@, entry@, entry_exists) is Ok,
            Err(m) => package_entry_check(lang@, entry@, entry_exists) == Err::<(), Seq<char>>(m@),
        },
{
    if crate::skin::types::is_url_entry(entry) {
        return Ok(());
    }
    if !is_valid_entry_name(entry) {
        let mut m = String::from_str("Invalid entry file name '");
        m.append(entry);
        m.append("'");
        return Err(m);
    }
    if entry_exists {
        Ok(())
    } else {
        let args = [entry];
        let m = trf(lang, Key::EntryFileMissing, &args);
        assert(crate::i18n::arg_views(args@) =~= seq![entry@]);
        Err(m)
    }
}

/// Package check result shown in the install dialog.
#[derive(Debug)]
pub struct PackageInfo {
    pub id: String,
    pub name_zh: String,
    pub name_en: Option<String>,
    pub author: Option<String>,
    pub version: Option<String>,
    pub description_zh: Option<String>,
    pub description_en: Option<String>,
    pub permissions: Vec<String>,
    /// "new" | "update" | "reinstall" | "downgrade"
    pub status: String,
    pub installed_version: Option<String>,
    pub requires_host_version: Option<String>,
}

/// "new" when nothing is installed under the id, otherwise how the package
/// version relates to the installed one.
pub open spec fn install_status(pkg: Option<Seq<char>>, installed: Option<Option<Seq<char>>>) -> Seq<
    char,
> {
    match installed {
        None => "new"@,
        Some(iv) => match version_relation(pkg, iv) {
            VersionRelation::Same => "reinstall"@,
            VersionRelation::Newer => "update"@,
            VersionRelation::Older => "downgrade"@,
        },
    }
}

/// Version parts written out, joined by dots.
pub open spec fn dotted(ps: Seq<Seq<char>>) -> Seq<char>
    decreases ps.len(),
{
    if ps.len() <= 1 {
        if ps.len() == 1 {
            ps[0]
        } else {
            Seq::empty()
        }
    } else {
        dotted(ps.drop_last()) + seq!['.'] + ps.last()
    }
}

/// Splitting on dots undoes writing the last part after a dot.
proof fn lemma_split_after_dot(x: Seq<char>, y: Seq<char>)
    requires
        forall|k: int| 0 <= k < y.len() ==> #[trigger] y[k] != '.',
    ensures
        split_on(x + seq!['.'] + y, '.') == split_on(x, '.').push(y),
    decreases y.len(),
{
    let s = x + seq!['.'] + y;
    if y.len() == 0 {
        assert(s.drop_last() =~= x);
        assert(s.last() == '.');
        assert(y =~= Seq::<char>::empty());
    } else {
        assert(s.drop_last() =~= x + seq!['.'] + y.drop_last());
        assert(s.last() == y.last());
        lemma_split_after_dot(x, y.drop_last());
        crate::text::lemma_split_on_nonempty(x, '.');
        assert(y.drop_last().push(y.last()) =~= y);
        assert(split_on(x, '.').push(y.drop_last()).update(split_on(x, '.').len() as int, y)
            =~= split_on(x, '.').push(y));
    }
}

/// A piece without dots splits into itself.
proof fn lemma_split_no_dot(y: Seq<char>)
    requires
        forall|k: int| 0 <= k < y.len() ==> #[trigger] y[k] != '.',
    ensures
        split_on(y, '.') == seq![y],
    decreases y.len(),
{
    if y.len() == 0 {
        assert(y =~= Seq::<char>::empty());
    } else {
        lemma_split_no_dot(y.drop_last());
        assert(y.drop_last().push(y.last()) =~= y);
        assert(seq![y.drop_last()].update(0, y) =~= seq![y]);
    }
}

/// Splitting the dotted parts on dots gives them back; the text starts with
/// the first part.
proof fn lemma_split_dotted(ps: Seq<Seq<char>>)
    requires
        ps.len() >= 1,
        forall|i: int, k: int| 0 <= i < ps.len() && 0 <= k < ps[i].len() ==> #[trigger] ps[i][k] != '.',
        ps[0].len() > 0,
    ensures
        split_on(dotted(ps), '.') == ps,
        dotted(ps).len() > 0 && dotted(ps)[0] == ps[0][0],
    decreases ps.len(),
{
    if ps.len() == 1 {
        lemma_split_no_dot(ps[0]);
        assert(seq![ps[0]] =~= ps);
    } else {
        let init = ps.drop_last();
        assert forall|i: int, k: int| 0 <= i < init.len() && 0 <= k < init[i].len() implies #[trigger] init[i][k]
            != '.' by {
            assert(init[i] == ps[i]);
        }
        lemma_split_dotted(init);
        assert forall|k: int| 0 <= k < ps.last().len() implies #[trigger] ps.last()[k] != '.' by {
            assert(ps[ps.len() - 1][k] != '.');
        }
        lemma_split_after_dot(dotted(init), ps.last());
        assert(init.push(ps.last()) =~= ps);
    }
}

/// A version written as dot-separated runs of decimal digits (each within
/// 64 bits), with or without a leading "v", has those numbers as its parts.
pub proof fn law_version_parts(ps: Seq<Seq<char>>, with_v: bool)
    requires
        ps.len() >= 1,
        forall|i: int| 0 <= i < ps.len() ==> (#[trigger] ps[i]).len() > 0 && crate::text::all_digits(ps[i])
            && crate::text::digits_value(ps[i]) <= u64::MAX,
    ensures
        version_parts(if with_v { seq!['v'] + dotted(ps) } else { dotted(ps) }) == Some(
            ps.map_values(|p: Seq<char>| crate::text::digits_value(p)),
        ),
{
    assert forall|i: int, k: int| 0 <= i < ps.len() && 0 <= k < ps[i].len() implies #[trigger] ps[i][k]
        != '.' by {
        assert(crate::text::is_digit(ps[i][k]));
    }
    lemma_split_dotted(ps);
    let d = dotted(ps);
    assert(crate::text::is_digit(ps[0][0]));
    assert(strip_v(d) == d);
    if with_v {
        assert((seq!['v'] + d).drop_first() =~= d);
    }
    let pieces = split_on(d, '.');
    assert forall|i: int| 0 <= i < pieces.len() implies (#[trigger] uint_value(pieces[i], u64::MAX as nat)) is Some
        && uint_value(pieces[i], u64::MAX as nat)->Some_0 == crate::text::digits_value(ps[i]) by {
        assert(crate::text::is_digit(ps[i][0]));
    }
    assert(Seq::new(pieces.len(), |i: int| uint_value(pieces[i], u64::MAX as nat)->Some_0) =~= ps.map_values(
        |p: Seq<char>| crate::text::digits_value(p),
    ));
}

/// Comparing from part `k` on finds the first part where the versions
/// differ, and the larger one there is newer.
proof fn lemma_first_difference(a: Seq<nat>, b: Seq<nat>, k: int, i: int)
    requires
        0 <= k <= i,
        forall|j: int| k <= j < i ==> part_at(a, j) == part_at(b, j),
        part_at(a, i) != part_at(b, i),
    ensures
        parts_relation_from(a, b, k) == if part_at(a, i) > part_at(b, i) {
            VersionRelation::Newer
        } else {
            VersionRelation::Older
        },
    decreases i - k,
{
    if k < i {
        assert(part_at(a, k) == part_at(b, k));
        lemma_first_difference(a, b, k + 1, i);
    }
}

/// Versions equal in every part compare the same.
proof fn lemma_no_difference(a: Seq<nat>, b: Seq<nat>, k: int)
    requires
        0 <= k,
        forall|j: int| 0 <= j ==> #[trigger] part_at(a, j) == part_at(b, j),
    ensures
        parts_relation_from(a, b, k) == VersionRelation::Same,
    decreases max_len(a, b) - k,
{
    if k < max_len(a, b) {
        assert(part_at(a, k) == part_at(b, k));
        lemma_no_difference(a, b, k + 1);
    }
}

/// How a package stands to what is installed under its id.  Versions
/// compare part by part from the left, a missing part counting as 0: at
/// the first part `i` where they differ, a larger package part makes the
/// package an update and a smaller one a downgrade.
pub proof fn law_install_status(pkg: Seq<char>, installed: Seq<char>, a: Seq<nat>, b: Seq<nat>, i: int)
    requires
        version_parts(pkg) == Some(a),
        version_parts(installed) == Some(b),
        0 <= i,
        forall|j: int| 0 <= j < i ==> part_at(a, j) == part_at(b, j),
    ensures
        part_at(a, i) > part_at(b, i) ==> install_status(Some(pkg), Some(Some(installed))) == "update"@,
        part_at(a, i) < part_at(b, i) ==> install_status(Some(pkg), Some(Some(installed))) == "downgrade"@,
{
    if part_at(a, i) != part_at(b, i) {
        lemma_first_difference(a, b, 0, i);
    }
}

/// Equal parts throughout make a package a reinstall; with nothing
/// installed it is new, and a versioned package over an unversioned
/// install is an update.
pub proof fn law_install_status_same_or_new(pkg: Seq<char>, installed: Seq<char>, a: Seq<nat>, b: Seq<nat>)
    requires
        version_parts(pkg) == Some(a),
        version_parts(installed) == Some(b),
    ensures
        install_status(Some(pkg), None) == "new"@,
        install_status(Some(pkg), Some(None)) == "update"@,
        (forall|j: int| 0 <= j ==> #[trigger] part_at(a, j) == part_at(b, j)) ==> install_status(
            Some(pkg),
            Some(Some(installed)),
        ) == "reinstall"@,
{
    if forall|j: int| 0 <= j ==> #[trigger] part_at(a, j) == part_at(b, j) {
        lemma_no_difference(a, b, 0);
    }
}

/// The minimum host version asks for a newer host than `host`: both
/// versions parse and the minimum compares newer.
pub open spec fn needs_newer_host(min: Seq<char>, host: Seq<char>) -> bool {
    match (version_parts(min), version_parts(host)) {
        (Some(a), Some(b)) => parts_relation_from(a, b, 0) == VersionRelation::Newer,
        _ => false,
    }
}

/// Whether the package's minimum host version is newer than `host`.
pub fn host_too_old(min: &str, host: &str) -> (b: bool)
    ensures
        b == needs_newer_host(min@, host@),
{
    match (version_parts_exec(min), version_parts_exec(host)) {
        (Some(_), Some(_)) => compare_versions(Some(min), Some(host)) == VersionRelation::Newer,
        _ => false,
    }
}

pub open spec fn opt_string_view(o: Option<String>) -> Option<Seq<char>> {
    match o {
        Some(s) => Some(s@),
        None => None,
    }
}

pub open spec fn opt_opt_view(o: Option<Option<String>>) -> Option<Option<Seq<char>>> {
    match o {
        Some(i) => Some(opt_string_view(i)),
        None => None,
    }
}

/// The checks that decide whether a package may be installed, in order:
/// declared id, entry, preview size.
pub open spec fn package_checks(
    lang: Seq<char>,
    id: Option<Seq<char>>,
    entry: Seq<char>,
    entry_exists: bool,
    preview: Option<(Seq<char>, Option<(u32, u32)>)>,
) -> Result<Seq<char>, Seq<char>> {
    match package_id_check(lang, id) {
        Err(e) => Err(e),
        Ok(i) => match package_entry_check(lang, entry, entry_exists) {
            Err(e) => Err(e),
            Ok(()) => match preview_check(lang, preview) {
                Err(e) => Err(e),
                Ok(()) => Ok(i),
            },
        },
    }
}

/// Inspects a package from what was read out of it: its manifest, whether
/// its entry file exists, its first preview file (name and header size),
/// the version installed under its id (`None` = not installed; `Some(None)`
/// = installed without a version) and this host's version.
pub fn inspect_package(
    manifest: SkinManifest,
    entry_exists: bool,
    preview: Option<(&str, Option<(u32, u32)>)>,
    installed: Option<Option<String>>,
    host_version: &str,
    lang: &str,
) -> (r: Result<PackageInfo, String>)
    ensures
        match r {
            Ok(info) => {
                &&& package_checks(
                    lang@,
                    opt_string_view(manifest.id),
                    manifest.entry@,
                    entry_exists,
                    found_view(preview),
                ) == Ok::<Seq<char>, Seq<char>>(info.id@)
                &&& info.status@ == install_status(
                    opt_string_view(manifest.version),
                    opt_opt_view(installed),
                )
                &&& info.installed_version == (match installed {
                    Some(v) => v,
                    None => None,
                })
                &&& info.name_zh@ == (match manifest.name_zh {
                    Some(n) => n@,
                    None => Seq::empty(),
                })
                &&& info.name_en == manifest.name_en
                &&& info.author == manifest.author
                &&& info.version == manifest.version
                &&& info.description_zh == manifest.description_zh
                &&& info.description_en == manifest.description_en
                &&& info.permissions == manifest.permissions
                &&& info.requires_host_version == (match manifest.min_host_version {
                    Some(v) => if needs_newer_host(v@, host_version@) {
                        Some(v)
                    } else {
                        None
                    },
                    None => None,
                })
            },
            Err(m) => package_checks(
                lang@,
                opt_string_view(manifest.id),
                manifest.entry@,
                entry_exists,
                found_view(preview),
            ) == Err::<Seq<char>, Seq<char>>(m@),
        },
{
    let id_ref = match &manifest.id {
        Some(s) => Some(s.as_str()),
        None => None,
    };
    let id = require_package_id(id_ref, lang)?;
    check_entry_exists(manifest.entry.as_str(), entry_exists, lang)?;
    check_preview_limits(preview, lang)?;
    let pkg_version = match &manifest.version {
        Some(s) => Some(s.as_str()),
        None => None,
    };
    let (status, installed_version) = match installed {
        None => (String::from_str("new"), None),
        Some(iv) => {
            let iv_ref = match &iv {
                Some(s) => Some(s.as_str()),
                None => None,
            };
            let rel = compare_versions(pkg_version, iv_ref);
            let st = match rel {
                VersionRelation::Same => String::from_str("reinstall"),
                VersionRelation::Newer => String::from_str("update"),
                VersionRelation::Older => String::from_str("downgrade"),
            };
            (st, iv)
        },
    };
    let host_req = match manifest.min_host_version {
        Some(v) => if host_too_old(v.as_str(), host_version) {
            Some(v)
        } else {
            None
        },
        None => None,
    };
    let name_zh = match manifest.name_zh {
        Some(n) => n,
        None => String::new(),
    };
    Ok(PackageInfo {
        id,
        name_zh,
        name_en: manifest.name_en,
        author: manifest.author,
        version: manifest.version,
        description_zh: manifest.description_zh,
        description_en: manifest.description_en,
        permissions: manifest.permissions,
        status,
        installed_version,
        requires_host_version: host_req,
    })
}


// ─── Archive extraction limits ───────────────────────────────────────────

/// Defensive limits on an archive to extract: its size on disk, its number
/// of entries, and the bytes actually written when extracting it.
#[derive(Debug, Clone, Copy)]
pub struct ExtractLimits {
    pub max_archive_bytes: u64,
    pub max_files: usize,
    pub max_total_bytes: u64,
}

/// Why an archive is refused.
#[derive(Debug, Clone, Copy, PartialEq, Eq, Structural)]
pub enum ExtractRefusal {
    ArchiveTooLarge,
    TooManyFiles,
    ExtractedTooLarge,
}

/// Limits of a skin package: 64 MB archive, 5000 entries, 256 MB extracted.
pub fn package_limits() -> (l: ExtractLimits)
    ensures
        l.max_archive_bytes == 67108864,
        l.max_files == 5000,
        l.max_total_bytes == 268435456,
{
    ExtractLimits { max_archive_bytes: 67108864, max_files: 5000, max_total_bytes: 268435456 }
}

/// Checks an archive before extraction: its size first, then its number of
/// entries.
pub fn check_archive(limits: ExtractLimits, archive_bytes: u64, entries: usize) -> (r: Result<
    (),
    ExtractRefusal,
>)
    ensures
        r == (if archive_bytes > limits.max_archive_bytes {
            Err(ExtractRefusal::ArchiveTooLarge)
        } else if entries > limits.max_files {
            Err(ExtractRefusal::TooManyFiles)
        } else {
            Ok(())
        }),
{
    if archive_bytes > limits.max_archive_bytes {
        Err(ExtractRefusal::ArchiveTooLarge)
    } else if entries > limits.max_files {
        Err(ExtractRefusal::TooManyFiles)
    } else {
        Ok(())
    }
}

/// How many bytes to read at most from the next entry when `total` bytes
/// were written so far: one more than what is left, so that an entry that
/// does not fit is detected without writing more than that.
pub fn entry_read_cap(limits: ExtractLimits, total: u64) -> (cap: u64)
    requires
        total <= limits.max_total_bytes,
        limits.max_total_bytes < u64::MAX,
    ensures
        cap == limits.max_total_bytes - total + 1,
{
    limits.max_total_bytes - total + 1
}

/// Accounts for `written` more extracted bytes (the size of the header is
/// not trusted: `written` is what was actually written).  The running total
/// never exceeds the limit: an entry that would is refused.
pub fn add_extracted(limits: ExtractLimits, total: u64, written: u64) -> (r: Result<u64, ExtractRefusal>)
    requires
        total <= limits.max_total_bytes,
        limits.max_total_bytes < u64::MAX,
        written <= limits.max_total_bytes - total + 1,
    ensures
        match r {
            Ok(t) => t == total + written && t <= limits.max_total_bytes,
            Err(e) => e == ExtractRefusal::ExtractedTooLarge && total + written
                > limits.max_total_bytes,
        },
{
    let t = total + written;
    if t > limits.max_total_bytes {
        Err(ExtractRefusal::ExtractedTooLarge)
    } else {
        Ok(t)
    }
}

pub open spec fn package_refusal_key(r: ExtractRefusal) -> Key {
    match r {
        ExtractRefusal::ArchiveTooLarge => Key::PackageTooLarge,
        ExtractRefusal::TooManyFiles => Key::TooManyFiles,
        ExtractRefusal::ExtractedTooLarge => Key::ExtractedTooLarge,
    }
}

/// The message for a refused skin package.
pub fn package_refusal_message(r: ExtractRefusal, lang: &str) -> (m: String)
    ensures
        m@ == tr_text(lang@, package_refusal_key(r)),
{
    let k = match r {
        ExtractRefusal::ArchiveTooLarge => Key::PackageTooLarge,
        ExtractRefusal::TooManyFiles => Key::TooManyFiles,
        ExtractRefusal::ExtractedTooLarge => Key::ExtractedTooLarge,
    };
    tr(lang, k).to_string()
}

// ─── Staged folder replacement ───────────────────────────────────────────

/// The staging folder a package is copied into before it replaces the
/// installed skin.
pub open spec fn staging_name(id: Seq<char>) -> Seq<char> {
    ".staging-"@ + id
}

/// The name an installed folder is moved aside to while it is replaced.
pub open spec fn aside_name(folder: Seq<char>) -> Seq<char> {
    "."@ + folder + ".old"@
}

pub fn staging_folder_name(id: &str) -> (r: String)
    ensures
        r@ == staging_name(id@),
{
    let mut v = chars_of(".staging-");
    let iv = chars_of(id);
    crate::text::extend_chars(&mut v, &iv);
    crate::text::string_of(&v)
}

pub fn aside_folder_name(folder: &str) -> (r: String)
    ensures
        r@ == aside_name(folder@),
{
    let mut v = chars_of(".");
    let fv = chars_of(folder);
    crate::text::extend_chars(&mut v, &fv);
    let tail = chars_of(".old");
    crate::text::extend_chars(&mut v, &tail);
    crate::text::string_of(&v)
}

/// What a folder left in the skins directory by an interrupted replace is.
#[derive(Debug)]
pub enum FolderLeftover {
    /// A half-copied staging folder: deleted.
    Staging,
    /// The moved-aside copy of `folder`: moved back over it.
    AsideOf(String),
    /// Not a leftover.
    Other,
}

pub open spec fn leftover_model(l: FolderLeftover) -> Option<Option<Seq<char>>> {
    match l {
        FolderLeftover::Staging => Some(None),
        FolderLeftover::AsideOf(f) => Some(Some(f@)),
        FolderLeftover::Other => None,
    }
}

/// Classification of a folder name: ".staging-*" is a staging folder,
/// ".<folder>.old" with a non-empty folder is an aside copy.
pub open spec fn leftover_of(name: Seq<char>) -> Option<Option<Seq<char>>> {
    if starts_with(name, ".staging-"@) {
        Some(None)
    } else if name.len() >= 6 && name[0] == '.' && ends_with(name, ".old"@) {
        Some(Some(name.subrange(1, name.len() - 4)))
    } else {
        None
    }
}

/// Classifies a folder of the skins directory for recovery after an
/// interrupted replace.
pub fn classify_leftover(name: &str) -> (r: FolderLeftover)
    ensures
        leftover_model(r) == leftover_of(name@),
{
    let v = chars_of(name);
    let staging = chars_of(".staging-");
    let old = chars_of(".old");
    if starts_with_exec(&v, &staging) {
        FolderLeftover::Staging
    } else if v.len() >= 6 && v[0] == '.' && ends_with_exec(&v, &old) {
        let f = crate::text::sub_chars(&v, 1, v.len() - 4);
        FolderLeftover::AsideOf(crate::text::string_of(&f))
    } else {
        FolderLeftover::Other
    }
}

/// Moving a folder aside and classifying the result gives the folder back.
pub proof fn law_aside_name_round_trip(folder: Seq<char>)
    requires
        folder.len() > 0,
        !starts_with(folder, "staging-"@),
    ensures
        leftover_of(aside_name(folder)) == Some(Some(folder)),
{
    let a = aside_name(folder);
    reveal_strlit(".");
    reveal_strlit(".old");
    reveal_strlit(".staging-");
    reveal_strlit("staging-");
    assert(a.len() == folder.len() + 5);
    assert(a.subrange(1, a.len() - 4) =~= folder);
    assert(a.skip(a.len() - 4) =~= ".old"@);
    if starts_with(a, ".staging-"@) {
        assert(a.take(9) == ".staging-"@);
        if folder.len() >= 8 {
            assert(folder.take(8) =~= a.take(9).skip(1));
            assert("staging-"@ =~= ".staging-"@.skip(1));
        } else {
            let k: int = folder.len() as int + 1;
            assert(a[k] == '.');
            assert(a.take(9)[k] == a[k]);
        }
    }
}

/// The conflict that blocks installing a package whose id is already used
/// by a skin installed in a folder of another name (the package would be
/// shadowed by it).
pub open spec fn install_folder_conflict(id: Seq<char>, existing_folder: Option<Seq<char>>) -> Option<
    Seq<char>,
> {
    match existing_folder {
        Some(f) => if f != id {
            Some(
                "another copy of skin '"@ + id + "' already exists at folder '"@ + f
                    + "' — remove it first, then install again"@,
            )
        } else {
            None
        },
        None => None,
    }
}

/// Checks that installing package `id` would not be shadowed by an
/// installed copy of the same id in the folder `existing_folder`.
pub fn check_install_folder(id: &str, existing_folder: Option<&str>) -> (r: Result<(), String>)
    ensures
        match r {
            Ok(_) => install_folder_conflict(id@, opt_str_view(existing_folder)) is None,
            Err(e) => install_folder_conflict(id@, opt_str_view(existing_folder)) == Some(e@),
        },
{
    match existing_folder {
        Some(f) => {
            if crate::text::str_eq(f, id) {
                Ok(())
            } else {
                let mut v = chars_of("another copy of skin '");
                crate::text::extend_chars(&mut v, &chars_of(id));
                crate::text::extend_chars(&mut v, &chars_of("' already exists at folder '"));
                crate::text::extend_chars(&mut v, &chars_of(f));
                crate::text::extend_chars(
                    &mut v,
                    &chars_of("' — remove it first, then install again"),
                );
                Err(crate::text::string_of(&v))
            }
        },
        None => Ok(()),
    }
}

// ─── Packaging a skin folder ─────────────────────────────────────────────

/// Folders never packaged: version control and dependencies.
pub open spec fn package_skip_dirs() -> Seq<Seq<char>> {
    seq![".git"@, ".svn"@, "node_modules"@]
}

/// Files never packaged (compared in ASCII lower case): desktop clutter and
/// the user's settings values.
pub open spec fn package_skip_files() -> Seq<Seq<char>> {
    seq![
        ".ds_store"@,
        "thumbs.db"@,
        "desktop.ini"@,
        "settings.json"@,
        "settings.json.bak"@,
        "settings.json.tmp"@,
    ]
}

/// Whether a directory of that name is left out of a package.
pub fn skip_dir_in_package(name: &str) -> (b: bool)
    ensures
        b == package_skip_dirs().contains(name@),
{
    let names = vec![chars_of(".git"), chars_of(".svn"), chars_of("node_modules")];
    assert(views(names@) =~= package_skip_dirs());
    let v = chars_of(name);
    seq_contains(&names, &v)
}

/// Whether a file of that name is left out of a package: one of the
/// skipped names, or an earlier package (".dskin"), ignoring ASCII case.
pub fn skip_file_in_package(name: &str) -> (b: bool)
    ensures
        b == (package_skip_files().contains(ascii_lower_seq(name@)) || ends_with(
            ascii_lower_seq(name@),
            ".dskin"@,
        )),
{
    let names = vec![
        chars_of(".ds_store"),
        chars_of("thumbs.db"),
        chars_of("desktop.ini"),
        chars_of("settings.json"),
        chars_of("settings.json.bak"),
        chars_of("settings.json.tmp"),
    ];
    assert(views(names@) =~= package_skip_files());
    let v = chars_of(name);
    let lower = ascii_lower_chars(&v);
    let ext = chars_of(".dskin");
    seq_contains(&names, &lower) || ends_with_exec(&lower, &ext)
}

fn seq_contains(names: &Vec<Vec<char>>, v: &Vec<char>) -> (b: bool)
    ensures
        b == views(names@).contains(v@),
{
    let mut i: usize = 0;
    while i < names.len()
        invariant
            i <= names.len(),
            forall|j: int| 0 <= j < i ==> views(names@)[j] != v@,
        decreases names.len() - i,
    {
        if chars_eq(&names[i], v) {
            assert(views(names@)[i as int] == v@);
            return true;
        }
        i = i + 1;
    }
    false
}

/// Total size of the files to package must not exceed what installing it
/// would accept.
pub fn package_size_ok(total_bytes: u64) -> (b: bool)
    ensures
        b == (total_bytes <= 268435456),
{
    total_bytes <= package_limits().max_total_bytes
}

/// The zip entry name of a packaged file: its relative path with '/'
/// separators.
pub open spec fn slash_path(rel: Seq<char>) -> Seq<char> {
    rel.map_values(|c: char| if c == '\\' { '/' } else { c })
}

/// Names a packaged file inside the zip.
pub fn package_entry_name(rel: &str) -> (r: String)
    ensures
        r@ == slash_path(rel@),
{
    let v = chars_of(rel);
    let mut out: Vec<char> = Vec::new();
    let mut i: usize = 0;
    while i < v.len()
        invariant
            i <= v.len(),
            out@ == slash_path(v@.take(i as int)),
        decreases v.len() - i,
    {
        out.push(if v[i] == '\\' {
            '/'
        } else {
            v[i]
        });
        i = i + 1;
        assert(out@ =~= slash_path(v@.take(i as int)));
    }
    assert(v@.take(v.len() as int) =~= v@);
    crate::text::string_of(&out)
}

/// The refusal of packaging a folder whose files add up to more than an
/// install accepts (256 MB).
pub fn package_too_big_message(lang: &str) -> (m: String)
    ensures
        m@ == fill(tr_text(lang@, Key::PackageCreateFailed), seq!["文件总体积超过安装上限（256 MB）"@]),
{
    let why = "文件总体积超过安装上限（256 MB）";
    crate::commands::err1(lang, Key::PackageCreateFailed, why)
}

// ─── Building a package ──────────────────────────────────────────────────

/// The total size of the files' data.
pub open spec fn data_total(files: Seq<(Seq<char>, Seq<u8>)>) -> int
    decreases files.len(),
{
    if files.len() == 0 {
        0
    } else {
        data_total(files.drop_last()) + files.last().1.len()
    }
}

/// The entries of a package: each file under its '/'-separated name.
pub open spec fn packaged(files: Seq<(Seq<char>, Seq<u8>)>) -> Seq<(Seq<char>, Seq<u8>)> {
    files.map_values(|f: (Seq<char>, Seq<u8>)| (slash_path(f.0), f.1))
}

pub open spec fn too_big_text(lang: Seq<char>) -> Seq<char> {
    fill(tr_text(lang, Key::PackageCreateFailed), seq!["文件总体积超过安装上限（256 MB）"@])
}

proof fn lemma_data_total_step(files: Seq<(Seq<char>, Seq<u8>)>, i: int)
    requires
        0 <= i < files.len(),
    ensures
        data_total(files.take(i + 1)) == data_total(files.take(i)) + files[i].1.len(),
{
    assert(files.take(i + 1).drop_last() =~= files.take(i));
}

proof fn lemma_data_total_prefix(files: Seq<(Seq<char>, Seq<u8>)>, i: int)
    requires
        0 <= i <= files.len(),
    ensures
        data_total(files.take(i)) <= data_total(files),
    decreases files.len() - i,
{
    if i < files.len() {
        lemma_data_total_step(files, i);
        lemma_data_total_prefix(files, i + 1);
    } else {
        assert(files.take(i) =~= files);
    }
}

/// Builds a .dskin package from the files of a skin folder (relative paths
/// and their data, in order, the skipped ones left out): refused when the
/// files add up to more than an install accepts, or when an entry's path is
/// too long for a zip archive; otherwise the zip writer runs on the files,
/// each under its '/'-separated name.  Its archive is the package unless it
/// comes out larger than a package may be; its failure is reported with its
/// text.
pub fn build_package(files: Vec<(String, Vec<u8>)>, lang: &str) -> (r: Result<Vec<u8>, String>)
    ensures
        data_total(crate::archive::files_view(files@)) > 268435456 ==> (r matches Err(m) && m@
            == too_big_text(lang@)),
        data_total(crate::archive::files_view(files@)) <= 268435456 && !crate::archive::names_fit(
            packaged(crate::archive::files_view(files@)),
        ) ==> (r matches Err(m) && m@ == crate::commands::msg1(
            lang@,
            Key::PackageCreateFailed,
            crate::archive::name_too_long_reason(),
        )),
        data_total(crate::archive::files_view(files@)) <= 268435456 && crate::archive::names_fit(
            packaged(crate::archive::files_view(files@)),
        ) ==> match crate::archive::zip_written(packaged(crate::archive::files_view(files@))) {
            Err(e) => r matches Err(m) && m@ == crate::commands::msg1(lang@, Key::PackageCreateFailed, e),
            Ok(b) => if b.len() > 67108864 {
                r matches Err(m) && m@ == tr_text(lang@, Key::PackageTooLarge)
            } else {
                r matches Ok(o) && o@ == b
            },
        },
{
    let ghost orig = crate::archive::files_view(files@);
    let limits = package_limits();
    // The sizes first.
    let mut total: u64 = 0;
    let mut i: usize = 0;
    while i < files.len()
        invariant
            i <= files.len(),
            orig == crate::archive::files_view(files@),
            total == data_total(orig.take(i as int)),
            total <= 268435456,
        decreases files.len() - i,
    {
        proof {
            lemma_data_total_step(orig, i as int);
        }
        let n = files[i].1.len() as u64;
        if n > 268435456 - total {
            proof {
                lemma_data_total_prefix(orig, i + 1);
            }
            return Err(package_too_big_message(lang));
        }
        total = total + n;
        i = i + 1;
    }
    assert(orig.take(files.len() as int) =~= orig);
    // Then the entries, under their package names, in order.
    let mut files = files;
    let ghost want = packaged(orig);
    let mut rev: Vec<(String, Vec<u8>)> = Vec::new();
    while files.len() > 0
        invariant
            files.len() <= orig.len(),
            crate::archive::files_view(files@) == orig.take(files.len() as int),
            rev.len() == orig.len() - files.len(),
            want == packaged(orig),
            forall|j: int|
                0 <= j < rev.len() ==> crate::archive::files_view(rev@)[j] == want[orig.len() - 1 - j],
        decreases files.len(),
    {
        let ghost k = files.len() - 1;
        let ghost rev_before = crate::archive::files_view(rev@);
        let ghost last = crate::archive::files_view(files@)[k];
        let (name, data) = files.pop().unwrap();
        assert(crate::archive::files_view(files@) =~= orig.take(k));
        assert(last == orig[k]);
        assert((name@, data@) == last);
        let entry = package_entry_name(name.as_str());
        rev.push((entry, data));
        assert forall|j: int|
            0 <= j < rev.len() implies crate::archive::files_view(rev@)[j] == want[orig.len() - 1 - j] by {
            if j < rev.len() - 1 {
                assert(crate::archive::files_view(rev@)[j] == rev_before[j]);
            } else {
                assert(orig.len() - 1 - j == k);
            }
        }
    }
    let mut out: Vec<(String, Vec<u8>)> = Vec::new();
    while rev.len() > 0
        invariant
            rev.len() <= orig.len(),
            out.len() == orig.len() - rev.len(),
            want == packaged(orig),
            forall|j: int|
                0 <= j < rev.len() ==> crate::archive::files_view(rev@)[j] == want[orig.len() - 1 - j],
            forall|j: int| 0 <= j < out.len() ==> crate::archive::files_view(out@)[j] == want[j],
        decreases rev.len(),
    {
        let ghost before = crate::archive::files_view(rev@);
        let ghost out_before = crate::archive::files_view(out@);
        let item = rev.pop().unwrap();
        assert(crate::archive::files_view(rev@) =~= before.drop_last());
        out.push(item);
        assert forall|j: int| 0 <= j < out.len() implies crate::archive::files_view(out@)[j] == want[j] by {
            if j < out.len() - 1 {
                assert(crate::archive::files_view(out@)[j] == out_before[j]);
            } else {
                assert(crate::archive::files_view(out@)[j] == before[before.len() - 1]);
            }
        }
    }
    assert(crate::archive::files_view(out@) =~= want);
    if !crate::archive::names_fit_exec(&out) {
        return Err(crate::commands::err1(lang, Key::PackageCreateFailed, "文件路径过长（超过 65535 字节）"));
    }
    match crate::archive::write_zip(&out) {
        Err(e) => Err(crate::commands::err1(lang, Key::PackageCreateFailed, e.as_str())),
        Ok(bytes) => {
            if bytes.len() as u64 > limits.max_archive_bytes {
                Err(tr(lang, Key::PackageTooLarge).to_string())
            } else {
                Ok(bytes)
            }
        },
    }
}

} // verus!
