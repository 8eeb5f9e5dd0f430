//! Layout backups: the rules that decide what a backup zip must hold, what
//! of it is shown before importing, which skins a selective import takes,
//! how imported layouts and loaded skins merge into the local config, and
//! the bookkeeping of exporting.
//!
//! A backup zip holds `driftlet-backup.json` (its manifest), `config/...`
//! (a mirror of the config directory) and `skins/...` (every skin folder).

use vstd::prelude::*;
use crate::commands::{err1, msg1};
use crate::i18n::{tr, tr_text, Key};
use crate::json::{json_get, json_member, obj_lookup, JsonModel, JsonNumber, JsonValue, NumberModel};
use crate::skin::loader::{resolve_skin_id, resolved_id};
use crate::skin::package::{ExtractLimits, ExtractRefusal};
use crate::skin::types::{opt_ref_view, LayoutPreset, LayoutSkin, SkinManifest};
use crate::hotreload::{parts, parts_exec};
use crate::text::{
    chars_eq, chars_of, decimal, ends_with, lemma_str_le_total, lemma_str_le_trans, starts_with, str_le,
    strings_view, u64_to_decimal, views,
};

verus! {

/// Name of the manifest entry of a backup zip.
pub const MANIFEST_NAME: &'static str = "driftlet-backup.json";

/// The backup format this version writes and reads.
pub const BACKUP_FORMAT: u64 = 1;

/// Most files an export takes.
pub const MAX_FILES: usize = 5000;

/// Most bytes an export takes (256 MB).
pub const MAX_TOTAL_BYTES: u64 = 268435456;

/// Limits of a backup zip: 64 MB archive, 5000 entries, 256 MB extracted.
pub fn backup_limits() -> (l: ExtractLimits)
    ensures
        l.max_archive_bytes == 67108864,
        l.max_files == MAX_FILES,
        l.max_total_bytes == MAX_TOTAL_BYTES,
{
    ExtractLimits { max_archive_bytes: 67108864, max_files: MAX_FILES, max_total_bytes: MAX_TOTAL_BYTES }
}

pub open spec fn backup_refusal_key(r: ExtractRefusal) -> Key {
    match r {
        ExtractRefusal::ArchiveTooLarge => Key::BackupTooLarge,
        ExtractRefusal::TooManyFiles => Key::BackupTooManyFiles,
        ExtractRefusal::ExtractedTooLarge => Key::BackupExtractedTooLarge,
    }
}

/// The message for a refused backup zip.
pub fn backup_refusal_message(r: ExtractRefusal, lang: &str) -> (m: String)
    ensures
        m@ == tr_text(lang@, backup_refusal_key(r)),
{
    let k = match r {
        ExtractRefusal::ArchiveTooLarge => Key::BackupTooLarge,
        ExtractRefusal::TooManyFiles => Key::BackupTooManyFiles,
        ExtractRefusal::ExtractedTooLarge => Key::BackupExtractedTooLarge,
    };
    tr(lang, k).to_string()
}

// ─── The backup manifest ─────────────────────────────────────────────────

/// The manifest's "format" as an unsigned integer; 0 when it is missing or
/// not one.
pub open spec fn format_of(m: JsonModel) -> u64 {
    match json_get(m, "format"@) {
        Some(JsonModel::Number(NumberModel::PosInt(n))) => n,
        _ => 0,
    }
}

/// The manifest's "app_version" string, if it has one.
pub open spec fn app_version_of(m: JsonModel) -> Option<Seq<char>> {
    match json_get(m, "app_version"@) {
        Some(JsonModel::Str(s)) => Some(s),
        _ => None,
    }
}

/// The version of the app that wrote a backup, read from its manifest.
pub fn backup_app_version(manifest: Option<&JsonValue>) -> (r: Option<String>)
    ensures
        match manifest {
            Some(m) => match r {
                Some(s) => app_version_of(m.model()) == Some(s@),
                None => app_version_of(m.model()) is None,
            },
            None => r is None,
        },
{
    match manifest {
        Some(m) => match json_member(m, "app_version") {
            Some(JsonValue::Str(s)) => Some(s.clone()),
            _ => None,
        },
        None => None,
    }
}

/// The manifest an exported backup carries: this format, the app's name
/// and version, and when it was written (seconds since the Unix epoch).
pub open spec fn manifest_model(app_version: Seq<char>, created_at: u64) -> JsonModel {
    JsonModel::Object(
        seq![
            ("format"@, JsonModel::Number(NumberModel::PosInt(BACKUP_FORMAT))),
            ("app"@, JsonModel::Str("Driftlet"@)),
            ("app_version"@, JsonModel::Str(app_version)),
            ("created_at"@, JsonModel::Number(NumberModel::PosInt(created_at))),
        ],
    )
}

/// Builds the manifest of a backup being exported.
pub fn backup_manifest(app_version: &str, created_at: u64) -> (m: JsonValue)
    ensures
        m.model() == manifest_model(app_version@, created_at),
{
    let entries = vec![
        (String::from_str("format"), JsonValue::Number(JsonNumber::PosInt(BACKUP_FORMAT))),
        (String::from_str("app"), JsonValue::Str(String::from_str("Driftlet"))),
        (String::from_str("app_version"), JsonValue::Str(String::from_str(app_version))),
        (String::from_str("created_at"), JsonValue::Number(JsonNumber::PosInt(created_at))),
    ];
    proof {
        crate::json::lemma_object_model(&entries);
    }
    assert(crate::json::entries_model(entries@) =~= manifest_model(app_version@, created_at)->Object_0);
    JsonValue::Object(entries)
}

/// What reading the manifest entry of an extracted backup gave.
pub enum ManifestRead {
    /// The backup has no manifest (accepted: older backups).
    Absent,
    /// The manifest could not be read; the I/O error text.
    Unreadable(String),
    /// The manifest is not JSON.
    NotJson,
    /// The parsed manifest.
    Parsed(JsonValue),
}

/// The verdict on an extracted backup: `config/config.json` must be there,
/// and a manifest, when present, must be readable JSON of this format.
pub open spec fn backup_verdict(has_config_json: bool, manifest: ManifestRead, lang: Seq<char>) -> Result<
    (),
    Seq<char>,
> {
    if !has_config_json {
        Err(tr_text(lang, Key::InvalidBackup))
    } else {
        match manifest {
            ManifestRead::Absent => Ok(()),
            ManifestRead::Unreadable(e) => Err(msg1(lang, Key::ReadBackupFailed, e@)),
            ManifestRead::NotJson => Err(tr_text(lang, Key::InvalidBackup)),
            ManifestRead::Parsed(v) => if format_of(v.model()) != BACKUP_FORMAT {
                Err(msg1(lang, Key::BackupFormatUnsupported, decimal(format_of(v.model()) as nat)))
            } else {
                Ok(())
            },
        }
    }
}

/// A backup this app exports passes its own import check, and the import
/// reads back the version that wrote it.  (Export always writes
/// `config/config.json`, from disk or from the defaults.)
pub proof fn law_exported_backup_accepted(manifest: JsonValue, app_version: Seq<char>, created_at: u64, lang: Seq<char>)
    requires
        manifest.model() == manifest_model(app_version, created_at),
    ensures
        backup_verdict(true, ManifestRead::Parsed(manifest), lang) == Ok::<(), Seq<char>>(()),
        app_version_of(manifest.model()) == Some(app_version),
{
    reveal_strlit("format");
    reveal_strlit("app");
    reveal_strlit("app_version");
    let e = manifest_model(app_version, created_at)->Object_0;
    assert("app_version"@.len() == 11 && "format"@.len() == 6 && "app"@.len() == 3);
    assert(e[0].0 != "app_version"@);
    assert(e[1].0 != "app_version"@);
    assert(obj_lookup(e.drop_first().drop_first(), "app_version"@) == Some(JsonModel::Str(app_version)));
    assert(obj_lookup(e.drop_first(), "app_version"@) == Some(JsonModel::Str(app_version)));
}

pub open spec fn unit_result(r: Result<(), String>) -> Result<(), Seq<char>> {
    match r {
        Ok(_) => Ok(()),
        Err(e) => Err(e@),
    }
}

/// Validates an extracted backup.
pub fn validate_backup(has_config_json: bool, manifest: &ManifestRead, lang: &str) -> (r: Result<
    (),
    String,
>)
    ensures
        unit_result(r) == backup_verdict(has_config_json, *manifest, lang@),
{
    if !has_config_json {
        return Err(tr(lang, Key::InvalidBackup).to_string());
    }
    match manifest {
        ManifestRead::Absent => Ok(()),
        ManifestRead::Unreadable(e) => Err(err1(lang, Key::ReadBackupFailed, e.as_str())),
        ManifestRead::NotJson => Err(tr(lang, Key::InvalidBackup).to_string()),
        ManifestRead::Parsed(v) => {
            let format: u64 = match json_member(v, "format") {
                Some(JsonValue::Number(JsonNumber::PosInt(n))) => *n,
                _ => 0,
            };
            if format != BACKUP_FORMAT {
                let f = u64_to_decimal(format);
                Err(err1(lang, Key::BackupFormatUnsupported, f.as_str()))
            } else {
                Ok(())
            }
        },
    }
}

// ─── Inspection before importing ─────────────────────────────────────────

/// A skin found in a backup, as listed before importing it, with the
/// permissions it declares.
#[derive(Debug)]
pub struct BackupSkinInfo {
    pub id: String,
    pub name_zh: Option<String>,
    pub name_en: Option<String>,
    pub version: Option<String>,
    pub permissions: Vec<String>,
}

/// What a backup holds: its path, its skins (by id) and the version of the
/// app that wrote it.
#[derive(Debug)]
pub struct BackupInspection {
    pub path: String,
    pub skins: Vec<BackupSkinInfo>,
    pub app_version: Option<String>,
}

/// The listing entry of a backup skin read from its folder `folder`.
pub fn backup_skin_info(manifest: SkinManifest, folder: &str) -> (r: BackupSkinInfo)
    ensures
        r.id@ == resolved_id(opt_ref_view(&manifest.id), folder@),
        r.name_zh == manifest.name_zh,
        r.name_en == manifest.name_en,
        r.version == manifest.version,
        r.permissions == manifest.permissions,
{
    let id = match &manifest.id {
        Some(s) => resolve_skin_id(Some(s.as_str()), folder),
        None => resolve_skin_id(None, folder),
    };
    BackupSkinInfo {
        id,
        name_zh: manifest.name_zh,
        name_en: manifest.name_en,
        version: manifest.version,
        permissions: manifest.permissions,
    }
}

/// The skins are in ascending order of id.
pub open spec fn ids_sorted(s: Seq<BackupSkinInfo>) -> bool {
    forall|a: int, b: int| 0 <= a < b < s.len() ==> str_le(#[trigger] s[a].id@, #[trigger] s[b].id@)
}

/// `p` lists `n` distinct indices below `n`: a permutation of `0..n`.
pub open spec fn is_index_perm(p: Seq<int>, n: int) -> bool {
    &&& p.len() == n
    &&& forall|k: int| 0 <= k < n ==> 0 <= #[trigger] p[k] < n
    &&& forall|a: int, b: int| 0 <= a < b < n ==> #[trigger] p[a] != #[trigger] p[b]
}

/// `r` is `orig` reordered by the permutation `p`, sorted by id, with
/// skins of equal id in their original order.
pub open spec fn stable_sorted_by_id(r: Seq<BackupSkinInfo>, orig: Seq<BackupSkinInfo>, p: Seq<int>) -> bool {
    &&& r.len() == orig.len()
    &&& is_index_perm(p, orig.len() as int)
    &&& forall|k: int| 0 <= k < r.len() ==> #[trigger] r[k] == orig[p[k]]
    &&& ids_sorted(r)
    &&& forall|a: int, b: int|
        0 <= a < b < r.len() && #[trigger] r[a].id@ == #[trigger] r[b].id@ ==> p[a] < p[b]
}

proof fn lemma_insert_keeps_order(
    out: Seq<BackupSkinInfo>,
    perm: Seq<int>,
    orig: Seq<BackupSkinInfo>,
    pos: int,
    k: int,
)
    requires
        0 <= k < orig.len(),
        out.len() == k,
        perm.len() == k,
        0 <= pos <= k,
        forall|q: int| 0 <= q < k ==> 0 <= #[trigger] perm[q] < k,
        forall|a: int, b: int| 0 <= a < b < k ==> #[trigger] perm[a] != #[trigger] perm[b],
        forall|q: int| 0 <= q < k ==> #[trigger] out[q] == orig[perm[q]],
        ids_sorted(out),
        forall|a: int, b: int|
            0 <= a < b < k && #[trigger] out[a].id@ == #[trigger] out[b].id@ ==> perm[a] < perm[b],
        forall|q: int| 0 <= q < pos ==> str_le(#[trigger] out[q].id@, orig[k].id@),
        pos < k ==> !str_le(out[pos].id@, orig[k].id@),
    ensures
        ({
            let o2 = out.insert(pos, orig[k]);
            let p2 = perm.insert(pos, k);
            &&& o2.len() == k + 1
            &&& p2.len() == k + 1
            &&& forall|q: int| 0 <= q < k + 1 ==> 0 <= #[trigger] p2[q] < k + 1
            &&& forall|a: int, b: int| 0 <= a < b < k + 1 ==> #[trigger] p2[a] != #[trigger] p2[b]
            &&& forall|q: int| 0 <= q < k + 1 ==> #[trigger] o2[q] == orig[p2[q]]
            &&& ids_sorted(o2)
            &&& forall|a: int, b: int|
                0 <= a < b < k + 1 && #[trigger] o2[a].id@ == #[trigger] o2[b].id@ ==> p2[a] < p2[b]
        }),
{
    let x = orig[k];
    let o2 = out.insert(pos, x);
    let p2 = perm.insert(pos, k);
    out.insert_ensures(pos, x);
    perm.insert_ensures(pos, k);
    // o2[q] / p2[q] in terms of the old sequences
    assert forall|q: int| 0 <= q < k + 1 implies #[trigger] o2[q] == (if q < pos {
        out[q]
    } else if q == pos {
        x
    } else {
        out[q - 1]
    }) && p2[q] == (if q < pos {
        perm[q]
    } else if q == pos {
        k
    } else {
        perm[q - 1]
    }) by {
        if q > pos {
            assert(o2[(q - 1) + 1] == out[q - 1]);
            assert(p2[(q - 1) + 1] == perm[q - 1]);
        }
    }
    assert forall|q: int| 0 <= q < k + 1 implies 0 <= #[trigger] p2[q] < k + 1 by {
        if q < pos {
            assert(0 <= perm[q] < k);
        } else if q > pos {
            assert(0 <= perm[q - 1] < k);
        }
    }
    assert forall|a: int, b: int| 0 <= a < b < k + 1 implies #[trigger] p2[a] != #[trigger] p2[b] by {
        let pa = if a < pos { a } else { a - 1 };
        let pb = if b < pos { b } else { b - 1 };
        if a != pos && b != pos {
            assert(p2[a] == perm[pa] && p2[b] == perm[pb]);
            assert(perm[pa] != perm[pb]);
        } else if a == pos {
            assert(p2[b] == perm[pb]);
            assert(perm[pb] < k);
        } else {
            assert(p2[a] == perm[pa]);
            assert(perm[pa] < k);
        }
    }
    assert forall|q: int| 0 <= q < k + 1 implies #[trigger] o2[q] == orig[p2[q]] by {
        if q < pos {
            assert(out[q] == orig[perm[q]]);
        } else if q > pos {
            assert(out[q - 1] == orig[perm[q - 1]]);
        }
    }
    assert forall|a: int, b: int| 0 <= a < b < o2.len() implies str_le(#[trigger] o2[a].id@, #[trigger] o2[b].id@) by {
        let pa = if a < pos { a } else { a - 1 };
        let pb = if b < pos { b } else { b - 1 };
        if a != pos && b != pos {
            assert(o2[a] == out[pa] && o2[b] == out[pb]);
            if pa < pb {
                assert(str_le(out[pa].id@, out[pb].id@));
            } else {
                lemma_str_le_refl(out[pa].id@);
            }
        } else if b == pos {
            assert(o2[a] == out[a]);
            assert(str_le(out[a].id@, x.id@));
        } else {
            // a == pos < b: x sorts before out[pos] <= out[b - 1]
            assert(o2[b] == out[pb]);
            lemma_str_le_total(out[pos].id@, x.id@);
            if pb > pos {
                assert(str_le(out[pos].id@, out[pb].id@));
                lemma_str_le_trans(x.id@, out[pos].id@, out[pb].id@);
            }
        }
    }
    assert forall|a: int, b: int|
        0 <= a < b < k + 1 && #[trigger] o2[a].id@ == #[trigger] o2[b].id@ implies p2[a] < p2[b] by {
        let pa = if a < pos { a } else { a - 1 };
        let pb = if b < pos { b } else { b - 1 };
        if a != pos && b != pos {
            assert(o2[a] == out[pa] && o2[b] == out[pb]);
            assert(p2[a] == perm[pa] && p2[b] == perm[pb]);
        } else if b == pos {
            assert(p2[a] == perm[a]);
            assert(perm[a] < k);
        } else {
            // an equal id after the insertion point would sort before x
            assert(o2[b] == out[pb]);
            assert(str_le(out[pos].id@, out[pb].id@)) by {
                if pb > pos {
                } else {
                    lemma_str_le_refl(out[pos].id@);
                }
            }
            lemma_str_le_refl(x.id@);
            lemma_str_le_trans(out[pos].id@, out[pb].id@, x.id@);
        }
    }
}

proof fn lemma_str_le_refl(a: Seq<char>)
    ensures
        str_le(a, a),
{
    lemma_str_le_total(a, a);
}

/// Orders a backup's skins by id, keeping skins of equal id in the order
/// they were found (a stable sort).
pub fn sort_backup_skins(skins: Vec<BackupSkinInfo>) -> (r: Vec<BackupSkinInfo>)
    ensures
        exists|p: Seq<int>| stable_sorted_by_id(r@, skins@, p),
{
    let ghost orig = skins@;
    let n: usize = skins.len();
    let mut rest = skins;
    let mut out: Vec<BackupSkinInfo> = Vec::new();
    let ghost mut perm: Seq<int> = Seq::empty();
    let mut k: usize = 0;
    assert(orig.skip(0) =~= orig);
    while rest.len() > 0
        invariant
            k + rest.len() == n,
            n == orig.len(),
            rest@ == orig.skip(k as int),
            out.len() == k,
            perm.len() == k,
            forall|q: int| 0 <= q < k ==> 0 <= #[trigger] perm[q] < k,
            forall|a: int, b: int| 0 <= a < b < k ==> #[trigger] perm[a] != #[trigger] perm[b],
            forall|q: int| 0 <= q < k ==> #[trigger] out@[q] == orig[perm[q]],
            ids_sorted(out@),
            forall|a: int, b: int|
                0 <= a < b < k && #[trigger] out@[a].id@ == #[trigger] out@[b].id@ ==> perm[a] < perm[b],
        decreases rest.len(),
    {
        let item = rest.remove(0);
        assert(item == orig[k as int]);
        assert(rest@ =~= orig.skip(k + 1));
        let iv = chars_of(item.id.as_str());
        let mut pos: usize = 0;
        let mut done = false;
        while pos < out.len() && !done
            invariant
                pos <= out.len(),
                iv@ == item.id@,
                forall|q: int| 0 <= q < pos ==> str_le(#[trigger] out@[q].id@, item.id@),
                done ==> pos < out.len() && !str_le(out@[pos as int].id@, item.id@),
            decreases out.len() - pos, if done { 0int } else { 1int },
        {
            let c = chars_of(out[pos].id.as_str());
            if crate::text::str_le_exec(&c, &iv) {
                pos = pos + 1;
            } else {
                done = true;
            }
        }
        proof {
            lemma_insert_keeps_order(out@, perm, orig, pos as int, k as int);
            perm = perm.insert(pos as int, k as int);
        }
        out.insert(pos, item);
        k = k + 1;
    }
    assert(stable_sorted_by_id(out@, orig, perm));
    out
}

// ─── Selective import ────────────────────────────────────────────────────

pub open spec fn pairs_view(v: Seq<(String, String)>) -> Seq<(Seq<char>, Seq<char>)> {
    v.map_values(|e: (String, String)| (e.0@, e.1@))
}

/// The backup folder of the first backup skin with id `id`.
pub open spec fn folder_for(available: Seq<(Seq<char>, Seq<char>)>, id: Seq<char>) -> Option<Seq<char>>
    decreases available.len(),
{
    if available.len() == 0 {
        None
    } else if available[0].0 == id {
        Some(available[0].1)
    } else {
        folder_for(available.drop_first(), id)
    }
}

/// The selected ids found in the backup, each with its backup folder, in
/// the order of selection.
pub open spec fn found_selection(
    selected: Seq<Seq<char>>,
    available: Seq<(Seq<char>, Seq<char>)>,
) -> Seq<(Seq<char>, Seq<char>)>
    decreases selected.len(),
{
    if selected.len() == 0 {
        Seq::empty()
    } else {
        let prev = found_selection(selected.drop_last(), available);
        match folder_for(available, selected.last()) {
            Some(f) => prev.push((selected.last(), f)),
            None => prev,
        }
    }
}

/// The selected ids that the backup does not hold, in order.
pub open spec fn missing_selection(selected: Seq<Seq<char>>, available: Seq<(Seq<char>, Seq<char>)>) -> Seq<
    Seq<char>,
>
    decreases selected.len(),
{
    if selected.len() == 0 {
        Seq::empty()
    } else {
        let prev = missing_selection(selected.drop_last(), available);
        match folder_for(available, selected.last()) {
            Some(_) => prev,
            None => prev.push(selected.last()),
        }
    }
}

fn folder_lookup(available: &Vec<(String, String)>, id: &Vec<char>) -> (r: Option<String>)
    ensures
        opt_view(r) == folder_for(pairs_view(available@), id@),
{
    let ghost e = pairs_view(available@);
    let mut i: usize = 0;
    assert(e.skip(0) =~= e);
    while i < available.len()
        invariant
            i <= available.len(),
            e == pairs_view(available@),
            folder_for(e, id@) == folder_for(e.skip(i as int), id@),
        decreases available.len() - i,
    {
        let c = chars_of(available[i].0.as_str());
        assert(e.skip(i as int)[0] == e[i as int]);
        if chars_eq(&c, id) {
            return Some(available[i].1.clone());
        }
        assert(e.skip(i as int).drop_first() =~= e.skip(i + 1));
        i = i + 1;
    }
    None
}

pub open spec fn opt_view(o: Option<String>) -> Option<Seq<char>> {
    match o {
        Some(s) => Some(s@),
        None => None,
    }
}

/// Splits the selected ids into those the backup holds (each with the
/// backup folder it is in: `available` lists the backup's skins as
/// (id, folder) in folder order) and those it does not.  Refused with the
/// invalid-backup message when none of them is there.
pub fn select_backup_skins(
    selected: &Vec<String>,
    available: &Vec<(String, String)>,
    lang: &str,
) -> (r: Result<(Vec<(String, String)>, Vec<String>), String>)
    ensures
        match r {
            Ok(p) => pairs_view(p.0@) == found_selection(strings_view(selected@), pairs_view(available@))
                && strings_view(p.1@) == missing_selection(strings_view(selected@), pairs_view(available@))
                && p.0.len() > 0,
            Err(e) => found_selection(strings_view(selected@), pairs_view(available@)).len() == 0
                && e@ == tr_text(lang@, Key::InvalidBackup),
        },
{
    let ghost sel = strings_view(selected@);
    let ghost av = pairs_view(available@);
    let mut found: Vec<(String, String)> = Vec::new();
    let mut missing: Vec<String> = Vec::new();
    let mut i: usize = 0;
    assert(sel.take(0) =~= Seq::<Seq<char>>::empty());
    while i < selected.len()
        invariant
            i <= selected.len(),
            sel == strings_view(selected@),
            av == pairs_view(available@),
            pairs_view(found@) == found_selection(sel.take(i as int), av),
            strings_view(missing@) == missing_selection(sel.take(i as int), av),
        decreases selected.len() - i,
    {
        let idv = chars_of(selected[i].as_str());
        assert(sel.take(i + 1).drop_last() =~= sel.take(i as int));
        assert(sel.take(i + 1).last() == selected@[i as int]@);
        match folder_lookup(available, &idv) {
            Some(f) => {
                let ghost before = pairs_view(found@);
                found.push((selected[i].clone(), f));
                assert(pairs_view(found@) =~= before.push((sel[i as int], f@)));
            },
            None => {
                let ghost before = strings_view(missing@);
                missing.push(selected[i].clone());
                assert(strings_view(missing@) =~= before.push(sel[i as int]));
            },
        }
        i = i + 1;
    }
    assert(sel.take(selected.len() as int) =~= sel);
    if found.len() == 0 {
        return Err(tr(lang, Key::InvalidBackup).to_string());
    }
    Ok((found, missing))
}


// ─── Merging a backup into the local config ──────────────────────────────

/// A layout preset as a value: id, name and the placed skins.
pub type PresetModel = (Seq<char>, Seq<char>, Seq<(Seq<char>, LayoutSkin)>);

pub open spec fn preset_model(p: LayoutPreset) -> PresetModel {
    (p.id@, p.name@, p.skins@.map_values(|e: (String, LayoutSkin)| (e.0@, e.1)))
}

pub open spec fn presets_model(v: Seq<LayoutPreset>) -> Seq<PresetModel> {
    v.map_values(|p: LayoutPreset| preset_model(p))
}

/// One backup preset merged in: it replaces the first local preset with
/// its id, or is appended.
pub open spec fn merge_one(cur: Seq<PresetModel>, x: PresetModel) -> Seq<PresetModel>
    decreases cur.len(),
{
    if cur.len() == 0 {
        seq![x]
    } else if cur[0].0 == x.0 {
        seq![x] + cur.drop_first()
    } else {
        seq![cur[0]] + merge_one(cur.drop_first(), x)
    }
}

/// The backup presets merged in, in order.
pub open spec fn merge_all(cur: Seq<PresetModel>, backup: Seq<PresetModel>) -> Seq<PresetModel>
    decreases backup.len(),
{
    if backup.len() == 0 {
        cur
    } else {
        merge_all(merge_one(cur, backup[0]), backup.drop_first())
    }
}

/// The first preset with id `id`.
pub open spec fn preset_by_id(s: Seq<PresetModel>, id: Seq<char>) -> Option<PresetModel>
    decreases s.len(),
{
    if s.len() == 0 {
        None
    } else if s[0].0 == id {
        Some(s[0])
    } else {
        preset_by_id(s.drop_first(), id)
    }
}

/// The last preset with id `id`.
pub open spec fn last_preset_by_id(s: Seq<PresetModel>, id: Seq<char>) -> Option<PresetModel>
    decreases s.len(),
{
    if s.len() == 0 {
        None
    } else if s.last().0 == id {
        Some(s.last())
    } else {
        last_preset_by_id(s.drop_last(), id)
    }
}

proof fn lemma_merge_one_update(cur: Seq<PresetModel>, x: PresetModel, i: int)
    requires
        0 <= i < cur.len(),
        cur[i].0 == x.0,
        forall|j: int| 0 <= j < i ==> #[trigger] cur[j].0 != x.0,
    ensures
        merge_one(cur, x) == cur.update(i, x),
    decreases cur.len(),
{
    if i == 0 {
        assert(merge_one(cur, x) =~= cur.update(0, x));
    } else {
        let d = cur.drop_first();
        assert(cur[0].0 != x.0);
        assert forall|j: int| 0 <= j < i - 1 implies #[trigger] d[j].0 != x.0 by {
            assert(d[j] == cur[j + 1]);
        }
        lemma_merge_one_update(d, x, i - 1);
        assert(seq![cur[0]] + d.update(i - 1, x) =~= cur.update(i, x));
    }
}

proof fn lemma_merge_one_push(cur: Seq<PresetModel>, x: PresetModel)
    requires
        forall|j: int| 0 <= j < cur.len() ==> #[trigger] cur[j].0 != x.0,
    ensures
        merge_one(cur, x) == cur.push(x),
    decreases cur.len(),
{
    if cur.len() == 0 {
        assert(merge_one(cur, x) =~= cur.push(x));
    } else {
        let d = cur.drop_first();
        assert(cur[0].0 != x.0);
        assert forall|j: int| 0 <= j < d.len() implies #[trigger] d[j].0 != x.0 by {
            assert(d[j] == cur[j + 1]);
        }
        lemma_merge_one_push(d, x);
        assert(seq![cur[0]] + d.push(x) =~= cur.push(x));
    }
}

proof fn lemma_merge_one_lookup(cur: Seq<PresetModel>, x: PresetModel, id: Seq<char>)
    ensures
        preset_by_id(merge_one(cur, x), id) == (if x.0 == id {
            Some(x)
        } else {
            preset_by_id(cur, id)
        }),
    decreases cur.len(),
{
    let m = merge_one(cur, x);
    if cur.len() == 0 {
        assert(m =~= seq![x]);
        assert(m[0] == x);
        assert(m.drop_first() =~= Seq::<PresetModel>::empty());
        assert(preset_by_id(m.drop_first(), id) is None);
        assert(preset_by_id(cur, id) is None);
    } else if cur[0].0 == x.0 {
        assert(m =~= seq![x] + cur.drop_first());
        assert(m[0] == x);
        assert(m.drop_first() =~= cur.drop_first());
    } else {
        lemma_merge_one_lookup(cur.drop_first(), x, id);
        assert(m[0] == cur[0]);
        assert(m.drop_first() =~= merge_one(cur.drop_first(), x));
    }
}

/// Merging backup layouts: every id keeps the backup's preset when the
/// backup has one (the last one it lists), otherwise the local one; no
/// preset is lost.
pub proof fn law_merge_layouts(cur: Seq<PresetModel>, backup: Seq<PresetModel>, id: Seq<char>)
    ensures
        preset_by_id(merge_all(cur, backup), id) == match last_preset_by_id(backup, id) {
            Some(p) => Some(p),
            None => preset_by_id(cur, id),
        },
    decreases backup.len(),
{
    if backup.len() > 0 {
        let c1 = merge_one(cur, backup[0]);
        let rest = backup.drop_first();
        law_merge_layouts(c1, rest, id);
        lemma_merge_one_lookup(cur, backup[0], id);
        lemma_last_preset_front(backup, id);
    }
}

proof fn lemma_last_preset_front(b: Seq<PresetModel>, id: Seq<char>)
    requires
        b.len() > 0,
    ensures
        last_preset_by_id(b, id) == match last_preset_by_id(b.drop_first(), id) {
            Some(p) => Some(p),
            None => if b[0].0 == id {
                Some(b[0])
            } else {
                None
            },
        },
    decreases b.len(),
{
    if b.len() == 1 {
        assert(b.drop_first() =~= Seq::<PresetModel>::empty());
        assert(b.drop_last() =~= Seq::<PresetModel>::empty());
    } else {
        let d = b.drop_last();
        lemma_last_preset_front(d, id);
        assert(d.drop_first() =~= b.drop_first().drop_last());
        assert(b.drop_first().last() == b.last());
        assert(d[0] == b[0]);
    }
}

fn preset_index(layouts: &Vec<LayoutPreset>, id: &Vec<char>) -> (r: Option<usize>)
    ensures
        match r {
            Some(i) => i < layouts.len() && layouts@[i as int].id@ == id@ && forall|j: int|
                0 <= j < i ==> #[trigger] presets_model(layouts@)[j].0 != id@,
            None => forall|j: int| 0 <= j < layouts.len() ==> #[trigger] presets_model(layouts@)[j].0 != id@,
        },
{
    let mut i: usize = 0;
    while i < layouts.len()
        invariant
            i <= layouts.len(),
            forall|j: int| 0 <= j < i ==> #[trigger] presets_model(layouts@)[j].0 != id@,
        decreases layouts.len() - i,
    {
        let c = chars_of(layouts[i].id.as_str());
        if chars_eq(&c, id) {
            return Some(i);
        }
        assert(presets_model(layouts@)[i as int].0 == layouts@[i as int].id@);
        i = i + 1;
    }
    None
}

/// Merges the layout presets of a backup into the local ones: by id, the
/// backup's version wins; local-only presets stay; backup-only presets are
/// appended.  Presets that name skins not imported are kept as they are.
pub fn merge_backup_layouts(layouts: &mut Vec<LayoutPreset>, backup: Vec<LayoutPreset>)
    ensures
        presets_model(final(layouts)@) == merge_all(presets_model(old(layouts)@), presets_model(backup@)),
{
    let ghost b = presets_model(backup@);
    let mut rest = backup;
    let n: usize = rest.len();
    let ghost start = presets_model(layouts@);
    let mut k: usize = 0;
    assert(b.skip(0) =~= b);
    while rest.len() > 0
        invariant
            presets_model(rest@) == b.skip(k as int),
            k + rest.len() == n,
            n == b.len(),
            merge_all(presets_model(layouts@), presets_model(rest@)) == merge_all(start, b),
        decreases rest.len(),
    {
        let l = rest.remove(0);
        let ghost lm = preset_model(l);
        assert(presets_model(rest@) =~= b.skip(k as int).drop_first());
        assert(b.skip(k as int)[0] == lm);
        let ghost cur = presets_model(layouts@);
        let lid = chars_of(l.id.as_str());
        match preset_index(layouts, &lid) {
            Some(i) => {
                proof {
                    lemma_merge_one_update(cur, lm, i as int);
                }
                layouts.set(i, l);
                assert(presets_model(layouts@) =~= cur.update(i as int, lm));
            },
            None => {
                proof {
                    lemma_merge_one_push(cur, lm);
                }
                layouts.push(l);
                assert(presets_model(layouts@) =~= cur.push(lm));
            },
        }
        assert(b.skip(k as int).drop_first() =~= b.skip(k + 1));
        k = k + 1;
    }
    assert(presets_model(rest@) =~= Seq::<PresetModel>::empty());
}

/// The loaded skins after a selective import: every imported id that the
/// backup had loaded is added, once, at the end.
pub open spec fn merged_loaded(
    loaded: Seq<Seq<char>>,
    backup_loaded: Seq<Seq<char>>,
    imported: Seq<Seq<char>>,
) -> Seq<Seq<char>>
    decreases imported.len(),
{
    if imported.len() == 0 {
        loaded
    } else {
        let prev = merged_loaded(loaded, backup_loaded, imported.drop_last());
        let id = imported.last();
        if backup_loaded.contains(id) && !prev.contains(id) {
            prev.push(id)
        } else {
            prev
        }
    }
}

/// Adds to `loaded` the imported skins that were loaded in the backup.
pub fn merge_loaded_skins(loaded: &mut Vec<String>, backup_loaded: &Vec<String>, imported: &Vec<String>)
    ensures
        strings_view(final(loaded)@) == merged_loaded(
            strings_view(old(loaded)@),
            strings_view(backup_loaded@),
            strings_view(imported@),
        ),
{
    let ghost start = strings_view(loaded@);
    let ghost imp = strings_view(imported@);
    let mut i: usize = 0;
    assert(imp.take(0) =~= Seq::<Seq<char>>::empty());
    while i < imported.len()
        invariant
            i <= imported.len(),
            imp == strings_view(imported@),
            strings_view(loaded@) == merged_loaded(start, strings_view(backup_loaded@), imp.take(i as int)),
        decreases imported.len() - i,
    {
        assert(imp.take(i + 1).drop_last() =~= imp.take(i as int));
        assert(imp.take(i + 1).last() == imported@[i as int]@);
        let id = imported[i].as_str();
        if crate::text::contains_string(backup_loaded, id) && !crate::text::contains_string(loaded, id) {
            let ghost before = strings_view(loaded@);
            loaded.push(imported[i].clone());
            assert(strings_view(loaded@) =~= before.push(imp[i as int]));
        }
        i = i + 1;
    }
    assert(imp.take(imported.len() as int) =~= imp);
}

/// The skins in `loaded` that are among `selected`, in order.
pub open spec fn loaded_among(loaded: Seq<Seq<char>>, selected: Seq<Seq<char>>) -> Seq<Seq<char>>
    decreases loaded.len(),
{
    if loaded.len() == 0 {
        loaded
    } else {
        let prev = loaded_among(loaded.drop_last(), selected);
        if selected.contains(loaded.last()) {
            prev.push(loaded.last())
        } else {
            prev
        }
    }
}

/// The imported skins to load after a selective import: the loaded ones
/// among the selection, in load order.
pub fn loaded_selection(loaded: &Vec<String>, selected: &Vec<String>) -> (r: Vec<String>)
    ensures
        strings_view(r@) == loaded_among(strings_view(loaded@), strings_view(selected@)),
{
    let ghost l = strings_view(loaded@);
    let mut out: Vec<String> = Vec::new();
    let mut i: usize = 0;
    assert(l.take(0) =~= Seq::<Seq<char>>::empty());
    while i < loaded.len()
        invariant
            i <= loaded.len(),
            l == strings_view(loaded@),
            strings_view(out@) == loaded_among(l.take(i as int), strings_view(selected@)),
        decreases loaded.len() - i,
    {
        assert(l.take(i + 1).drop_last() =~= l.take(i as int));
        assert(l.take(i + 1).last() == loaded@[i as int]@);
        if crate::text::contains_string(selected, loaded[i].as_str()) {
            let ghost before = strings_view(out@);
            out.push(loaded[i].clone());
            assert(strings_view(out@) =~= before.push(l[i as int]));
        }
        i = i + 1;
    }
    assert(l.take(loaded.len() as int) =~= l);
    out
}

/// Importing the same selection twice adds nothing the second time.
pub proof fn law_merge_loaded_idempotent(
    loaded: Seq<Seq<char>>,
    backup_loaded: Seq<Seq<char>>,
    imported: Seq<Seq<char>>,
)
    ensures
        merged_loaded(merged_loaded(loaded, backup_loaded, imported), backup_loaded, imported)
            == merged_loaded(loaded, backup_loaded, imported),
{
    lemma_merged_contains(loaded, backup_loaded, imported);
    lemma_merged_noop(merged_loaded(loaded, backup_loaded, imported), backup_loaded, imported);
}

proof fn lemma_merged_contains(loaded: Seq<Seq<char>>, backup_loaded: Seq<Seq<char>>, imported: Seq<Seq<char>>)
    ensures
        forall|j: int|
            0 <= j < imported.len() && backup_loaded.contains(imported[j]) ==> merged_loaded(
                loaded,
                backup_loaded,
                imported,
            ).contains(#[trigger] imported[j]),
        forall|x: Seq<char>| loaded.contains(x) ==> #[trigger] merged_loaded(loaded, backup_loaded, imported).contains(x),
    decreases imported.len(),
{
    if imported.len() > 0 {
        let d = imported.drop_last();
        lemma_merged_contains(loaded, backup_loaded, d);
        let prev = merged_loaded(loaded, backup_loaded, d);
        let m = merged_loaded(loaded, backup_loaded, imported);
        assert forall|x: Seq<char>| prev.contains(x) implies m.contains(x) by {
            let k = choose|k: int| 0 <= k < prev.len() && prev[k] == x;
            if m != prev {
                assert(m[k] == prev[k]);
            }
        }
        assert forall|j: int| 0 <= j < imported.len() && backup_loaded.contains(imported[j]) implies m.contains(
            #[trigger] imported[j],
        ) by {
            if j < d.len() {
                assert(d[j] == imported[j]);
                assert(prev.contains(d[j]));
            } else {
                if !prev.contains(imported.last()) {
                    assert(m[m.len() - 1] == imported.last());
                }
            }
        }
    }
}

proof fn lemma_merged_noop(loaded: Seq<Seq<char>>, backup_loaded: Seq<Seq<char>>, imported: Seq<Seq<char>>)
    requires
        forall|j: int|
            0 <= j < imported.len() && backup_loaded.contains(imported[j]) ==> loaded.contains(
                #[trigger] imported[j],
            ),
    ensures
        merged_loaded(loaded, backup_loaded, imported) == loaded,
    decreases imported.len(),
{
    if imported.len() > 0 {
        let d = imported.drop_last();
        assert forall|j: int| 0 <= j < d.len() && backup_loaded.contains(d[j]) implies loaded.contains(
            #[trigger] d[j],
        ) by {
            assert(d[j] == imported[j]);
        }
        lemma_merged_noop(loaded, backup_loaded, d);
        if backup_loaded.contains(imported.last()) {
            assert(imported[imported.len() - 1] == imported.last());
        }
    }
}

// ─── Replacing skin folders ──────────────────────────────────────────────

/// Where a selected skin goes: the folder of the local skin with the same
/// id (its folder name is kept), else the fallback folder named after the
/// backup folder.  `local` lists the local skins as (id, folder path).
pub open spec fn swap_target_of(
    local: Seq<(Seq<char>, Seq<char>)>,
    id: Seq<char>,
    fallback: Seq<char>,
) -> (Seq<char>, bool) {
    match folder_for(local, id) {
        Some(dir) => (dir, true),
        None => (fallback, false),
    }
}

/// The folder to replace for skin `id`, and whether it was found by id.
pub fn swap_target(local: &Vec<(String, String)>, id: &str, fallback: &str) -> (r: (String, bool))
    ensures
        (r.0@, r.1) == swap_target_of(pairs_view(local@), id@, fallback@),
{
    let idv = chars_of(id);
    match folder_lookup(local, &idv) {
        Some(dir) => (dir, true),
        None => (fallback.to_string(), false),
    }
}

/// A fallback folder that already exists belongs to a skin of another id
/// (no local skin has this id): replacing it would destroy that skin, so
/// the whole import is refused before anything is touched.
pub fn check_fallback_free(by_id: bool, target_exists: bool, folder_name: &str, lang: &str) -> (r: Result<
    (),
    String,
>)
    ensures
        unit_result(r) == (if !by_id && target_exists {
            Err(msg1(lang@, Key::ImportFolderConflict, folder_name@))
        } else {
            Ok(())
        }),
{
    if !by_id && target_exists {
        Err(err1(lang, Key::ImportFolderConflict, folder_name))
    } else {
        Ok(())
    }
}

pub open spec fn is_sep(c: char) -> bool {
    c == '/' || c == '\\'
}

/// `p` without its trailing separators.
pub open spec fn trim_trailing_seps(p: Seq<char>) -> Seq<char>
    decreases p.len(),
{
    if p.len() > 0 && is_sep(p.last()) {
        trim_trailing_seps(p.drop_last())
    } else {
        p
    }
}

/// The sibling a data directory is moved aside to while a full import
/// replaces it: the same path with ".import-old" appended to its last
/// component (trailing separators dropped).
pub open spec fn import_old_path(dir: Seq<char>) -> Seq<char> {
    trim_trailing_seps(dir) + ".import-old"@
}

/// The `.import-old` sibling of a data directory.
pub fn import_old_sibling(dir: &str) -> (r: String)
    ensures
        r@ == import_old_path(dir@),
{
    let v = chars_of(dir);
    let mut n: usize = v.len();
    assert(v@.take(v.len() as int) =~= v@);
    while n > 0 && (v[n - 1] == '/' || v[n - 1] == '\\')
        invariant
            n <= v.len(),
            trim_trailing_seps(v@) == trim_trailing_seps(v@.take(n as int)),
        decreases n,
    {
        assert(v@.take(n as int).drop_last() =~= v@.take(n - 1));
        n = n - 1;
    }
    let mut out = crate::text::sub_chars(&v, 0, n);
    assert(out@ =~= v@.take(n as int));
    let tail = chars_of(".import-old");
    crate::text::extend_chars(&mut out, &tail);
    crate::text::string_of(&out)
}

// ─── Export ──────────────────────────────────────────────────────────────

/// Entries an export leaves out: staged-replace leftovers of package
/// installs and of earlier imports.
pub open spec fn export_skips(name: Seq<char>) -> bool {
    starts_with(name, ".staging-"@) || ends_with(name, ".old"@) || ends_with(name, ".import-old"@)
}

/// Whether an export skips the entry `name`.
pub fn skipped_in_export(name: &str) -> (b: bool)
    ensures
        b == export_skips(name@),
{
    let v = chars_of(name);
    let staging = chars_of(".staging-");
    let old = chars_of(".old");
    let import_old = chars_of(".import-old");
    crate::text::starts_with_exec(&v, &staging) || crate::text::ends_with_exec(&v, &old)
        || crate::text::ends_with_exec(&v, &import_old)
}

/// Files and bytes taken into an export so far, after one more file of
/// `len` bytes; refused past 5000 files or 256 MB (bytes add up saturating).
pub open spec fn export_count(files: nat, total: u64, len: u64) -> Result<(nat, u64), Seq<char>> {
    let f = files + 1;
    let t = if total + len > u64::MAX {
        u64::MAX
    } else {
        (total + len) as u64
    };
    if f > MAX_FILES {
        Err("too many files (> 5000)"@)
    } else if t > MAX_TOTAL_BYTES {
        Err("backup too large (> 268435456 bytes)"@)
    } else {
        Ok((f, t))
    }
}

/// Counts one more exported file; the refusal is wrapped in the
/// export-failed message.
pub fn note_export_file(files: usize, total: u64, len: u64, lang: &str) -> (r: Result<(usize, u64), String>)
    requires
        files <= MAX_FILES,
    ensures
        match r {
            Ok(p) => export_count(files as nat, total, len) == Ok::<(nat, u64), Seq<char>>(
                (p.0 as nat, p.1),
            ),
            Err(e) => exists|why: Seq<char>|
                export_count(files as nat, total, len) == Err::<(nat, u64), Seq<char>>(why) && e@
                    == msg1(lang@, Key::ExportBackupFailed, why),
        },
{
    let f = files + 1;
    let t = total.saturating_add(len);
    if f > MAX_FILES {
        let why = "too many files (> 5000)";
        Err(err1(lang, Key::ExportBackupFailed, why))
    } else if t > MAX_TOTAL_BYTES {
        let why = "backup too large (> 268435456 bytes)";
        Err(err1(lang, Key::ExportBackupFailed, why))
    } else {
        Ok((f, t))
    }
}

/// The zip entry name of an exported file: the prefix and the file's path
/// components below the exported directory, joined with '/'.
pub open spec fn entry_name(prefix: Seq<char>, components: Seq<Seq<char>>) -> Seq<char>
    decreases components.len(),
{
    if components.len() == 0 {
        prefix
    } else {
        entry_name(prefix, components.drop_last()) + "/"@ + components.last()
    }
}

/// Builds the zip entry name of an exported file.
pub fn export_entry_name(prefix: &str, components: &Vec<String>) -> (r: String)
    ensures
        r@ == entry_name(prefix@, strings_view(components@)),
{
    let ghost cs = strings_view(components@);
    let mut out = chars_of(prefix);
    let mut i: usize = 0;
    assert(cs.take(0) =~= Seq::<Seq<char>>::empty());
    while i < components.len()
        invariant
            i <= components.len(),
            cs == strings_view(components@),
            out@ == entry_name(prefix@, cs.take(i as int)),
        decreases components.len() - i,
    {
        assert(cs.take(i + 1).drop_last() =~= cs.take(i as int));
        assert(cs.take(i + 1).last() == components@[i as int]@);
        let ghost before = out@;
        out.push('/');
        let c = chars_of(components[i].as_str());
        crate::text::extend_chars(&mut out, &c);
        proof {
            reveal_strlit("/");
        }
        assert(out@ =~= before + "/"@ + cs[i as int]);
        i = i + 1;
    }
    assert(cs.take(components.len() as int) =~= cs);
    crate::text::string_of(&out)
}

/// An export destination must not lie inside a directory it exports (the
/// zip being written would be packed into itself): compared by path
/// components.
pub open spec fn inside_dir(parent: Seq<char>, dir: Seq<char>) -> bool {
    let p = parts(parent);
    let d = parts(dir);
    d.len() <= p.len() && p.take(d.len() as int) == d
}

/// Checks the directory an export is written to against the exported
/// directories.
pub fn check_export_destination(dest_parent: &str, config_dir: &str, skins_dir: &str, lang: &str) -> (r:
    Result<(), String>)
    ensures
        unit_result(r) == (if inside_dir(dest_parent@, config_dir@) || inside_dir(dest_parent@, skins_dir@) {
            Err(msg1(lang@, Key::ExportBackupFailed, "destination must not be inside config/ or skins/"@))
        } else {
            Ok(())
        }),
{
    if path_inside(dest_parent, config_dir) || path_inside(dest_parent, skins_dir) {
        let why = "destination must not be inside config/ or skins/";
        Err(err1(lang, Key::ExportBackupFailed, why))
    } else {
        Ok(())
    }
}

fn path_inside(parent: &str, dir: &str) -> (b: bool)
    ensures
        b == inside_dir(parent@, dir@),
{
    let pv = chars_of(parent);
    let dv = chars_of(dir);
    let p = parts_exec(&pv);
    let d = parts_exec(&dv);
    if d.len() > p.len() {
        return false;
    }
    let mut i: usize = 0;
    while i < d.len()
        invariant
            views(p@) == parts(parent@),
            views(d@) == parts(dir@),
            i <= d.len() <= p.len(),
            forall|j: int| 0 <= j < i ==> views(p@)[j] == views(d@)[j],
        decreases d.len() - i,
    {
        if !chars_eq(&p[i], &d[i]) {
            assert(views(p@).take(d.len() as int)[i as int] != views(d@)[i as int]);
            return false;
        }
        i = i + 1;
    }
    assert(views(p@).take(d.len() as int) =~= views(d@));
    true
}

/// Ids joined with ", ".
pub open spec fn comma_joined(ids: Seq<Seq<char>>) -> Seq<char>
    decreases ids.len(),
{
    if ids.len() == 0 {
        Seq::empty()
    } else if ids.len() == 1 {
        ids[0]
    } else {
        comma_joined(ids.drop_last()) + ", "@ + ids.last()
    }
}

/// The error of a selective import aborted after some skins were unloaded:
/// the cause, then which skins can be loaded again.
pub fn partial_unload_error(cause: &str, unloaded: &Vec<String>, lang: &str) -> (r: String)
    ensures
        r@ == cause@ + " "@ + msg1(lang@, Key::ImportPartialUnloaded, comma_joined(strings_view(unloaded@))),
{
    let ghost ids = strings_view(unloaded@);
    let mut joined: Vec<char> = Vec::new();
    let mut i: usize = 0;
    assert(ids.take(0) =~= Seq::<Seq<char>>::empty());
    while i < unloaded.len()
        invariant
            i <= unloaded.len(),
            ids == strings_view(unloaded@),
            joined@ == comma_joined(ids.take(i as int)),
        decreases unloaded.len() - i,
    {
        assert(ids.take(i + 1).drop_last() =~= ids.take(i as int));
        assert(ids.take(i + 1).last() == unloaded@[i as int]@);
        let c = chars_of(unloaded[i].as_str());
        if i > 0 {
            let ghost before = joined@;
            joined.push(',');
            joined.push(' ');
            crate::text::extend_chars(&mut joined, &c);
            proof {
                reveal_strlit(", ");
            }
            assert(joined@ =~= before + ", "@ + c@);
        } else {
            crate::text::extend_chars(&mut joined, &c);
            assert(ids.take(1) =~= seq![ids[0]]);
            assert(joined@ =~= c@);
        }
        i = i + 1;
    }
    assert(ids.take(unloaded.len() as int) =~= ids);
    let js = crate::text::string_of(&joined);
    let m = err1(lang, Key::ImportPartialUnloaded, js.as_str());
    let mut out = chars_of(cause);
    out.push(' ');
    let mv = chars_of(m.as_str());
    crate::text::extend_chars(&mut out, &mv);
    proof {
        reveal_strlit(" ");
    }
    assert(out@ =~= cause@ + " "@ + m@);
    crate::text::string_of(&out)
}

/// Writes the backup archive of `files` (entry names and data, in order:
/// the manifest first, then `config/` and `skins/`): refused when an entry's
/// path is too long for a zip archive; otherwise what the zip writer gives
/// for exactly those files, its archive or the export-failed message with
/// its error text.
pub fn build_backup(files: &Vec<(String, Vec<u8>)>, lang: &str) -> (r: Result<Vec<u8>, String>)
    ensures
        !crate::archive::names_fit(crate::archive::files_view(files@)) ==> (r matches Err(m) && m@
            == msg1(lang@, Key::ExportBackupFailed, crate::archive::name_too_long_reason())),
        crate::archive::names_fit(crate::archive::files_view(files@)) ==> match crate::archive::zip_written(
            crate::archive::files_view(files@),
        ) {
            Ok(b) => r matches Ok(o) && o@ == b,
            Err(e) => r matches Err(m) && m@ == msg1(lang@, Key::ExportBackupFailed, e),
        },
{
    if !crate::archive::names_fit_exec(files) {
        return Err(err1(lang, Key::ExportBackupFailed, "文件路径过长（超过 65535 字节）"));
    }
    match crate::archive::write_zip(files) {
        Ok(b) => Ok(b),
        Err(e) => Err(err1(lang, Key::ExportBackupFailed, e.as_str())),
    }
}


/// The per-skin settings after a selective import: for each imported id,
/// in order, the backup's entry (when it has one) replaces or joins the
/// current one; every other entry stays.
pub open spec fn merged_settings(
    cur: Seq<(Seq<char>, JsonModel)>,
    backup: Seq<(Seq<char>, JsonModel)>,
    ids: Seq<Seq<char>>,
) -> Seq<(Seq<char>, JsonModel)>
    decreases ids.len(),
{
    if ids.len() == 0 {
        cur
    } else {
        let prev = merged_settings(cur, backup, ids.drop_last());
        match obj_lookup(backup, ids.last()) {
            Some(v) => crate::skin::loader::upsert(prev, ids.last(), v),
            None => prev,
        }
    }
}

/// Takes the imported skins' settings from the backup's config into the
/// current config's per-skin settings (see [`merged_settings`]).
pub fn merge_skin_settings(
    current: &mut Vec<(String, JsonValue)>,
    backup: &Vec<(String, JsonValue)>,
    imported: &Vec<String>,
)
    ensures
        crate::json::entries_model(final(current)@) == merged_settings(
            crate::json::entries_model(old(current)@),
            crate::json::entries_model(backup@),
            crate::text::strings_view(imported@),
        ),
{
    let ghost cur0 = crate::json::entries_model(current@);
    let ghost b = crate::json::entries_model(backup@);
    let ghost ids = crate::text::strings_view(imported@);
    let mut i: usize = 0;
    while i < imported.len()
        invariant
            i <= imported.len(),
            b == crate::json::entries_model(backup@),
            ids == crate::text::strings_view(imported@),
            crate::json::entries_model(current@) == merged_settings(cur0, b, ids.take(i as int)),
        decreases imported.len() - i,
    {
        assert(ids.take(i + 1).drop_last() =~= ids.take(i as int));
        assert(ids.take(i + 1).last() == imported@[i as int]@);
        let key = crate::text::chars_of(imported[i].as_str());
        match crate::json::object_get(backup, &key) {
            Some(v) => {
                crate::skin::loader::set_value(current, imported[i].clone(), v.copy());
            },
            None => {},
        }
        i = i + 1;
    }
    assert(ids.take(imported.len() as int) =~= ids);
}

/// A selective import takes each imported skin's settings from the
/// backup: after the merge, an imported id that the backup has settings
/// for reads the backup's settings, and an id that was not imported reads
/// as before.
pub proof fn law_imported_settings_win(
    cur: Seq<(Seq<char>, JsonModel)>,
    backup: Seq<(Seq<char>, JsonModel)>,
    ids: Seq<Seq<char>>,
    id: Seq<char>,
)
    ensures
        ids.contains(id) && obj_lookup(backup, id) is Some ==> obj_lookup(merged_settings(cur, backup, ids), id)
            == obj_lookup(backup, id),
        !ids.contains(id) ==> obj_lookup(merged_settings(cur, backup, ids), id) == obj_lookup(cur, id),
    decreases ids.len(),
{
    if ids.len() > 0 {
        let init = ids.drop_last();
        law_imported_settings_win(cur, backup, init, id);
        let prev = merged_settings(cur, backup, init);
        if let Some(v) = obj_lookup(backup, ids.last()) {
            crate::skin::loader::lemma_upsert_lookup(prev, ids.last(), v, id);
        }
        if ids.contains(id) && id != ids.last() {
            let k = choose|k: int| 0 <= k < ids.len() && ids[k] == id;
            assert(init[k] == id);
        }
        if init.contains(id) {
            let k = choose|k: int| 0 <= k < init.len() && init[k] == id;
            assert(ids[k] == id);
        }
        if id == ids.last() {
            assert(ids[ids.len() - 1] == id);
        }
    }
}

} // verus!
