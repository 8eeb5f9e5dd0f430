//! The `skin://` protocol: which request paths are served, how files are
//! typed, the query flags of skin windows and where the bridge goes into
//! an HTML entry.

use vstd::prelude::*;
use crate::json::{entries_model, obj_lookup, JsonModel, JsonValue};
use crate::skin::loader::{upsert, lemma_upsert_lookup};
use crate::skin::types::{SkinManifest, SkinSettingKind};
use crate::text::{
    ascii_lower, ascii_lower_chars, ascii_lower_seq, chars_eq, chars_of, contains_seq, ends_with,
    ends_with_exec, extend_chars, find, find_ci, find_ci_exec, find_exec, ci_occurs_at, is_first_ci_occurrence, occurs_at,
    split_exec,
    split_on, starts_with, starts_with_exec, string_of, views,
};

verus! {

pub open spec fn skin_scheme() -> Seq<char> {
    seq!['s', 'k', 'i', 'n']
}

/// The custom protocol's scheme name.
pub fn scheme() -> (r: &'static str)
    ensures
        r@ == skin_scheme(),
{
    let r = "skin";
    proof {
        reveal_strlit("skin");
    }
    r
}

pub open spec fn settings_file() -> Seq<char> {
    seq!['s', 'e', 't', 't', 'i', 'n', 'g', 's', '.', 'j', 's', 'o', 'n']
}

/// settings.json or a derived file (settings.json.bak, .tmp, …), compared
/// ASCII-case-insensitively.
pub open spec fn settings_file_name(name: Seq<char>) -> bool {
    let n = ascii_lower_seq(name);
    n == settings_file() || starts_with(n, settings_file().push('.'))
}

/// Whether `file_name` is the skin settings file or one derived from it.
pub fn is_settings_file_name(file_name: &str) -> (b: bool)
    ensures
        b == settings_file_name(file_name@),
{
    let v = chars_of(file_name);
    let n = ascii_lower_chars(&v);
    let sf = vec!['s', 'e', 't', 't', 'i', 'n', 'g', 's', '.', 'j', 's', 'o', 'n'];
    let sfd = vec!['s', 'e', 't', 't', 'i', 'n', 'g', 's', '.', 'j', 's', 'o', 'n', '.'];
    assert(sf@ =~= settings_file());
    assert(sfd@ =~= settings_file().push('.'));
    chars_eq(&n, &sf) || starts_with_exec(&n, &sfd)
}

// ─── Paths ───────────────────────────────────────────────────────────────

pub open spec fn is_sep(c: char) -> bool {
    c == '/' || c == '\\'
}

/// The characters after the last separator.
pub open spec fn tail_segment(p: Seq<char>) -> Seq<char>
    decreases p.len(),
{
    if p.len() == 0 || is_sep(p.last()) {
        Seq::empty()
    } else {
        tail_segment(p.drop_last()).push(p.last())
    }
}

/// The last component of a path, trailing separators ignored.
pub open spec fn file_name_of(p: Seq<char>) -> Seq<char>
    decreases p.len(),
{
    if p.len() == 0 {
        p
    } else if is_sep(p.last()) {
        file_name_of(p.drop_last())
    } else {
        tail_segment(p)
    }
}

/// Position of the last '.' in `f`, or -1.
pub open spec fn last_dot(f: Seq<char>) -> int
    decreases f.len(),
{
    if f.len() == 0 {
        -1
    } else if f.last() == '.' {
        f.len() - 1
    } else {
        last_dot(f.drop_last())
    }
}

/// The extension of a path (`Path::extension`): the text after the last
/// '.' of its file name, unless the name has no dot, its only dot leads,
/// or it is "..".
pub open spec fn extension_of(p: Seq<char>) -> Option<Seq<char>> {
    let f = file_name_of(p);
    let k = last_dot(f);
    if f == seq!['.', '.'] || k <= 0 {
        None
    } else {
        Some(f.skip(k + 1))
    }
}

/// The tail of a path after a separator (or of a path with none) is the
/// file name when it holds no separator.
proof fn lemma_tail_segment(d: Seq<char>, t: Seq<char>)
    requires
        d.len() == 0 || is_sep(d.last()),
        forall|k: int| 0 <= k < t.len() ==> !is_sep(#[trigger] t[k]),
    ensures
        tail_segment(d + t) == t,
    decreases t.len(),
{
    if t.len() == 0 {
        assert(d + t =~= d);
    } else {
        assert((d + t).drop_last() =~= d + t.drop_last());
        lemma_tail_segment(d, t.drop_last());
        assert(t.drop_last().push(t.last()) =~= t);
    }
}

/// The last dot of `x` + "." + `e` is the one before `e` when `e` has none.
proof fn lemma_last_dot_before(x: Seq<char>, e: Seq<char>)
    requires
        forall|k: int| 0 <= k < e.len() ==> #[trigger] e[k] != '.',
    ensures
        last_dot(x + seq!['.'] + e) == x.len(),
    decreases e.len(),
{
    let f = x + seq!['.'] + e;
    if e.len() > 0 {
        assert(f.drop_last() =~= x + seq!['.'] + e.drop_last());
        lemma_last_dot_before(x, e.drop_last());
    }
}

/// A file named `stem.ext` in any folder has the extension `ext`: what
/// follows its last dot, when the stem is not empty and the extension holds
/// neither a dot nor a separator.
pub proof fn law_extension_of(dir: Seq<char>, stem: Seq<char>, ext: Seq<char>)
    requires
        dir.len() == 0 || is_sep(dir.last()),
        stem.len() > 0,
        ext.len() > 0,
        forall|k: int| 0 <= k < stem.len() ==> !is_sep(#[trigger] stem[k]),
        forall|k: int| 0 <= k < ext.len() ==> !is_sep(#[trigger] ext[k]) && ext[k] != '.',
    ensures
        extension_of(dir + stem + seq!['.'] + ext) == Some(ext),
{
    let f = stem + seq!['.'] + ext;
    let p = dir + stem + seq!['.'] + ext;
    assert(p =~= dir + f);
    assert forall|k: int| 0 <= k < f.len() implies !is_sep(#[trigger] f[k]) by {
        if k < stem.len() {
            assert(f[k] == stem[k]);
        } else if k > stem.len() {
            assert(f[k] == ext[k - stem.len() - 1]);
        }
    }
    lemma_tail_segment(dir, f);
    assert(p.last() == ext.last());
    assert(!is_sep(p.last()));
    assert(file_name_of(p) == f);
    lemma_last_dot_before(stem, ext);
    assert(f.skip(stem.len() + 1int) =~= ext);
    assert(f.len() != 2);
}

proof fn lemma_last_dot_range(f: Seq<char>)
    ensures
        -1 <= last_dot(f) < f.len(),
        last_dot(f) >= 0 ==> f[last_dot(f)] == '.',
    decreases f.len(),
{
    if f.len() > 0 && f.last() != '.' {
        lemma_last_dot_range(f.drop_last());
    }
}

fn file_name_exec(p: &Vec<char>) -> (r: Vec<char>)
    ensures
        r@ == file_name_of(p@),
{
    let mut end: usize = p.len();
    assert(p@.take(end as int) =~= p@);
    while end > 0 && (p[end - 1] == '/' || p[end - 1] == '\\')
        invariant
            end <= p.len(),
            file_name_of(p@) == file_name_of(p@.take(end as int)),
        decreases end,
    {
        assert(p@.take(end as int).drop_last() =~= p@.take(end - 1));
        end = end - 1;
    }
    let mut start: usize = end;
    assert(p@.subrange(start as int, end as int) =~= Seq::<char>::empty());
    while start > 0 && !(p[start - 1] == '/' || p[start - 1] == '\\')
        invariant
            start <= end <= p.len(),
            tail_segment(p@.take(end as int)) == tail_segment(p@.take(start as int)) + p@.subrange(
                start as int,
                end as int,
            ),
        decreases start,
    {
        assert(p@.take(start as int).drop_last() =~= p@.take(start - 1));
        assert(p@.subrange(start - 1, end as int) =~= seq![p@[start - 1]] + p@.subrange(
            start as int,
            end as int,
        ));
        assert(tail_segment(p@.take(start as int)) == tail_segment(p@.take(start - 1)).push(
            p@[start - 1],
        ));
        assert(tail_segment(p@.take(start - 1)).push(p@[start - 1]) + p@.subrange(
            start as int,
            end as int,
        ) =~= tail_segment(p@.take(start - 1)) + p@.subrange(start - 1, end as int));
        start = start - 1;
    }
    assert(tail_segment(p@.take(start as int)) =~= Seq::<char>::empty());
    let mut r: Vec<char> = Vec::new();
    let mut k: usize = start;
    while k < end
        invariant
            start <= k <= end,
            end <= p.len(),
            r@ == p@.subrange(start as int, k as int),
        decreases end - k,
    {
        r.push(p[k]);
        k = k + 1;
        assert(r@ =~= p@.subrange(start as int, k as int));
    }
    proof {
        if end > 0 {
            assert(file_name_of(p@.take(end as int)) == tail_segment(p@.take(end as int)));
        }
        assert(Seq::<char>::empty() + r@ =~= r@);
    }
    r
}

/// The extension of `path` (see [`extension_of`]).
pub fn path_extension(path: &str) -> (r: Option<Vec<char>>)
    ensures
        match r {
            Some(e) => extension_of(path@) == Some(e@),
            None => extension_of(path@) is None,
        },
{
    let v = chars_of(path);
    let f = file_name_exec(&v);
    let dd = vec!['.', '.'];
    assert(dd@ =~= seq!['.', '.']);
    if chars_eq(&f, &dd) {
        return None;
    }
    let mut k: usize = f.len();
    assert(f@.take(k as int) =~= f@);
    while k > 0 && f[k - 1] != '.'
        invariant
            k <= f.len(),
            last_dot(f@) == last_dot(f@.take(k as int)),
        decreases k,
    {
        assert(f@.take(k as int).drop_last() =~= f@.take(k - 1));
        k = k - 1;
    }
    if k <= 1 {
        proof {
            if k == 1 {
                assert(f@.take(1).last() == '.');
            }
        }
        return None;
    }
    assert(last_dot(f@) == k - 1) by {
        assert(f@.take(k as int).last() == '.');
    }
    let mut e: Vec<char> = Vec::new();
    let mut j: usize = k;
    while j < f.len()
        invariant
            k <= j <= f.len(),
            e@ == f@.subrange(k as int, j as int),
        decreases f.len() - j,
    {
        e.push(f[j]);
        j = j + 1;
        assert(e@ =~= f@.subrange(k as int, j as int));
    }
    assert(e@ =~= f@.skip(k as int));
    Some(e)
}

/// The extension is "html" or "htm", ASCII-case-insensitively.
pub open spec fn html_extension(e: Option<Seq<char>>) -> bool {
    match e {
        Some(x) => ascii_lower_seq(x) == seq!['h', 't', 'm', 'l'] || ascii_lower_seq(x) == seq![
            'h',
            't',
            'm',
        ],
        None => false,
    }
}

/// An HTML entry gets the bridge injected: the served file's extension or
/// the request path's ending says .html / .htm, case-insensitively.
pub open spec fn html_entry(path: Seq<char>, rel: Seq<char>) -> bool {
    html_extension(extension_of(path)) || ends_with(ascii_lower_seq(rel), "."@ + seq!['h', 't', 'm', 'l'])
        || ends_with(ascii_lower_seq(rel), "."@ + seq!['h', 't', 'm'])
}

/// Whether a served file is an HTML entry.
pub fn is_html_entry(path: &str, relative_path: &str) -> (b: bool)
    ensures
        b == html_entry(path@, relative_path@),
{
    let html = vec!['h', 't', 'm', 'l'];
    let htm = vec!['h', 't', 'm'];
    let ext_html = match path_extension(path) {
        Some(e) => {
            let l = ascii_lower_chars(&e);
            chars_eq(&l, &html) || chars_eq(&l, &htm)
        },
        None => false,
    };
    assert(html@ =~= seq!['h', 't', 'm', 'l']);
    assert(htm@ =~= seq!['h', 't', 'm']);
    let rel = chars_of(relative_path);
    let lr = ascii_lower_chars(&rel);
    let dot_html = vec!['.', 'h', 't', 'm', 'l'];
    let dot_htm = vec!['.', 'h', 't', 'm'];
    proof {
        reveal_strlit(".");
    }
    assert(dot_html@ =~= "."@ + seq!['h', 't', 'm', 'l']);
    assert(dot_htm@ =~= "."@ + seq!['h', 't', 'm']);
    ext_html || ends_with_exec(&lr, &dot_html) || ends_with_exec(&lr, &dot_htm)
}


/// File extensions (lower case) and the MIME types they are served as.
pub open spec fn mime_table() -> Seq<(Seq<char>, Seq<char>)> {
    seq![
        (seq!['h', 't', 'm', 'l'], "text/html"@),
        (seq!['h', 't', 'm'], "text/html"@),
        (seq!['c', 's', 's'], "text/css"@),
        (seq!['j', 's'], "application/javascript"@),
        (seq!['m', 'j', 's'], "application/javascript"@),
        (seq!['p', 'n', 'g'], "image/png"@),
        (seq!['j', 'p', 'g'], "image/jpeg"@),
        (seq!['j', 'p', 'e', 'g'], "image/jpeg"@),
        (seq!['g', 'i', 'f'], "image/gif"@),
        (seq!['s', 'v', 'g'], "image/svg+xml"@),
        (seq!['w', 'e', 'b', 'p'], "image/webp"@),
        (seq!['a', 'v', 'i', 'f'], "image/avif"@),
        (seq!['i', 'c', 'o'], "image/x-icon"@),
        (seq!['j', 's', 'o', 'n'], "application/json"@),
        (seq!['m', 'p', '3'], "audio/mpeg"@),
        (seq!['w', 'a', 'v'], "audio/wav"@),
        (seq!['o', 'g', 'g'], "audio/ogg"@),
        (seq!['f', 'l', 'a', 'c'], "audio/flac"@),
        (seq!['m', 'p', '4'], "video/mp4"@),
        (seq!['w', 'e', 'b', 'm'], "video/webm"@),
        (seq!['w', 'o', 'f', 'f', '2'], "font/woff2"@),
        (seq!['w', 'o', 'f', 'f'], "font/woff"@),
        (seq!['t', 't', 'f'], "font/ttf"@),
        (seq!['o', 't', 'f'], "font/otf"@),
    ]
}

/// The value of the first entry with key `k`.
pub open spec fn lookup_first(t: Seq<(Seq<char>, Seq<char>)>, k: Seq<char>) -> Option<Seq<char>>
    decreases t.len(),
{
    if t.len() == 0 {
        None
    } else if t[0].0 == k {
        Some(t[0].1)
    } else {
        lookup_first(t.drop_first(), k)
    }
}

/// MIME type of a served file by its extension (case-insensitive);
/// unknown or missing extensions are served as octet streams.
pub open spec fn mime_of(path: Seq<char>) -> Seq<char> {
    match extension_of(path) {
        Some(e) => match lookup_first(mime_table(), ascii_lower_seq(e)) {
            Some(m) => m,
            None => "application/octet-stream"@,
        },
        None => "application/octet-stream"@,
    }
}

/// The extensions a served file is typed by (lower case).
pub open spec fn known_extensions() -> Seq<Seq<char>> {
    seq![
            seq!['h', 't', 'm', 'l'],
            seq!['h', 't', 'm'],
            seq!['c', 's', 's'],
            seq!['j', 's'],
            seq!['m', 'j', 's'],
            seq!['p', 'n', 'g'],
            seq!['j', 'p', 'g'],
            seq!['j', 'p', 'e', 'g'],
            seq!['g', 'i', 'f'],
            seq!['s', 'v', 'g'],
            seq!['w', 'e', 'b', 'p'],
            seq!['a', 'v', 'i', 'f'],
            seq!['i', 'c', 'o'],
            seq!['j', 's', 'o', 'n'],
            seq!['m', 'p', '3'],
            seq!['w', 'a', 'v'],
            seq!['o', 'g', 'g'],
            seq!['f', 'l', 'a', 'c'],
            seq!['m', 'p', '4'],
            seq!['w', 'e', 'b', 'm'],
            seq!['w', 'o', 'f', 'f', '2'],
            seq!['w', 'o', 'f', 'f'],
            seq!['t', 't', 'f'],
            seq!['o', 't', 'f'],
        ]
}

/// A served file's MIME type follows its extension, in any ASCII case:
/// pages as text/html, stylesheets as text/css, scripts as JavaScript, and
/// the image, audio, video and font types by theirs; a file with no
/// extension or another one is an octet stream.
#[verifier::rlimit(50)]
pub proof fn law_mime_by_extension(path: Seq<char>)
    ensures
        extension_of(path) matches Some(e) && ascii_lower_seq(e) == seq!['h', 't', 'm', 'l'] ==> mime_of(path) == "text/html"@,
        extension_of(path) matches Some(e) && ascii_lower_seq(e) == seq!['h', 't', 'm'] ==> mime_of(path) == "text/html"@,
        extension_of(path) matches Some(e) && ascii_lower_seq(e) == seq!['c', 's', 's'] ==> mime_of(path) == "text/css"@,
        extension_of(path) matches Some(e) && ascii_lower_seq(e) == seq!['j', 's'] ==> mime_of(path) == "application/javascript"@,
        extension_of(path) matches Some(e) && ascii_lower_seq(e) == seq!['m', 'j', 's'] ==> mime_of(path) == "application/javascript"@,
        extension_of(path) matches Some(e) && ascii_lower_seq(e) == seq!['p', 'n', 'g'] ==> mime_of(path) == "image/png"@,
        extension_of(path) matches Some(e) && ascii_lower_seq(e) == seq!['j', 'p', 'g'] ==> mime_of(path) == "image/jpeg"@,
        extension_of(path) matches Some(e) && ascii_lower_seq(e) == seq!['j', 'p', 'e', 'g'] ==> mime_of(path) == "image/jpeg"@,
        extension_of(path) matches Some(e) && ascii_lower_seq(e) == seq!['g', 'i', 'f'] ==> mime_of(path) == "image/gif"@,
        extension_of(path) matches Some(e) && ascii_lower_seq(e) == seq!['s', 'v', 'g'] ==> mime_of(path) == "image/svg+xml"@,
        extension_of(path) matches Some(e) && ascii_lower_seq(e) == seq!['w', 'e', 'b', 'p'] ==> mime_of(path) == "image/webp"@,
        extension_of(path) matches Some(e) && ascii_lower_seq(e) == seq!['a', 'v', 'i', 'f'] ==> mime_of(path) == "image/avif"@,
        extension_of(path) matches Some(e) && ascii_lower_seq(e) == seq!['i', 'c', 'o'] ==> mime_of(path) == "image/x-icon"@,
        extension_of(path) matches Some(e) && ascii_lower_seq(e) == seq!['j', 's', 'o', 'n'] ==> mime_of(path) == "application/json"@,
        extension_of(path) matches Some(e) && ascii_lower_seq(e) == seq!['m', 'p', '3'] ==> mime_of(path) == "audio/mpeg"@,
        extension_of(path) matches Some(e) && ascii_lower_seq(e) == seq!['w', 'a', 'v'] ==> mime_of(path) == "audio/wav"@,
        extension_of(path) matches Some(e) && ascii_lower_seq(e) == seq!['o', 'g', 'g'] ==> mime_of(path) == "audio/ogg"@,
        extension_of(path) matches Some(e) && ascii_lower_seq(e) == seq!['f', 'l', 'a', 'c'] ==> mime_of(path) == "audio/flac"@,
        extension_of(path) matches Some(e) && ascii_lower_seq(e) == seq!['m', 'p', '4'] ==> mime_of(path) == "video/mp4"@,
        extension_of(path) matches Some(e) && ascii_lower_seq(e) == seq!['w', 'e', 'b', 'm'] ==> mime_of(path) == "video/webm"@,
        extension_of(path) matches Some(e) && ascii_lower_seq(e) == seq!['w', 'o', 'f', 'f', '2'] ==> mime_of(path) == "font/woff2"@,
        extension_of(path) matches Some(e) && ascii_lower_seq(e) == seq!['w', 'o', 'f', 'f'] ==> mime_of(path) == "font/woff"@,
        extension_of(path) matches Some(e) && ascii_lower_seq(e) == seq!['t', 't', 'f'] ==> mime_of(path) == "font/ttf"@,
        extension_of(path) matches Some(e) && ascii_lower_seq(e) == seq!['o', 't', 'f'] ==> mime_of(path) == "font/otf"@,
        extension_of(path) is None ==> mime_of(path) == "application/octet-stream"@,
        extension_of(path) matches Some(e) && !known_extensions().contains(ascii_lower_seq(e)) ==> mime_of(path)
            == "application/octet-stream"@,
{
    let t = mime_table();
    if let Some(e) = extension_of(path) {
        let l = ascii_lower_seq(e);
        if l == seq!['h', 't', 'm', 'l'] {
            assert(t[0].0 == l);
            assert forall|j: int| 0 <= j < 0 implies t[j].0 != l by {
                assert(t[j].0.len() != l.len() || t[j].0 != l);
            }
            lemma_lookup_first_at(t, 0, l);
        }
        if l == seq!['h', 't', 'm'] {
            assert(t[1].0 == l);
            assert forall|j: int| 0 <= j < 1 implies t[j].0 != l by {
                assert(t[j].0.len() != l.len() || t[j].0 != l);
            }
            lemma_lookup_first_at(t, 1, l);
        }
        if l == seq!['c', 's', 's'] {
            assert(t[2].0 == l);
            assert forall|j: int| 0 <= j < 2 implies t[j].0 != l by {
                assert(t[j].0.len() != l.len() || t[j].0 != l);
            }
            lemma_lookup_first_at(t, 2, l);
        }
        if l == seq!['j', 's'] {
            assert(t[3].0 == l);
            assert forall|j: int| 0 <= j < 3 implies t[j].0 != l by {
                assert(t[j].0.len() != l.len() || t[j].0 != l);
            }
            lemma_lookup_first_at(t, 3, l);
        }
        if l == seq!['m', 'j', 's'] {
            assert(t[4].0 == l);
            assert forall|j: int| 0 <= j < 4 implies t[j].0 != l by {
                assert(t[j].0.len() != l.len() || t[j].0 != l);
            }
            lemma_lookup_first_at(t, 4, l);
        }
        if l == seq!['p', 'n', 'g'] {
            assert(t[5].0 == l);
            assert forall|j: int| 0 <= j < 5 implies t[j].0 != l by {
                assert(t[j].0.len() != l.len() || t[j].0 != l);
            }
            lemma_lookup_first_at(t, 5, l);
        }
        if l == seq!['j', 'p', 'g'] {
            assert(t[6].0 == l);
            assert forall|j: int| 0 <= j < 6 implies t[j].0 != l by {
                assert(t[j].0.len() != l.len() || t[j].0 != l);
            }
            lemma_lookup_first_at(t, 6, l);
        }
        if l == seq!['j', 'p', 'e', 'g'] {
            assert(t[7].0 == l);
            assert forall|j: int| 0 <= j < 7 implies t[j].0 != l by {
                assert(t[j].0.len() != l.len() || t[j].0 != l);
            }
            lemma_lookup_first_at(t, 7, l);
        }
        if l == seq!['g', 'i', 'f'] {
            assert(t[8].0 == l);
            assert forall|j: int| 0 <= j < 8 implies t[j].0 != l by {
                assert(t[j].0.len() != l.len() || t[j].0 != l);
            }
            lemma_lookup_first_at(t, 8, l);
        }
        if l == seq!['s', 'v', 'g'] {
            assert(t[9].0 == l);
            assert forall|j: int| 0 <= j < 9 implies t[j].0 != l by {
                assert(t[j].0.len() != l.len() || t[j].0 != l);
            }
            lemma_lookup_first_at(t, 9, l);
        }
        if l == seq!['w', 'e', 'b', 'p'] {
            assert(t[10].0 == l);
            assert forall|j: int| 0 <= j < 10 implies t[j].0 != l by {
                assert(t[j].0.len() != l.len() || t[j].0 != l);
            }
            lemma_lookup_first_at(t, 10, l);
        }
        if l == seq!['a', 'v', 'i', 'f'] {
            assert(t[11].0 == l);
            assert forall|j: int| 0 <= j < 11 implies t[j].0 != l by {
                assert(t[j].0.len() != l.len() || t[j].0 != l);
            }
            lemma_lookup_first_at(t, 11, l);
        }
        if l == seq!['i', 'c', 'o'] {
            assert(t[12].0 == l);
            assert forall|j: int| 0 <= j < 12 implies t[j].0 != l by {
                assert(t[j].0.len() != l.len() || t[j].0 != l);
            }
            lemma_lookup_first_at(t, 12, l);
        }
        if l == seq!['j', 's', 'o', 'n'] {
            assert(t[13].0 == l);
            assert forall|j: int| 0 <= j < 13 implies t[j].0 != l by {
                assert(t[j].0.len() != l.len() || t[j].0 != l);
            }
            lemma_lookup_first_at(t, 13, l);
        }
        if l == seq!['m', 'p', '3'] {
            assert(t[14].0 == l);
            assert forall|j: int| 0 <= j < 14 implies t[j].0 != l by {
                assert(t[j].0.len() != l.len() || t[j].0 != l);
            }
            lemma_lookup_first_at(t, 14, l);
        }
        if l == seq!['w', 'a', 'v'] {
            assert(t[15].0 == l);
            assert forall|j: int| 0 <= j < 15 implies t[j].0 != l by {
                assert(t[j].0.len() != l.len() || t[j].0 != l);
            }
            lemma_lookup_first_at(t, 15, l);
        }
        if l == seq!['o', 'g', 'g'] {
            assert(t[16].0 == l);
            assert forall|j: int| 0 <= j < 16 implies t[j].0 != l by {
                assert(t[j].0.len() != l.len() || t[j].0 != l);
            }
            lemma_lookup_first_at(t, 16, l);
        }
        if l == seq!['f', 'l', 'a', 'c'] {
            assert(t[17].0 == l);
            assert forall|j: int| 0 <= j < 17 implies t[j].0 != l by {
                assert(t[j].0.len() != l.len() || t[j].0 != l);
            }
            lemma_lookup_first_at(t, 17, l);
        }
        if l == seq!['m', 'p', '4'] {
            assert(t[18].0 == l);
            assert forall|j: int| 0 <= j < 18 implies t[j].0 != l by {
                assert(t[j].0.len() != l.len() || t[j].0 != l);
            }
            lemma_lookup_first_at(t, 18, l);
        }
        if l == seq!['w', 'e', 'b', 'm'] {
            assert(t[19].0 == l);
            assert forall|j: int| 0 <= j < 19 implies t[j].0 != l by {
                assert(t[j].0.len() != l.len() || t[j].0 != l);
            }
            lemma_lookup_first_at(t, 19, l);
        }
        if l == seq!['w', 'o', 'f', 'f', '2'] {
            assert(t[20].0 == l);
            assert forall|j: int| 0 <= j < 20 implies t[j].0 != l by {
                assert(t[j].0.len() != l.len() || t[j].0 != l);
            }
            lemma_lookup_first_at(t, 20, l);
        }
        if l == seq!['w', 'o', 'f', 'f'] {
            assert(t[21].0 == l);
            assert forall|j: int| 0 <= j < 21 implies t[j].0 != l by {
                assert(t[j].0.len() != l.len() || t[j].0 != l);
            }
            lemma_lookup_first_at(t, 21, l);
        }
        if l == seq!['t', 't', 'f'] {
            assert(t[22].0 == l);
            assert forall|j: int| 0 <= j < 22 implies t[j].0 != l by {
                assert(t[j].0.len() != l.len() || t[j].0 != l);
            }
            lemma_lookup_first_at(t, 22, l);
        }
        if l == seq!['o', 't', 'f'] {
            assert(t[23].0 == l);
            assert forall|j: int| 0 <= j < 23 implies t[j].0 != l by {
                assert(t[j].0.len() != l.len() || t[j].0 != l);
            }
            lemma_lookup_first_at(t, 23, l);
        }
        if !known_extensions().contains(l) {
            assert forall|k: int| 0 <= k < t.len() implies t[k].0 != l by {
                assert(t[k].0 == known_extensions()[k]);
            }
            lemma_lookup_absent_key(t, l);
        }
    }
}

/// Looking a key up finds the entry where it first occurs.
proof fn lemma_lookup_first_at(t: Seq<(Seq<char>, Seq<char>)>, i: int, k: Seq<char>)
    requires
        0 <= i < t.len(),
        t[i].0 == k,
        forall|j: int| 0 <= j < i ==> t[j].0 != k,
    ensures
        lookup_first(t, k) == Some(t[i].1),
    decreases i,
{
    if i > 0 {
        assert(t[0].0 != k);
        assert forall|j: int| 0 <= j < i - 1 implies t.drop_first()[j].0 != k by {
            assert(t.drop_first()[j] == t[j + 1]);
        }
        lemma_lookup_first_at(t.drop_first(), i - 1, k);
    }
}

proof fn lemma_lookup_absent_key(t: Seq<(Seq<char>, Seq<char>)>, k: Seq<char>)
    requires
        forall|i: int| 0 <= i < t.len() ==> t[i].0 != k,
    ensures
        lookup_first(t, k) is None,
    decreases t.len(),
{
    if t.len() > 0 {
        assert(t[0].0 != k);
        assert forall|i: int| 0 <= i < t.len() - 1 implies t.drop_first()[i].0 != k by {
            assert(t.drop_first()[i] == t[i + 1]);
        }
        lemma_lookup_absent_key(t.drop_first(), k);
    }
}

fn mime_table_exec() -> (t: Vec<(Vec<char>, &'static str)>)
    ensures
        t@.len() == mime_table().len(),
        forall|i: int| 0 <= i < t@.len() ==> #[trigger] t@[i].0@ == mime_table()[i].0 && t@[i].1@ == mime_table()[i].1,
{
    let mut t: Vec<(Vec<char>, &'static str)> = Vec::new();
    t.push((vec!['h', 't', 'm', 'l'], "text/html"));
    t.push((vec!['h', 't', 'm'], "text/html"));
    t.push((vec!['c', 's', 's'], "text/css"));
    t.push((vec!['j', 's'], "application/javascript"));
    t.push((vec!['m', 'j', 's'], "application/javascript"));
    t.push((vec!['p', 'n', 'g'], "image/png"));
    t.push((vec!['j', 'p', 'g'], "image/jpeg"));
    t.push((vec!['j', 'p', 'e', 'g'], "image/jpeg"));
    t.push((vec!['g', 'i', 'f'], "image/gif"));
    t.push((vec!['s', 'v', 'g'], "image/svg+xml"));
    t.push((vec!['w', 'e', 'b', 'p'], "image/webp"));
    t.push((vec!['a', 'v', 'i', 'f'], "image/avif"));
    t.push((vec!['i', 'c', 'o'], "image/x-icon"));
    t.push((vec!['j', 's', 'o', 'n'], "application/json"));
    t.push((vec!['m', 'p', '3'], "audio/mpeg"));
    t.push((vec!['w', 'a', 'v'], "audio/wav"));
    t.push((vec!['o', 'g', 'g'], "audio/ogg"));
    t.push((vec!['f', 'l', 'a', 'c'], "audio/flac"));
    t.push((vec!['m', 'p', '4'], "video/mp4"));
    t.push((vec!['w', 'e', 'b', 'm'], "video/webm"));
    t.push((vec!['w', 'o', 'f', 'f', '2'], "font/woff2"));
    t.push((vec!['w', 'o', 'f', 'f'], "font/woff"));
    t.push((vec!['t', 't', 'f'], "font/ttf"));
    t.push((vec!['o', 't', 'f'], "font/otf"));
    assert(t@[0].0@ =~= seq!['h', 't', 'm', 'l']);
    assert(t@[1].0@ =~= seq!['h', 't', 'm']);
    assert(t@[2].0@ =~= seq!['c', 's', 's']);
    assert(t@[3].0@ =~= seq!['j', 's']);
    assert(t@[4].0@ =~= seq!['m', 'j', 's']);
    assert(t@[5].0@ =~= seq!['p', 'n', 'g']);
    assert(t@[6].0@ =~= seq!['j', 'p', 'g']);
    assert(t@[7].0@ =~= seq!['j', 'p', 'e', 'g']);
    assert(t@[8].0@ =~= seq!['g', 'i', 'f']);
    assert(t@[9].0@ =~= seq!['s', 'v', 'g']);
    assert(t@[10].0@ =~= seq!['w', 'e', 'b', 'p']);
    assert(t@[11].0@ =~= seq!['a', 'v', 'i', 'f']);
    assert(t@[12].0@ =~= seq!['i', 'c', 'o']);
    assert(t@[13].0@ =~= seq!['j', 's', 'o', 'n']);
    assert(t@[14].0@ =~= seq!['m', 'p', '3']);
    assert(t@[15].0@ =~= seq!['w', 'a', 'v']);
    assert(t@[16].0@ =~= seq!['o', 'g', 'g']);
    assert(t@[17].0@ =~= seq!['f', 'l', 'a', 'c']);
    assert(t@[18].0@ =~= seq!['m', 'p', '4']);
    assert(t@[19].0@ =~= seq!['w', 'e', 'b', 'm']);
    assert(t@[20].0@ =~= seq!['w', 'o', 'f', 'f', '2']);
    assert(t@[21].0@ =~= seq!['w', 'o', 'f', 'f']);
    assert(t@[22].0@ =~= seq!['t', 't', 'f']);
    assert(t@[23].0@ =~= seq!['o', 't', 'f']);
    t
}

/// MIME type of a served file, by extension.
pub fn guess_mime(path: &str) -> (r: &'static str)
    ensures
        r@ == mime_of(path@),
{
    let ext = match path_extension(path) {
        Some(e) => e,
        None => {
            return "application/octet-stream";
        },
    };
    let l = ascii_lower_chars(&ext);
    let t = mime_table_exec();
    let mut i: usize = 0;
    assert(mime_table().skip(0) =~= mime_table());
    assert(mime_of(path@) == (match lookup_first(mime_table(), l@) {
        Some(m) => m,
        None => "application/octet-stream"@,
    }));
    while i < t.len()
        invariant
            mime_of(path@) == (match lookup_first(mime_table(), l@) {
                Some(m) => m,
                None => "application/octet-stream"@,
            }),
            i <= t@.len(),
            t@.len() == mime_table().len(),
            forall|j: int| 0 <= j < t@.len() ==> #[trigger] t@[j].0@ == mime_table()[j].0 && t@[j].1@ == mime_table()[j].1,
            lookup_first(mime_table(), l@) == lookup_first(mime_table().skip(i as int), l@),
        decreases t.len() - i,
    {
        assert(mime_table().skip(i as int)[0] == mime_table()[i as int]);
        assert(mime_table().skip(i as int).drop_first() =~= mime_table().skip(i + 1));
        if chars_eq(&t[i].0, &l) {
            return t[i].1;
        }
        i = i + 1;
    }
    "application/octet-stream"
}


// ─── Query flags ─────────────────────────────────────────────────────────

/// A query pair split at its first '=' into key and (optional) value.
pub open spec fn pair_parts(pair: Seq<char>) -> (Seq<char>, Option<Seq<char>>) {
    let k = find(pair, seq!['=']);
    if k < 0 {
        (pair, None)
    } else {
        (pair.take(k), Some(pair.skip(k + 1)))
    }
}

/// The pair sets flag `key`: its key is `key` and its value "1" or "true".
pub open spec fn flag_pair(pair: Seq<char>, key: Seq<char>) -> bool {
    let kv = pair_parts(pair);
    kv.0 == key && (kv.1 == Some(seq!['1']) || kv.1 == Some(seq!['t', 'r', 'u', 'e']))
}

/// Some '&'-separated pair of `s` sets flag `key`.
pub open spec fn flag_in(s: Seq<char>, key: Seq<char>) -> bool {
    exists|i: int| 0 <= i < split_on(s, '&').len() && #[trigger] flag_pair(split_on(s, '&')[i], key)
}

/// The query sets flag `key`.
pub open spec fn query_flag(q: Option<Seq<char>>, key: Seq<char>) -> bool {
    match q {
        None => false,
        Some(s) => flag_in(s, key),
    }
}

fn pair_is_flag(pair: &Vec<char>, key: &Vec<char>) -> (b: bool)
    ensures
        b == flag_pair(pair@, key@),
{
    let eq = vec!['='];
    assert(eq@ =~= seq!['=']);
    match find_exec(pair, &eq) {
        None => false,
        Some(k) => {
            assert(occurs_at(pair@, seq!['='], k as int));
            assert(k + 1 <= pair.len());
            let name = crate::text::sub_chars(pair, 0, k);
            let value = crate::text::sub_chars(pair, k + 1, pair.len());
            assert(name@ =~= pair@.take(k as int));
            assert(value@ =~= pair@.skip(k + 1));
            let one = vec!['1'];
            let tru = vec!['t', 'r', 'u', 'e'];
            assert(one@ =~= seq!['1']);
            assert(tru@ =~= seq!['t', 'r', 'u', 'e']);
            chars_eq(&name, key) && (chars_eq(&value, &one) || chars_eq(&value, &tru))
        },
    }
}

pub open spec fn opt_view(o: Option<&str>) -> Option<Seq<char>> {
    match o {
        Some(s) => Some(s@),
        None => None,
    }
}

/// Whether the query sets flag `key` ("key=1" or "key=true").
pub fn parse_query_flag(query: Option<&str>, key: &str) -> (b: bool)
    ensures
        b == query_flag(opt_view(query), key@),
{
    let q = match query {
        None => {
            return false;
        },
        Some(q) => q,
    };
    let v = chars_of(q);
    let k = chars_of(key);
    let pairs = split_exec(&v, '&');
    let mut i: usize = 0;
    while i < pairs.len()
        invariant
            opt_view(query) == Some(q@),
            views(pairs@) == split_on(q@, '&'),
            k@ == key@,
            i <= pairs.len(),
            forall|j: int| 0 <= j < i ==> !flag_pair(#[trigger] split_on(q@, '&')[j], key@),
        decreases pairs.len() - i,
    {
        if pair_is_flag(&pairs[i], &k) {
            assert(views(pairs@)[i as int] == pairs@[i as int]@);
            assert(flag_pair(split_on(q@, '&')[i as int], key@));
            assert(0 <= i < split_on(q@, '&').len());
            return true;
        }
        i = i + 1;
    }
    false
}

/// The position-lock flag of a skin window request.
pub fn parse_locked(query: Option<&str>) -> (b: bool)
    ensures
        b == query_flag(opt_view(query), "locked"@),
{
    parse_query_flag(query, "locked")
}

/// The border-resize flag of a skin window request.
pub fn parse_resizable(query: Option<&str>) -> (b: bool)
    ensures
        b == query_flag(opt_view(query), "resizable"@),
{
    parse_query_flag(query, "resizable")
}

// ─── Request paths ───────────────────────────────────────────────────────

/// What `percent_encoding::percent_decode_str(s).decode_utf8_lossy()`
/// yields: `%XX` sequences decoded to bytes, then the bytes read as UTF-8
/// with invalid sequences replaced by U+FFFD.
pub uninterp spec fn percent_decoded(s: Seq<char>) -> Seq<char>;

/// Percent-decodes `s` (lossy UTF-8).
#[verifier::external_body]
fn percent_decode_lossy(s: &str) -> (r: String)
    ensures
        r@ == percent_decoded(s@),
{
    percent_encoding::percent_decode_str(s).decode_utf8_lossy().into_owned()
}

/// A request path as a path relative to the skins folder: percent-decoded,
/// one leading '/' removed.
pub open spec fn decoded_path(uri_path: Seq<char>) -> Seq<char> {
    let d = percent_decoded(uri_path);
    if d.len() > 0 && d[0] == '/' {
        d.drop_first()
    } else {
        d
    }
}

/// URI path → skin-relative path.
pub fn decode_uri_path(uri_path: &str) -> (r: String)
    ensures
        r@ == decoded_path(uri_path@),
{
    let d = percent_decode_lossy(uri_path);
    let v = chars_of(d.as_str());
    if v.len() > 0 && v[0] == '/' {
        let mut out: Vec<char> = Vec::new();
        let mut i: usize = 1;
        while i < v.len()
            invariant
                1 <= i <= v.len(),
                out@ == v@.subrange(1, i as int),
            decreases v.len() - i,
        {
            out.push(v[i]);
            i = i + 1;
            assert(out@ =~= v@.subrange(1, i as int));
        }
        assert(out@ =~= v@.drop_first());
        string_of(&out)
    } else {
        d
    }
}

/// The checks a request path passes before it is resolved on disk: not
/// empty, no "..", no path segment with a colon (alternate streams, drive
/// letters), and not a settings file by its last segment.
pub open spec fn path_allowed(rel: Seq<char>) -> bool {
    let segs = split_on(rel, '/');
    &&& rel.len() > 0
    &&& !contains_seq(rel, seq!['.', '.'])
    &&& forall|i: int| 0 <= i < segs.len() ==> !(#[trigger] segs[i]).contains(':')
    &&& !settings_file_name(segs.last())
}

fn has_char(v: &Vec<char>, c: char) -> (b: bool)
    ensures
        b == v@.contains(c),
{
    let mut i: usize = 0;
    while i < v.len()
        invariant
            i <= v.len(),
            forall|j: int| 0 <= j < i ==> v@[j] != c,
        decreases v.len() - i,
    {
        if v[i] == c {
            return true;
        }
        i = i + 1;
    }
    false
}

/// Whether a skin-relative request path may be served (before it is
/// resolved and contained on disk).
pub fn relative_path_allowed(relative_path: &str) -> (b: bool)
    ensures
        b == path_allowed(relative_path@),
{
    let v = chars_of(relative_path);
    if v.len() == 0 {
        return false;
    }
    let dots = vec!['.', '.'];
    assert(dots@ =~= seq!['.', '.']);
    if find_exec(&v, &dots).is_some() {
        return false;
    }
    let segs = split_exec(&v, '/');
    proof {
        crate::text::lemma_split_on_nonempty(v@, '/');
    }
    let mut i: usize = 0;
    while i < segs.len()
        invariant
            views(segs@) == split_on(relative_path@, '/'),
            i <= segs.len(),
            forall|j: int| 0 <= j < i ==> !(#[trigger] split_on(relative_path@, '/')[j]).contains(':'),
        decreases segs.len() - i,
    {
        if has_char(&segs[i], ':') {
            assert(split_on(relative_path@, '/')[i as int].contains(':'));
            return false;
        }
        i = i + 1;
    }
    let last = string_of(&segs[segs.len() - 1]);
    !is_settings_file_name(last.as_str())
}

pub open spec fn path_key() -> Seq<char> {
    seq!['p', 'a', 't', 'h', '=']
}

/// The decoded values of the query's "path=" pairs, in order.
pub open spec fn path_values(pairs: Seq<Seq<char>>) -> Seq<Seq<char>>
    decreases pairs.len(),
{
    if pairs.len() == 0 {
        Seq::empty()
    } else {
        let rest = path_values(pairs.drop_first());
        if starts_with(pairs[0], path_key()) {
            seq![percent_decoded(pairs[0].skip(5))] + rest
        } else {
            rest
        }
    }
}

/// `file` lies inside `root`, compared by whole path components (as
/// `Path::starts_with` does): it is `root` itself, or `root` followed by a
/// separator.
pub open spec fn within_root(root: Seq<char>, file: Seq<char>) -> bool {
    file == root || (starts_with(file, root) && file.len() > root.len() && is_sep(file[root.len() as int]))
}

/// The file a skin may be served, judged on its canonical path (symlinks
/// and 8.3 short names resolved): inside the canonical skins folder, and
/// not a settings file by its real name.
pub open spec fn resolved_file_allowed(root: Seq<char>, file: Seq<char>) -> bool {
    within_root(root, file) && !settings_file_name(file_name_of(file))
}

/// Whether the canonical path `file` may be served from the canonical
/// skins folder `root` (see [`resolved_file_allowed`]).
pub fn resolved_file_served(root: &str, file: &str) -> (b: bool)
    ensures
        b == resolved_file_allowed(root@, file@),
{
    let r = chars_of(root);
    let f = chars_of(file);
    let inside = if chars_eq(&f, &r) {
        true
    } else if starts_with_exec(&f, &r) && f.len() > r.len() {
        f[r.len()] == '/' || f[r.len()] == '\\'
    } else {
        false
    };
    if !inside {
        return false;
    }
    let name = file_name_exec(&f);
    let name_s = crate::text::string_of(&name);
    !is_settings_file_name(name_s.as_str())
}

/// The candidate file paths of a `__fs__` request, in query order: the
/// percent-decoded value of every "path=" pair.  The first candidate that
/// is an existing absolute file is served.
pub fn fs_query_candidates(query: Option<&str>) -> (r: Vec<String>)
    ensures
        match query {
            None => r@.len() == 0,
            Some(q) => r@.map_values(|x: String| x@) == path_values(split_on(q@, '&')),
        },
{
    let q = match query {
        None => {
            return Vec::new();
        },
        Some(q) => q,
    };
    let v = chars_of(q);
    let pairs = split_exec(&v, '&');
    let key = vec!['p', 'a', 't', 'h', '='];
    assert(key@ =~= path_key());
    let ghost all = split_on(q@, '&');
    let mut out: Vec<String> = Vec::new();
    let mut i: usize = 0;
    assert(all.skip(0) =~= all);
    assert(out@.map_values(|x: String| x@) + path_values(all) =~= path_values(all));
    while i < pairs.len()
        invariant
            views(pairs@) == all,
            key@ == path_key(),
            i <= pairs.len(),
            out@.map_values(|x: String| x@) + path_values(all.skip(i as int)) == path_values(all),
        decreases pairs.len() - i,
    {
        let ghost rest = all.skip(i as int);
        assert(rest[0] == pairs@[i as int]@);
        assert(rest.drop_first() =~= all.skip(i + 1));
        let ghost before = out@.map_values(|x: String| x@);
        if starts_with_exec(&pairs[i], &key) {
            let plen = pairs[i].len();
            let val = crate::text::sub_chars(&pairs[i], 5, plen);
            assert(val@ =~= pairs@[i as int]@.skip(5));
            let raw = string_of(&val);
            let decoded = percent_decode_lossy(raw.as_str());
            out.push(decoded);
            assert(out@.map_values(|x: String| x@) =~= before.push(decoded@));
            assert(before.push(decoded@) + path_values(all.skip(i + 1)) =~= before + (seq![decoded@]
                + path_values(all.skip(i + 1))));
        }
        i = i + 1;
    }
    assert(all.skip(pairs.len() as int).len() == 0);
    assert(out@.map_values(|x: String| x@) + Seq::<Seq<char>>::empty() =~= out@.map_values(|x: String| x@));
    out
}


// ─── Bridge injection ────────────────────────────────────────────────────

pub open spec fn head_close() -> Seq<char> {
    seq!['<', '/', 'h', 'e', 'a', 'd', '>']
}

pub open spec fn body_open() -> Seq<char> {
    seq!['<', 'b', 'o', 'd', 'y', '>']
}

/// Where the bridge goes into an HTML entry: right before the first
/// `</head>`; else into a new `<head>` right after the first `<body>`;
/// else the page is wrapped in a fresh document whose head holds the
/// bridge.  Tags are matched ASCII-case-insensitively.
pub open spec fn spliced(html: Seq<char>, bridge: Seq<char>) -> Seq<char> {
    let p = find_ci(html, head_close());
    if p >= 0 {
        html.take(p) + bridge + html.skip(p)
    } else {
        let q = find_ci(html, body_open());
        if q >= 0 {
            html.take(q + 6) + "<head>"@ + bridge + "</head>"@ + html.skip(q + 6)
        } else {
            "<!DOCTYPE html><html><head>"@ + bridge + "</head><body>"@ + html + "</body></html>"@
        }
    }
}

/// The bridge always ends up in the served page, whole and in one piece,
/// right before a closing head tag, and nothing of the page is lost: where
/// the page has a closing head tag, the bridge goes right before the first
/// one, and taking it back out gives the page exactly as it was.
pub proof fn law_bridge_spliced_in(html: Seq<char>, bridge: Seq<char>)
    ensures
        exists|i: int|
            0 <= i && i + bridge.len() <= spliced(html, bridge).len() && #[trigger] spliced(html, bridge).subrange(
                i,
                i + bridge.len(),
            ) == bridge && ci_occurs_at(spliced(html, bridge), head_close(), i + bridge.len()) && (find_ci(
                html,
                head_close(),
            ) >= 0 ==> i == find_ci(html, head_close()) && spliced(html, bridge).take(i) + spliced(
                html,
                bridge,
            ).skip(i + bridge.len()) == html),
        spliced(html, bridge).len() >= html.len() + bridge.len(),
{
    let out = spliced(html, bridge);
    let n = bridge.len() as int;
    let p = find_ci(html, head_close());
    if p >= 0 {
        assert(is_first_ci_occurrence(html, head_close(), p));
        assert(out.subrange(p, p + n) =~= bridge);
        assert(out.take(p) + out.skip(p + n) =~= html);
        assert(out.subrange(p, p + n) == bridge);
        assert forall|k: int| 0 <= k < head_close().len() implies ascii_lower(#[trigger] out[p + n + k])
            == ascii_lower(head_close()[k]) by {
            assert(out[p + n + k] == html[p + k]);
        }
    } else {
        let q = find_ci(html, body_open());
        if q >= 0 {
            assert(is_first_ci_occurrence(html, body_open(), q));
            reveal_strlit("<head>");
            reveal_strlit("</head>");
            let i = q + 12;
            assert(out.subrange(i, i + n) =~= bridge);
            assert(out.subrange(i, i + n) == bridge);
            assert forall|k: int| 0 <= k < head_close().len() implies ascii_lower(#[trigger] out[i + n + k])
                == ascii_lower(head_close()[k]) by {
                assert(out[i + n + k] == "</head>"@[k]);
            }
        } else {
            reveal_strlit("<!DOCTYPE html><html><head>");
            reveal_strlit("</head><body>");
            reveal_strlit("</body></html>");
            assert(out.subrange(27, 27 + n) =~= bridge);
            assert(out.subrange(27, 27 + n) == bridge);
            assert forall|k: int| 0 <= k < head_close().len() implies ascii_lower(#[trigger] out[27 + n + k])
                == ascii_lower(head_close()[k]) by {
                assert(out[27 + n + k] == "</head><body>"@[k]);
            }
        }
    }
}

/// Inserts the bridge markup into an HTML page (see [`spliced`]).
pub fn splice_bridge(html: &str, bridge: &str) -> (r: String)
    ensures
        r@ == spliced(html@, bridge@),
{
    let h = chars_of(html);
    let hc = vec!['<', '/', 'h', 'e', 'a', 'd', '>'];
    let bo = vec!['<', 'b', 'o', 'd', 'y', '>'];
    assert(hc@ =~= head_close());
    assert(bo@ =~= body_open());
    match find_ci_exec(&h, &hc) {
        Some(p) => {
            let before = crate::text::sub_chars(&h, 0, p);
            let after = crate::text::sub_chars(&h, p, h.len());
            let mut out = string_of(&before);
            out.append(bridge);
            crate::text::push_chars(&mut out, &after);
            assert(before@ =~= html@.take(p as int));
            assert(after@ =~= html@.skip(p as int));
            out
        },
        None => match find_ci_exec(&h, &bo) {
            Some(q) => {
                assert(q + 6 <= h.len());
                let before = crate::text::sub_chars(&h, 0, q + 6);
                let after = crate::text::sub_chars(&h, q + 6, h.len());
                let mut out = string_of(&before);
                out.append("<head>");
                out.append(bridge);
                out.append("</head>");
                crate::text::push_chars(&mut out, &after);
                assert(before@ =~= html@.take(q + 6));
                assert(after@ =~= html@.skip(q + 6));
                out
            },
            None => {
                let mut out = String::from_str("<!DOCTYPE html><html><head>");
                out.append(bridge);
                out.append("</head><body>");
                out.append(html);
                out.append("</body></html>");
                out
            },
        },
    }
}

/// Settings values as baked into the bridge: every password setting's
/// value is replaced by the empty string.
pub open spec fn without_passwords(defs: Seq<crate::skin::types::SkinSettingDef>, values: Seq<
    (Seq<char>, JsonModel),
>) -> Seq<(Seq<char>, JsonModel)>
    decreases defs.len(),
{
    if defs.len() == 0 {
        values
    } else {
        let prev = without_passwords(defs.drop_last(), values);
        let d = defs.last();
        if d.kind == SkinSettingKind::Password {
            upsert(prev, d.key@, JsonModel::Str(Seq::empty()))
        } else {
            prev
        }
    }
}

/// No password value reaches a page: in the values baked into the bridge,
/// every setting declared as a password reads as the empty string.
pub proof fn law_passwords_never_baked(
    defs: Seq<crate::skin::types::SkinSettingDef>,
    values: Seq<(Seq<char>, JsonModel)>,
    i: int,
)
    requires
        0 <= i < defs.len(),
        defs[i].kind == SkinSettingKind::Password,
    ensures
        obj_lookup(without_passwords(defs, values), defs[i].key@) == Some(
            JsonModel::Str(Seq::empty()),
        ),
    decreases defs.len(),
{
    let last = defs.len() - 1;
    let prev = without_passwords(defs.drop_last(), values);
    if i < last {
        law_passwords_never_baked(defs.drop_last(), values, i);
        assert(defs.drop_last()[i] == defs[i]);
    }
    if defs[last].kind == SkinSettingKind::Password {
        lemma_upsert_lookup(prev, defs[last].key@, JsonModel::Str(Seq::empty()), defs[i].key@);
    }
}

/// Blanks the values of password settings before they are baked into the
/// page: skin:// is same-origin for every skin, so baked values are
/// readable by any skin.
pub fn strip_password_values(manifest: &SkinManifest, values: &mut Vec<(String, JsonValue)>)
    ensures
        entries_model(final(values)@) == without_passwords(
            manifest.settings@,
            entries_model(old(values)@),
        ),
{
    let ghost start = entries_model(values@);
    let mut i: usize = 0;
    assert(manifest.settings@.take(0) =~= Seq::<crate::skin::types::SkinSettingDef>::empty());
    while i < manifest.settings.len()
        invariant
            i <= manifest.settings.len(),
            entries_model(values@) == without_passwords(manifest.settings@.take(i as int), start),
        decreases manifest.settings.len() - i,
    {
        assert(manifest.settings@.take(i + 1).drop_last() =~= manifest.settings@.take(i as int));
        let def = &manifest.settings[i];
        if def.kind == SkinSettingKind::Password {
            crate::skin::loader::set_value(values, def.key.clone(), JsonValue::Str(String::new()));
        }
        i = i + 1;
    }
    assert(manifest.settings@.take(manifest.settings.len() as int) =~= manifest.settings@);
}

/// "</" written as "<\/", so that a value cannot close the script tag the
/// settings are baked into.
pub open spec fn script_safe(json: Seq<char>) -> Seq<char> {
    crate::text::replace_all(json, seq!['<', '/'], seq!['<', '\\', '/'])
}

/// Escapes "</" in serialized settings before they go into a script tag.
pub fn escape_script_close(json: &str) -> (r: String)
    ensures
        r@ == script_safe(json@),
{
    let v = chars_of(json);
    let pat = vec!['<', '/'];
    let rep = vec!['<', '\\', '/'];
    assert(pat@ =~= seq!['<', '/']);
    assert(rep@ =~= seq!['<', '\\', '/']);
    let r = crate::text::replace_all_exec(&v, &pat, &rep);
    string_of(&r)
}

} // verus!
