//! MIME type and file-extension mapping for generated files.

use vstd::prelude::*;

use crate::text::{
    eq_ignore_ascii_case, lemma_find_correct, spec_find, spec_lower_seq, spec_occurs_at, spec_trim,
    str_eq, trim_str,
};

verus! {

/// A file fetched from a provider's file store: raw bytes plus the name
/// and media type the caller should save it under.  The name repair in
/// `fix_filename_extension` produces the `filename` field.
pub struct DownloadedFile {
    pub data: Vec<u8>,
    pub filename: String,
    pub mime_type: Option<String>,
}

/// Position of the last occurrence of `c` in `m`.
pub open spec fn spec_rfind(m: Seq<char>, c: char) -> Option<int>
    decreases m.len(),
        via spec_rfind_decreases
{
    match spec_find(m, seq![c]) {
        None => None,
        Some(i) => match spec_rfind(m.skip(i + 1), c) {
            Some(k) => Some(i + 1 + k),
            None => Some(i),
        },
    }
}

#[via_fn]
proof fn spec_rfind_decreases(m: Seq<char>, c: char) {
    lemma_find_correct(m, seq![c]);
}

/// `spec_rfind` returns the last occurrence, or reports that none exists.
pub proof fn lemma_rfind_correct(m: Seq<char>, c: char)
    ensures
        match spec_rfind(m, c) {
            Some(p) => 0 <= p < m.len() && m[p] == c && forall|k: int|
                p < k < m.len() ==> m[k] != c,
            None => forall|k: int| 0 <= k < m.len() ==> m[k] != c,
        },
    decreases m.len(),
{
    lemma_find_correct(m, seq![c]);
    match spec_find(m, seq![c]) {
        None => {
            assert forall|k: int| 0 <= k < m.len() implies m[k] != c by {
                if m[k] == c {
                    assert(m.subrange(k, k + 1) =~= seq![c]);
                    assert(spec_occurs_at(m, seq![c], k));
                }
            }
        },
        Some(i) => {
            assert(spec_occurs_at(m, seq![c], i));
            assert(m.subrange(i, i + 1)[0] == m[i]);
            let t = m.skip(i + 1);
            lemma_rfind_correct(t, c);
            match spec_rfind(t, c) {
                Some(k) => {
                    assert(t[k] == m[i + 1 + k]);
                    assert forall|q: int| i + 1 + k < q < m.len() implies m[q] != c by {
                        assert(t[q - i - 1] == m[q]);
                    }
                },
                None => {
                    assert forall|q: int| i < q < m.len() implies m[q] != c by {
                        assert(t[q - i - 1] == m[q]);
                    }
                },
            }
        },
    }
}

/// Position of the last occurrence of `c` in `s`.
pub fn rfind_char(s: &str, c: char) -> (r: Option<usize>)
    ensures
        (r is Some) == (spec_rfind(s@, c) is Some),
        r matches Some(p) ==> spec_rfind(s@, c) == Some(p as int) && p < s@.len(),
{
    proof {
        lemma_rfind_correct(s@, c);
    }
    let n = s.unicode_len();
    let mut j: usize = n;
    while j > 0 && s.get_char(j - 1) != c
        invariant
            j <= n,
            n == s@.len(),
            forall|k: int| j <= k < n ==> s@[k] != c,
        decreases j,
    {
        j -= 1;
    }
    proof {
        match spec_rfind(s@, c) {
            Some(p) => {
                assert(j > 0);
                assert(s@[j - 1] == c);
                if p < j - 1 {
                    assert(s@[j - 1] != c);
                    assert(false);
                }
                if p > j - 1 {
                    assert(s@[p] != c);
                    assert(false);
                }
            },
            None => {
                if j > 0 {
                    assert(s@[j - 1] == c);
                    assert(false);
                }
            },
        }
    }
    if j == 0 {
        None
    } else {
        Some(j - 1)
    }
}

/// The suffix of `m` after the last occurrence of `c`; all of `m` when `c`
/// does not occur.
pub open spec fn spec_after_last(m: Seq<char>, c: char) -> Seq<char> {
    match spec_rfind(m, c) {
        Some(p) => m.skip(p + 1),
        None => m,
    }
}

/// The prefix of `m` before the first `;`, with surrounding whitespace
/// removed: the bare media type without parameters.
pub open spec fn spec_mime_base(m: Seq<char>) -> Seq<char> {
    spec_trim(
        match spec_find(m, ";"@) {
            Some(i) => m.subrange(0, i),
            None => m,
        },
    )
}

/// The file extension the library assigns to a media type, if it knows one.
pub open spec fn spec_mime_to_extension(m: Seq<char>) -> Option<Seq<char>> {
    let b = spec_mime_base(m);
    if b == "text/csv"@ {
        Some("csv"@)
    } else if b == "application/vnd.openxmlformats-officedocument.spreadsheetml.sheet"@ {
        Some("xlsx"@)
    } else if b == "application/vnd.ms-excel"@ {
        Some("xls"@)
    } else if b == "application/pdf"@ {
        Some("pdf"@)
    } else if b == "image/png"@ {
        Some("png"@)
    } else if b == "image/jpeg"@ {
        Some("jpg"@)
    } else if b == "application/json"@ {
        Some("json"@)
    } else if b == "text/plain"@ {
        Some("txt"@)
    } else if b == "text/html"@ {
        Some("html"@)
    } else if b == "application/zip"@ {
        Some("zip"@)
    } else if b == "application/xml"@ || b == "text/xml"@ {
        Some("xml"@)
    } else {
        None
    }
}

/// Map a media type to a file extension, ignoring any parameters after a
/// semicolon.  Returns the extension without the leading dot.
pub fn mime_to_extension(mime_type: &str) -> (r: Option<&'static str>)
    ensures
        match r {
            Some(e) => spec_mime_to_extension(mime_type@) == Some(e@),
            None => spec_mime_to_extension(mime_type@) is None,
        },
{
    let n = mime_type.unicode_len();
    let prefix = match crate::text::find_sub(mime_type, ";") {
        Some(i) => mime_type.substring_char(0, i),
        None => mime_type.substring_char(0, n),
    };
    proof {
        assert(mime_type@.subrange(0, n as int) =~= mime_type@);
    }
    let base = trim_str(prefix);
    proof {
        assert(base@ == spec_mime_base(mime_type@));
    }
    let b = base.as_str();
    if str_eq(b, "text/csv") {
        Some("csv")
    } else if str_eq(b, "application/vnd.openxmlformats-officedocument.spreadsheetml.sheet") {
        Some("xlsx")
    } else if str_eq(b, "application/vnd.ms-excel") {
        Some("xls")
    } else if str_eq(b, "application/pdf") {
        Some("pdf")
    } else if str_eq(b, "image/png") {
        Some("png")
    } else if str_eq(b, "image/jpeg") {
        Some("jpg")
    } else if str_eq(b, "application/json") {
        Some("json")
    } else if str_eq(b, "text/plain") {
        Some("txt")
    } else if str_eq(b, "text/html") {
        Some("html")
    } else if str_eq(b, "application/zip") {
        Some("zip")
    } else if str_eq(b, "application/xml") || str_eq(b, "text/xml") {
        Some("xml")
    } else {
        None
    }
}

/// What `mime_to_extension_or_subtype` returns: the known extension, else
/// the subtype after the last `/` of the raw media type.
pub open spec fn spec_mime_extension_or_subtype(m: Seq<char>) -> Seq<char> {
    match spec_mime_to_extension(m) {
        Some(e) => e,
        None => spec_after_last(m, '/'),
    }
}

/// The extension for a media type, falling back to its subtype.
pub fn mime_to_extension_or_subtype(mime_type: &str) -> (r: String)
    ensures
        r@ == spec_mime_extension_or_subtype(mime_type@),
{
    match mime_to_extension(mime_type) {
        Some(e) => e.to_owned(),
        None => {
            let n = mime_type.unicode_len();
            match rfind_char(mime_type, '/') {
                Some(p) => {
                    let suffix = mime_type.substring_char(p + 1, n);
                    proof {
                        assert(mime_type@.subrange(p + 1, n as int) =~= mime_type@.skip(p + 1));
                    }
                    suffix.to_owned()
                },
                None => mime_type.to_owned(),
            }
        },
    }
}

/// The media type the library assigns to a lower-cased file extension.
pub open spec fn spec_extension_key_mime(e: Seq<u32>) -> Option<Seq<char>> {
    if e == spec_lower_seq("csv"@) {
        Some("text/csv"@)
    } else if e == spec_lower_seq("xlsx"@) {
        Some("application/vnd.openxmlformats-officedocument.spreadsheetml.sheet"@)
    } else if e == spec_lower_seq("xls"@) {
        Some("application/vnd.ms-excel"@)
    } else if e == spec_lower_seq("pdf"@) {
        Some("application/pdf"@)
    } else if e == spec_lower_seq("png"@) {
        Some("image/png"@)
    } else if e == spec_lower_seq("jpg"@) || e == spec_lower_seq("jpeg"@) {
        Some("image/jpeg"@)
    } else if e == spec_lower_seq("gif"@) {
        Some("image/gif"@)
    } else if e == spec_lower_seq("webp"@) {
        Some("image/webp"@)
    } else if e == spec_lower_seq("json"@) {
        Some("application/json"@)
    } else if e == spec_lower_seq("txt"@) {
        Some("text/plain"@)
    } else if e == spec_lower_seq("html"@) || e == spec_lower_seq("htm"@) {
        Some("text/html"@)
    } else if e == spec_lower_seq("zip"@) {
        Some("application/zip"@)
    } else if e == spec_lower_seq("xml"@) {
        Some("application/xml"@)
    } else if e == spec_lower_seq("py"@) {
        Some("text/x-python"@)
    } else if e == spec_lower_seq("js"@) {
        Some("text/javascript"@)
    } else if e == spec_lower_seq("ts"@) {
        Some("text/typescript"@)
    } else if e == spec_lower_seq("java"@) {
        Some("text/x-java"@)
    } else if e == spec_lower_seq("c"@) {
        Some("text/x-c"@)
    } else if e == spec_lower_seq("cpp"@) || e == spec_lower_seq("cc"@) || e == spec_lower_seq(
        "cxx"@,
    ) {
        Some("text/x-c++"@)
    } else if e == spec_lower_seq("md"@) {
        Some("text/markdown"@)
    } else {
        None
    }
}

/// What `extension_to_mime` returns: the media type for the filename's
/// extension (the part after the last dot, compared without regard to
/// ASCII case).
pub open spec fn spec_extension_to_mime(filename: Seq<char>) -> Option<Seq<char>> {
    spec_extension_key_mime(spec_lower_seq(spec_after_last(filename, '.')))
}

/// Map a filename's extension to a media type, when known.
pub fn extension_to_mime(filename: &str) -> (r: Option<&'static str>)
    ensures
        match r {
            Some(m) => spec_extension_to_mime(filename@) == Some(m@),
            None => spec_extension_to_mime(filename@) is None,
        },
{
    let n = filename.unicode_len();
    let ext_owned: String = match rfind_char(filename, '.') {
        Some(p) => {
            let sfx = filename.substring_char(p + 1, n);
            proof {
                assert(filename@.subrange(p + 1, n as int) =~= filename@.skip(p + 1));
            }
            sfx.to_owned()
        },
        None => filename.to_owned(),
    };
    let e = ext_owned.as_str();
    if eq_ignore_ascii_case(e, "csv") {
        Some("text/csv")
    } else if eq_ignore_ascii_case(e, "xlsx") {
        Some("application/vnd.openxmlformats-officedocument.spreadsheetml.sheet")
    } else if eq_ignore_ascii_case(e, "xls") {
        Some("application/vnd.ms-excel")
    } else if eq_ignore_ascii_case(e, "pdf") {
        Some("application/pdf")
    } else if eq_ignore_ascii_case(e, "png") {
        Some("image/png")
    } else if eq_ignore_ascii_case(e, "jpg") || eq_ignore_ascii_case(e, "jpeg") {
        Some("image/jpeg")
    } else if eq_ignore_ascii_case(e, "gif") {
        Some("image/gif")
    } else if eq_ignore_ascii_case(e, "webp") {
        Some("image/webp")
    } else if eq_ignore_ascii_case(e, "json") {
        Some("application/json")
    } else if eq_ignore_ascii_case(e, "txt") {
        Some("text/plain")
    } else if eq_ignore_ascii_case(e, "html") || eq_ignore_ascii_case(e, "htm") {
        Some("text/html")
    } else if eq_ignore_ascii_case(e, "zip") {
        Some("application/zip")
    } else if eq_ignore_ascii_case(e, "xml") {
        Some("application/xml")
    } else if eq_ignore_ascii_case(e, "py") {
        Some("text/x-python")
    } else if eq_ignore_ascii_case(e, "js") {
        Some("text/javascript")
    } else if eq_ignore_ascii_case(e, "ts") {
        Some("text/typescript")
    } else if eq_ignore_ascii_case(e, "java") {
        Some("text/x-java")
    } else if eq_ignore_ascii_case(e, "c") {
        Some("text/x-c")
    } else if eq_ignore_ascii_case(e, "cpp") || eq_ignore_ascii_case(e, "cc")
        || eq_ignore_ascii_case(e, "cxx") {
        Some("text/x-c++")
    } else if eq_ignore_ascii_case(e, "md") {
        Some("text/markdown")
    } else {
        None
    }
}

/// A lower-cased extension the download path recognizes as already valid.
pub open spec fn spec_is_known_extension(e: Seq<u32>) -> bool {
    e == spec_lower_seq("csv"@) || e == spec_lower_seq("xlsx"@) || e == spec_lower_seq("xls"@) || e
        == spec_lower_seq("pdf"@) || e == spec_lower_seq("png"@) || e == spec_lower_seq("jpg"@)
        || e == spec_lower_seq("jpeg"@) || e == spec_lower_seq("json"@) || e == spec_lower_seq(
        "txt"@,
    ) || e == spec_lower_seq("html"@) || e == spec_lower_seq("zip"@) || e == spec_lower_seq("xml"@)
}

/// What `fix_filename_extension` returns: the filename unchanged when its
/// extension is already recognized or the media type maps to no extension;
/// otherwise the base name (before the last dot, or the whole name) with
/// the media type's extension appended.
pub open spec fn spec_fix_filename(filename: Seq<char>, mime: Option<Seq<char>>) -> Seq<char> {
    if spec_is_known_extension(spec_lower_seq(spec_after_last(filename, '.'))) {
        filename
    } else {
        let ext = match mime {
            Some(m) => spec_mime_to_extension(m),
            None => None,
        };
        match ext {
            Some(e) => {
                let base = match spec_rfind(filename, '.') {
                    Some(p) => filename.subrange(0, p),
                    None => filename,
                };
                base + "."@ + e
            },
            None => filename,
        }
    }
}

/// Add or repair a filename's extension from the media type the server
/// reported; a recognized existing extension is kept.
pub fn fix_filename_extension(filename: &str, mime_type: Option<&str>) -> (r: String)
    ensures
        r@ == spec_fix_filename(
            filename@,
            match mime_type {
                Some(m) => Some(m@),
                None => None,
            },
        ),
{
    let n = filename.unicode_len();
    let dot = rfind_char(filename, '.');
    let ext_owned: String = match dot {
        Some(p) => {
            let sfx = filename.substring_char(p + 1, n);
            proof {
                assert(filename@.subrange(p + 1, n as int) =~= filename@.skip(p + 1));
            }
            sfx.to_owned()
        },
        None => filename.to_owned(),
    };
    let e = ext_owned.as_str();
    let known = eq_ignore_ascii_case(e, "csv") || eq_ignore_ascii_case(e, "xlsx")
        || eq_ignore_ascii_case(e, "xls") || eq_ignore_ascii_case(e, "pdf")
        || eq_ignore_ascii_case(e, "png") || eq_ignore_ascii_case(e, "jpg")
        || eq_ignore_ascii_case(e, "jpeg") || eq_ignore_ascii_case(e, "json")
        || eq_ignore_ascii_case(e, "txt") || eq_ignore_ascii_case(e, "html")
        || eq_ignore_ascii_case(e, "zip") || eq_ignore_ascii_case(e, "xml");
    if known {
        return filename.to_owned();
    }
    let mapped: Option<&'static str> = match mime_type {
        Some(m) => mime_to_extension(m),
        None => None,
    };
    match mapped {
        Some(ext) => {
            let base = match dot {
                Some(p) => filename.substring_char(0, p),
                None => filename.substring_char(0, n),
            };
            proof {
                assert(filename@.subrange(0, n as int) =~= filename@);
            }
            let r = base.to_owned().concat(".").concat(ext);
            r
        },
        None => filename.to_owned(),
    }
}

} // verus!
