//! Supported file extensions by category, and the file-type decisions made
//! from a path's extension.
use vstd::prelude::*;
use crate::text::{chars_of, chars_equal, lowercase_of, lowercase_chars};

verus! {

pub open spec fn image_exts() -> Seq<Seq<char>> {
    seq!["png"@, "jpg"@, "jpeg"@, "bmp"@, "tiff"@, "tif"@, "gif"@, "webp"@]
}

pub open spec fn video_exts() -> Seq<Seq<char>> {
    seq!["mp4"@, "avi"@, "mov"@, "mkv"@, "wmv"@, "flv"@, "m4v"@, "3gp"@, "webm"@, "ogv"@]
}

pub open spec fn document_exts() -> Seq<Seq<char>> {
    seq!["docx"@, "doc"@, "rtf"@, "odt"@, "txt"@]
}

pub open spec fn pdf_exts() -> Seq<Seq<char>> {
    seq!["pdf"@]
}

pub open spec fn str_views(s: Seq<&str>) -> Seq<Seq<char>> {
    s.map_values(|x: &str| x@)
}

pub open spec fn string_views(s: Seq<String>) -> Seq<Seq<char>> {
    s.map_values(|x: String| x@)
}

/// The index of the last `c` in `s[..e]`, or -1.
pub open spec fn last_index_of(s: Seq<char>, c: char, e: int) -> int
    decreases e,
{
    if e <= 0 {
        -1
    } else if s[e - 1] == c {
        e - 1
    } else {
        last_index_of(s, c, e - 1)
    }
}

/// `e` moved back over trailing separators and `.` (current directory)
/// components, which a path's components leave out.
pub open spec fn strip_tail(s: Seq<char>, e: int) -> int
    decreases e,
{
    if e > 0 && s[e - 1] == '/' {
        strip_tail(s, e - 1)
    } else if e >= 2 && s[e - 1] == '.' && s[e - 2] == '/' {
        strip_tail(s, e - 2)
    } else if e == 1 && s[0] == '.' {
        0
    } else {
        e
    }
}

/// The last component of a `/`-separated path, trailing separators and `.`
/// components ignored.
pub open spec fn file_name_of(p: Seq<char>) -> Seq<char> {
    let q = p.subrange(0, strip_tail(p, p.len() as int));
    q.subrange(last_index_of(q, '/', q.len() as int) + 1, q.len() as int)
}

/// The extension of a path: what follows the last `.` of its file name,
/// unless that dot opens the name or the name is `..`.
pub open spec fn path_extension(p: Seq<char>) -> Option<Seq<char>> {
    let name = file_name_of(p);
    let d = last_index_of(name, '.', name.len() as int);
    if name == ".."@ || d <= 0 {
        None
    } else {
        Some(name.subrange(d + 1, name.len() as int))
    }
}

/// The path's extension, lower-cased, is one of `exts`.
pub open spec fn has_ext(p: Seq<char>, exts: Seq<Seq<char>>) -> bool {
    match path_extension(p) {
        Some(e) => exts.contains(lowercase_of(e)),
        None => false,
    }
}

/// What a file holds, judged by its extension.
#[derive(Debug, Clone, Copy, PartialEq, Eq, Structural)]
pub enum FileType {
    Image,
    Video,
    Document,
    Pdf,
    Unknown,
}

/// Facts about a file on disk.
#[derive(Debug)]
pub struct FileInfo {
    pub path: String,
    pub name: String,
    pub size: u64,
    pub extension: String,
    pub file_type: FileType,
    pub last_modified: String,
}

pub open spec fn file_type_spec(ext: Seq<char>) -> FileType {
    if image_exts().contains(ext) {
        FileType::Image
    } else if video_exts().contains(ext) {
        FileType::Video
    } else if document_exts().contains(ext) {
        FileType::Document
    } else if pdf_exts().contains(ext) {
        FileType::Pdf
    } else {
        FileType::Unknown
    }
}

fn image_list() -> (r: Vec<&'static str>)
    ensures
        str_views(r@) == image_exts(),
{
    let r = vec!["png", "jpg", "jpeg", "bmp", "tiff", "tif", "gif", "webp"];
    assert(str_views(r@) =~= image_exts());
    r
}

fn video_list() -> (r: Vec<&'static str>)
    ensures
        str_views(r@) == video_exts(),
{
    let r = vec!["mp4", "avi", "mov", "mkv", "wmv", "flv", "m4v", "3gp", "webm", "ogv"];
    assert(str_views(r@) =~= video_exts());
    r
}

fn document_list() -> (r: Vec<&'static str>)
    ensures
        str_views(r@) == document_exts(),
{
    let r = vec!["docx", "doc", "rtf", "odt", "txt"];
    assert(str_views(r@) =~= document_exts());
    r
}

fn pdf_list() -> (r: Vec<&'static str>)
    ensures
        str_views(r@) == pdf_exts(),
{
    let r = vec!["pdf"];
    assert(str_views(r@) =~= pdf_exts());
    r
}

fn listed(e: &Vec<char>, exts: &Vec<&str>) -> (r: bool)
    ensures
        r == str_views(exts@).contains(e@),
{
    let mut k: usize = 0;
    while k < exts.len()
        invariant
            k <= exts@.len(),
            forall|j: int| 0 <= j < k ==> exts@[j]@ != e@,
        decreases exts@.len() - k,
    {
        if chars_equal(e, exts[k]) {
            assert(str_views(exts@)[k as int] == e@);
            return true;
        }
        k = k + 1;
    }
    proof {
        if str_views(exts@).contains(e@) {
            let j = choose|j: int| 0 <= j < str_views(exts@).len() && str_views(exts@)[j] == e@;
            assert(exts@[j]@ == e@);
        }
    }
    false
}

/// The extension of the path, as `path_extension` describes it.
pub fn extension_of(path: &str) -> (r: Option<Vec<char>>)
    ensures
        match path_extension(path@) {
            Some(e) => r matches Some(v) && v@ == e,
            None => r is None,
        },
{
    let p = chars_of(path);
    let mut e: usize = p.len();
    while e > 0 && (p[e - 1] == '/' || (e >= 2 && p[e - 1] == '.' && p[e - 2] == '/') || (e == 1 && p[0] == '.'))
        invariant
            e <= p@.len(),
            strip_tail(p@, p@.len() as int) == strip_tail(p@, e as int),
        decreases e,
    {
        if p[e - 1] == '/' {
            e = e - 1;
        } else if e >= 2 {
            e = e - 2;
        } else {
            e = 0;
        }
    }
    let ghost q = p@.subrange(0, e as int);
    let mut s: usize = e;
    while s > 0 && p[s - 1] != '/'
        invariant
            s <= e <= p@.len(),
            q == p@.subrange(0, e as int),
            last_index_of(q, '/', e as int) == last_index_of(q, '/', s as int),
        decreases s,
    {
        s = s - 1;
    }
    let ghost name = q.subrange(last_index_of(q, '/', e as int) + 1, e as int);
    assert(name =~= p@.subrange(s as int, e as int));
    let mut d: usize = e;
    while d > s && p[d - 1] != '.'
        invariant
            s <= d <= e <= p@.len(),
            name == p@.subrange(s as int, e as int),
            last_index_of(name, '.', (e - s) as int) == last_index_of(name, '.', (d - s) as int),
        decreases d,
    {
        d = d - 1;
    }
    let n = e - s;
    let dot_at_start = d <= s + 1;
    let is_parent = n == 2 && p[s] == '.' && p[s + 1] == '.';
    proof {
        reveal_strlit("..");
        if n == 2 {
            if name == ".."@ {
                assert(name[0] == '.' && name[1] == '.');
            }
            if p@[s as int] == '.' && p@[s + 1] == '.' {
                assert(name =~= ".."@);
            }
        } else {
            assert(name.len() != ".."@.len());
        }
    }
    if is_parent || dot_at_start {
        return None;
    }
    let mut v: Vec<char> = Vec::new();
    let mut k: usize = d;
    while k < e
        invariant
            d <= k <= e <= p@.len(),
            v@ == p@.subrange(d as int, k as int),
        decreases e - k,
    {
        v.push(p[k]);
        proof {
            assert(p@.subrange(d as int, k + 1) =~= p@.subrange(d as int, k as int).push(p@[k as int]));
        }
        k = k + 1;
    }
    assert(v@ =~= name.subrange((d - s) as int, name.len() as int));
    Some(v)
}

fn to_strings(v: &Vec<&str>) -> (r: Vec<String>)
    ensures
        string_views(r@) == str_views(v@),
{
    let mut r: Vec<String> = Vec::new();
    let mut i: usize = 0;
    while i < v.len()
        invariant
            i <= v@.len(),
            r@.len() == i,
            forall|k: int| 0 <= k < i ==> #[trigger] r@[k]@ == v@[k]@,
        decreases v@.len() - i,
    {
        r.push(v[i].to_string());
        i = i + 1;
    }
    assert(string_views(r@) =~= str_views(v@));
    r
}

/// The extension lists, by category.
pub struct SupportedExtensions;

impl SupportedExtensions {
    pub fn is_image(file_path: &str) -> (r: bool)
        ensures
            r == has_ext(file_path@, image_exts()),
    {
        SupportedExtensions::has_extension(file_path, &image_list())
    }

    pub fn is_video(file_path: &str) -> (r: bool)
        ensures
            r == has_ext(file_path@, video_exts()),
    {
        SupportedExtensions::has_extension(file_path, &video_list())
    }

    pub fn is_document(file_path: &str) -> (r: bool)
        ensures
            r == has_ext(file_path@, document_exts()),
    {
        SupportedExtensions::has_extension(file_path, &document_list())
    }

    pub fn is_pdf(file_path: &str) -> (r: bool)
        ensures
            r == has_ext(file_path@, pdf_exts()),
    {
        SupportedExtensions::has_extension(file_path, &pdf_list())
    }

    /// Every supported extension: images, videos, documents, then PDF.
    pub fn get_all() -> (r: Vec<String>)
        ensures
            string_views(r@) == image_exts() + video_exts() + document_exts() + pdf_exts(),
    {
        let mut r = to_strings(&image_list());
        let mut b = to_strings(&video_list());
        let mut c = to_strings(&document_list());
        let mut d = to_strings(&pdf_list());
        let ghost (ra, rb, rc, rd) = (r@, b@, c@, d@);
        r.append(&mut b);
        r.append(&mut c);
        r.append(&mut d);
        assert(r@ == ra + rb + rc + rd);
        assert(string_views(r@) =~= string_views(ra) + string_views(rb) + string_views(rc) + string_views(rd));
        r
    }

    /// The extensions of each category: images, videos, documents, PDF.
    pub fn get_by_category() -> (r: (Vec<String>, Vec<String>, Vec<String>, Vec<String>))
        ensures
            string_views(r.0@) == image_exts(),
            string_views(r.1@) == video_exts(),
            string_views(r.2@) == document_exts(),
            string_views(r.3@) == pdf_exts(),
    {
        (
            to_strings(&image_list()),
            to_strings(&video_list()),
            to_strings(&document_list()),
            to_strings(&pdf_list()),
        )
    }

    /// Whether the path's extension, lower-cased, is one of `extensions`.
    pub fn has_extension(file_path: &str, extensions: &Vec<&str>) -> (r: bool)
        ensures
            r == has_ext(file_path@, str_views(extensions@)),
    {
        match extension_of(file_path) {
            Some(e) => listed(&lowercase_chars(&e), extensions),
            None => false,
        }
    }

    /// The category of an extension as given (it is not lower-cased here).
    pub fn determine_file_type(extension: &str) -> (r: FileType)
        ensures
            r == file_type_spec(extension@),
    {
        let e = chars_of(extension);
        if listed(&e, &image_list()) {
            FileType::Image
        } else if listed(&e, &video_list()) {
            FileType::Video
        } else if listed(&e, &document_list()) {
            FileType::Document
        } else if listed(&e, &pdf_list()) {
            FileType::Pdf
        } else {
            FileType::Unknown
        }
    }
}

} // verus!
