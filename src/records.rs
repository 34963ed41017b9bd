//! Plain records that the surrounding application exchanges, and the text
//! clean-up applied to values written to a CSV file.
use vstd::prelude::*;
use vstd::string::*;
use crate::text::{chars_of, string_of_chars, is_white_space, white_space, utf8_width, width};

verus! {

/// A rectangle in image pixels.
#[derive(Debug, Clone, Copy, PartialEq, Eq, Structural)]
pub struct BoundingBox {
    pub x: i32,
    pub y: i32,
    pub width: i32,
    pub height: i32,
}

/// How an image is prepared before recognition.
#[derive(Debug)]
pub struct PreprocessingOptions {
    pub enhance_contrast: bool,
    pub denoise: bool,
    pub threshold_method: String,
    pub apply_morphology: bool,
}

impl Default for PreprocessingOptions {
    fn default() -> (r: PreprocessingOptions)
        ensures
            r.enhance_contrast,
            r.denoise,
            r.threshold_method@ == "adaptive_gaussian"@,
            r.apply_morphology,
    {
        PreprocessingOptions {
            enhance_contrast: true,
            denoise: true,
            threshold_method: "adaptive_gaussian".to_string(),
            apply_morphology: true,
        }
    }
}

/// A request to recognise text in several images.
#[derive(Debug)]
pub struct BatchOCRRequest {
    pub files: Vec<String>,
    pub preprocessing_options: Option<PreprocessingOptions>,
    pub max_file_size_mb: i32,
}

/// Progress of a batch run. `start_time` is in milliseconds.
#[derive(Debug, Clone, Copy, PartialEq, Eq, Structural)]
pub struct BatchState {
    pub is_processing: bool,
    pub current_file_index: usize,
    pub total_files: usize,
    pub completed_files: usize,
    pub failed_files: usize,
    pub start_time: u64,
}

impl Default for BatchState {
    fn default() -> (r: BatchState)
        ensures
            r == (BatchState {
                is_processing: false,
                current_file_index: 0,
                total_files: 0,
                completed_files: 0,
                failed_files: 0,
                start_time: 0,
            }),
    {
        BatchState {
            is_processing: false,
            current_file_index: 0,
            total_files: 0,
            completed_files: 0,
            failed_files: 0,
            start_time: 0,
        }
    }
}

/// How records are written to a CSV file.
#[derive(Debug, Clone, Copy, PartialEq, Eq, Structural)]
pub struct ExportOptions {
    pub append_mode: bool,
    pub include_headers: bool,
    pub max_text_length: usize,
}

impl Default for ExportOptions {
    fn default() -> (r: ExportOptions)
        ensures
            r == (ExportOptions { append_mode: true, include_headers: true, max_text_length: 1000 }),
    {
        ExportOptions { append_mode: true, include_headers: true, max_text_length: 1000 }
    }
}

/// How many leading characters of `c[k..]` fit in `limit` bytes, `used` being spent.
pub open spec fn fit_from(c: Seq<char>, k: int, used: int, limit: int) -> int
    decreases c.len() - k,
{
    if k < 0 || k >= c.len() || used + utf8_width(c[k]) > limit {
        k
    } else {
        fit_from(c, k + 1, used + utf8_width(c[k]), limit)
    }
}

/// The number of leading characters of `c` whose encoding fits in `limit` bytes.
pub open spec fn fit_prefix(c: Seq<char>, limit: int) -> int {
    fit_from(c, 0, 0, limit)
}

/// `c` cut to the characters that fit in `limit` bytes, then `...`; or `c`
/// itself when all of it fits in `max` bytes.
pub open spec fn truncated(c: Seq<char>, max: int, limit: int) -> Seq<char> {
    if fit_prefix(c, max) < c.len() {
        c.subrange(0, fit_prefix(c, limit)) + "..."@
    } else {
        c
    }
}

fn fit_count(c: &Vec<char>, limit: usize) -> (r: usize)
    ensures
        r == fit_prefix(c@, limit as int),
{
    let mut k: usize = 0;
    let mut used: usize = 0;
    while k < c.len()
        invariant
            k <= c@.len(),
            used <= limit,
            fit_prefix(c@, limit as int) == fit_from(c@, k as int, used as int, limit as int),
        decreases c@.len() - k,
    {
        let w = width(c[k]);
        if w > limit - used {
            return k;
        }
        used = used + w;
        k = k + 1;
    }
    k
}

fn cut(c: &Vec<char>, max: usize, limit: usize) -> (r: String)
    ensures
        r@ == truncated(c@, max as int, limit as int),
{
    if fit_count(c, max) < c.len() {
        let n = fit_count(c, limit);
        let mut v: Vec<char> = Vec::new();
        let mut k: usize = 0;
        proof {
            assert(n <= c@.len()) by {
                lemma_fit_bounded(c@, 0, 0, limit as int);
            }
        }
        while k < n
            invariant
                k <= n <= c@.len(),
                v@ == c@.subrange(0, k as int),
            decreases n - k,
        {
            v.push(c[k]);
            proof {
                assert(c@.subrange(0, k + 1) =~= c@.subrange(0, k as int).push(c@[k as int]));
            }
            k = k + 1;
        }
        string_of_chars(&v).concat("...")
    } else {
        string_of_chars(c)
    }
}

proof fn lemma_fit_bounded(c: Seq<char>, k: int, used: int, limit: int)
    requires
        0 <= k <= c.len(),
    ensures
        k <= fit_from(c, k, used, limit) <= c.len(),
    decreases c.len() - k,
{
    if k < c.len() && used + utf8_width(c[k]) <= limit {
        lemma_fit_bounded(c, k + 1, used + utf8_width(c[k]), limit);
    }
}

/// The character that CSV clean-up writes for `ch`: line breaks and tabs
/// become spaces, and with `quotes` a double quote becomes a single one.
pub open spec fn csv_char(ch: char, quotes: bool) -> char {
    if ch == '\n' || ch == '\r' || ch == '\t' {
        ' '
    } else if quotes && ch == '"' {
        '\''
    } else {
        ch
    }
}

fn map_csv_chars(c: &Vec<char>, quotes: bool) -> (r: Vec<char>)
    ensures
        r@ == c@.map_values(|ch: char| csv_char(ch, quotes)),
{
    let mut r: Vec<char> = Vec::new();
    let mut k: usize = 0;
    while k < c.len()
        invariant
            k <= c@.len(),
            r@ == c@.subrange(0, k as int).map_values(|ch: char| csv_char(ch, quotes)),
        decreases c@.len() - k,
    {
        let ch = c[k];
        let m = if ch == '\n' || ch == '\r' || ch == '\t' {
            ' '
        } else if quotes && ch == '"' {
            '\''
        } else {
            ch
        };
        r.push(m);
        proof {
            assert(c@.subrange(0, k + 1).map_values(|ch: char| csv_char(ch, quotes)) =~= c@.subrange(
                0,
                k as int,
            ).map_values(|ch: char| csv_char(ch, quotes)).push(csv_char(ch, quotes)));
        }
        k = k + 1;
    }
    assert(c@.subrange(0, c@.len() as int) =~= c@);
    r
}

/// The words of `c[i..]` joined by single spaces; `pending` holds when a
/// space is owed before the next word.
pub open spec fn collapse_from(c: Seq<char>, i: int, pending: bool, started: bool) -> Seq<char>
    decreases c.len() - i,
{
    if i < 0 || i >= c.len() {
        Seq::empty()
    } else if is_white_space(c[i]) {
        collapse_from(c, i + 1, started, started)
    } else {
        (if pending { seq![' '] } else { Seq::<char>::empty() }) + seq![c[i]] + collapse_from(
            c,
            i + 1,
            false,
            true,
        )
    }
}

/// The whitespace-separated words of `c`, joined by single spaces.
pub open spec fn collapsed(c: Seq<char>) -> Seq<char> {
    collapse_from(c, 0, false, false)
}

fn collapse_spaces(c: &Vec<char>) -> (r: Vec<char>)
    ensures
        r@ == collapsed(c@),
{
    let mut r: Vec<char> = Vec::new();
    let mut pending = false;
    let mut started = false;
    let mut i: usize = 0;
    while i < c.len()
        invariant
            i <= c@.len(),
            r@ + collapse_from(c@, i as int, pending, started) == collapsed(c@),
        decreases c@.len() - i,
    {
        let ch = c[i];
        if white_space(ch) {
            pending = started;
        } else {
            let ghost before = r@;
            if pending {
                r.push(' ');
            }
            r.push(ch);
            proof {
                assert(before + collapse_from(c@, i as int, pending, started) =~= r@ + collapse_from(
                    c@,
                    i + 1,
                    false,
                    true,
                ));
            }
            pending = false;
            started = true;
        }
        i = i + 1;
    }
    assert(r@ + Seq::<char>::empty() =~= r@);
    r
}

/// Text made fit for one CSV cell: line breaks and tabs become spaces,
/// double quotes become single quotes, and text longer than `max_length`
/// bytes is cut to at most `max_length - 3` bytes (whole characters) and
/// marked with `...`.
pub fn clean_for_csv(text: &str, max_length: usize) -> (r: String)
    ensures
        r@ == truncated(
            text@.map_values(|ch: char| csv_char(ch, true)),
            max_length as int,
            if max_length >= 3 { max_length - 3 } else { 0 },
        ),
{
    let c = map_csv_chars(&chars_of(text), true);
    let limit: usize = if max_length >= 3 {
        max_length - 3
    } else {
        0
    };
    cut(&c, max_length, limit)
}

/// The unit service that writes records to CSV files.
pub struct CSVExporterService;

impl CSVExporterService {
    pub fn new() -> (r: CSVExporterService) {
        CSVExporterService
    }

    /// Text made fit for one CSV cell: line breaks and tabs become spaces,
    /// runs of whitespace collapse to one space, the ends are trimmed, and
    /// text longer than `max_length` bytes is cut to at most `max_length`
    /// bytes (whole characters) and marked with `...`.
    pub fn clean_text_for_csv(text: &str, max_length: usize) -> (r: String)
        ensures
            r@ == truncated(
                collapsed(text@.map_values(|ch: char| csv_char(ch, false))),
                max_length as int,
                max_length as int,
            ),
    {
        let c = collapse_spaces(&map_csv_chars(&chars_of(text), false));
        cut(&c, max_length, max_length)
    }
}

} // verus!
