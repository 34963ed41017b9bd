//! A deterministic detector of mechanical issues: a run of two spaces,
//! a lower-case letter opening a sentence, a space before punctuation, and
//! words of a fixed misspelling table. Offsets and lengths are byte units
//! over the text as given.
use vstd::prelude::*;
use crate::finding::{GrammarError, ErrorType, Severity};
use crate::text::{
    utf8_of, bytes_of, chars_of, char_string, is_white_space, white_space, utf8_width, width,
    byte_pos, byte_offset, lemma_byte_pos_step, lemma_byte_pos_zero, lemma_byte_pos_mono,
    is_alphabetic_char, alphabetic, is_lowercase_char, lowercase_letter, uppercase_of, uppercase,
    lowercase_of, lowercase_chars, chars_equal, context_text, extract_context,
};
use vstd::utf8::valid_utf8;

verus! {

/// What the detector states of one finding.
pub struct FindingModel {
    pub offset: int,
    pub length: int,
    pub error_type: ErrorType,
    pub severity: Severity,
    pub confidence: u8,
    pub suggestion: Seq<char>,
    pub rule: Seq<char>,
    pub category: Seq<char>,
    pub message: Seq<char>,
}

/// `f` is the finding that `m` describes over the text bytes `b`, with
/// `m.suggestion` as its only suggestion and the span's context.
pub open spec fn models(b: Seq<u8>, f: GrammarError, m: FindingModel) -> bool {
    &&& f.offset == m.offset
    &&& f.length == m.length
    &&& f.error_type == m.error_type
    &&& f.severity == m.severity
    &&& f.confidence == m.confidence
    &&& f.suggestions@.len() == 1
    &&& f.suggestions@[0]@ == m.suggestion
    &&& f.rule_id@ == m.rule
    &&& f.category@ == m.category
    &&& f.message@ == m.message
    &&& f.context@ == context_text(b, m.offset, m.length)
}

pub open spec fn all_model(b: Seq<u8>, fs: Seq<GrammarError>, ms: Seq<FindingModel>) -> bool {
    &&& fs.len() == ms.len()
    &&& forall|k: int| 0 <= k < fs.len() ==> models(b, #[trigger] fs[k], ms[k])
}

/// The first `k' >= k` with `c[k'] == x` and `c[k' + 1] == y`.
pub open spec fn first_pair_from(c: Seq<char>, x: char, y: char, k: int) -> Option<int>
    decreases c.len() - k,
{
    if k < 0 || k + 1 >= c.len() {
        None
    } else if c[k] == x && c[k + 1] == y {
        Some(k)
    } else {
        first_pair_from(c, x, y, k + 1)
    }
}

pub open spec fn double_space_models(c: Seq<char>) -> Seq<FindingModel> {
    match first_pair_from(c, ' ', ' ', 0) {
        Some(i) => seq![
            FindingModel {
                offset: byte_pos(c, i),
                length: 2,
                error_type: ErrorType::Style,
                severity: Severity::Info,
                confidence: 90,
                suggestion: " "@,
                rule: "DOUBLE_SPACE"@,
                category: "Whitespace"@,
                message: "Multiple consecutive spaces found"@,
            },
        ],
        None => Seq::empty(),
    }
}

pub open spec fn is_terminator(ch: char) -> bool {
    ch == '.' || ch == '!' || ch == '?'
}

/// Lower-case letters that open a sentence other than the first, scanning from
/// `i`; `armed` holds when a terminator and then only whitespace came before `i`.
pub open spec fn capital_models_from(c: Seq<char>, i: int, armed: bool) -> Seq<FindingModel>
    decreases c.len() - i,
{
    if i < 0 || i >= c.len() {
        Seq::empty()
    } else if is_terminator(c[i]) {
        capital_models_from(c, i + 1, true)
    } else if is_white_space(c[i]) {
        capital_models_from(c, i + 1, armed)
    } else if armed && is_lowercase_char(c[i]) {
        seq![
            FindingModel {
                offset: byte_pos(c, i),
                length: utf8_width(c[i]),
                error_type: ErrorType::Grammar,
                severity: Severity::Warning,
                confidence: 80,
                suggestion: uppercase_of(c[i]),
                rule: "SENTENCE_CAPITALIZATION"@,
                category: "Capitalization"@,
                message: "Sentence should start with a capital letter"@,
            },
        ] + capital_models_from(c, i + 1, false)
    } else {
        capital_models_from(c, i + 1, false)
    }
}

/// The punctuation marks that must not follow a space.
pub open spec fn punctuation_marks() -> Seq<char> {
    seq![',', '.', '!', '?', ';', ':']
}

pub open spec fn space_before_models(c: Seq<char>, p: char) -> Seq<FindingModel> {
    match first_pair_from(c, ' ', p, 0) {
        Some(i) => seq![
            FindingModel {
                offset: byte_pos(c, i),
                length: 2,
                error_type: ErrorType::Punctuation,
                severity: Severity::Error,
                confidence: 90,
                suggestion: seq![p],
                rule: "SPACE_BEFORE_PUNCTUATION"@,
                category: "Punctuation"@,
                message: "Remove the space before punctuation"@,
            },
        ],
        None => Seq::empty(),
    }
}

/// One finding for each mark of `marks[k..]` that occurs after a space.
pub open spec fn punctuation_models_from(c: Seq<char>, marks: Seq<char>, k: int) -> Seq<FindingModel>
    decreases marks.len() - k,
{
    if k < 0 || k >= marks.len() {
        Seq::empty()
    } else {
        space_before_models(c, marks[k]) + punctuation_models_from(c, marks, k + 1)
    }
}

/// The correct spelling of a lower-case word of the misspelling table.
pub open spec fn spelling_fix(w: Seq<char>) -> Option<Seq<char>> {
    if w == "teh"@ {
        Some("the"@)
    } else if w == "adn"@ {
        Some("and"@)
    } else if w == "recieve"@ {
        Some("receive"@)
    } else if w == "seperate"@ {
        Some("separate"@)
    } else if w == "definately"@ {
        Some("definitely"@)
    } else if w == "occured"@ {
        Some("occurred"@)
    } else if w == "untill"@ {
        Some("until"@)
    } else if w == "wich"@ {
        Some("which"@)
    } else if w == "thier"@ {
        Some("their"@)
    } else if w == "becuase"@ {
        Some("because"@)
    } else {
        None
    }
}

/// The first alphabetic character of `c[s..e]`, or `e`.
pub open spec fn first_alpha(c: Seq<char>, s: int, e: int) -> int
    decreases e - s,
{
    if s >= e || is_alphabetic_char(c[s]) {
        s
    } else {
        first_alpha(c, s + 1, e)
    }
}

/// One past the last alphabetic character of `c[s..e]`, or `s`.
pub open spec fn last_alpha_end(c: Seq<char>, s: int, e: int) -> int
    decreases e - s,
{
    if s >= e || is_alphabetic_char(c[e - 1]) {
        e
    } else {
        last_alpha_end(c, s, e - 1)
    }
}

/// The misspelling finding of the token `c[s..e]`, stripped of leading and
/// trailing non-alphabetic characters and lower-cased.
pub open spec fn token_models(c: Seq<char>, s: int, e: int) -> Seq<FindingModel> {
    let a = first_alpha(c, s, e);
    let z = last_alpha_end(c, a, e);
    if a >= z {
        Seq::empty()
    } else {
        match spelling_fix(lowercase_of(c.subrange(a, z))) {
            Some(r) => seq![
                FindingModel {
                    offset: byte_pos(c, a),
                    length: byte_pos(c, z) - byte_pos(c, a),
                    error_type: ErrorType::Spelling,
                    severity: Severity::Error,
                    confidence: 80,
                    suggestion: r,
                    rule: "MISSPELLING"@,
                    category: "Spelling"@,
                    message: "Possible spelling mistake"@,
                },
            ],
            None => Seq::empty(),
        }
    }
}

/// Misspellings among the whitespace-separated tokens, scanning from `i`; the
/// current token started at `s`.
pub open spec fn spelling_models_from(c: Seq<char>, i: int, s: int) -> Seq<FindingModel>
    decreases c.len() - i,
{
    if i < 0 || i >= c.len() {
        token_models(c, s, c.len() as int)
    } else if is_white_space(c[i]) {
        token_models(c, s, i) + spelling_models_from(c, i + 1, i + 1)
    } else {
        spelling_models_from(c, i + 1, s)
    }
}

/// Everything the detector reports on the characters `c`, in order.
pub open spec fn pattern_models(c: Seq<char>) -> Seq<FindingModel> {
    double_space_models(c) + capital_models_from(c, 0, false) + punctuation_models_from(
        c,
        punctuation_marks(),
        0,
    ) + spelling_models_from(c, 0, 0)
}

/// The text's characters and bytes, as the scans below take them.
pub open spec fn scan_ready(c: Seq<char>, b: Seq<u8>) -> bool {
    &&& b == utf8_of(c)
    &&& valid_utf8(b)
    &&& b.len() <= usize::MAX
}

fn first_pair(c: &Vec<char>, x: char, y: char) -> (r: Option<usize>)
    ensures
        match r {
            Some(i) => first_pair_from(c@, x, y, 0) == Some(i as int) && i + 1 < c@.len(),
            None => first_pair_from(c@, x, y, 0) is None,
        },
{
    let mut k: usize = 0;
    while k < c.len() && c.len() - k > 1
        invariant
            k <= c@.len(),
            first_pair_from(c@, x, y, 0) == first_pair_from(c@, x, y, k as int),
        decreases c@.len() - k,
    {
        if c[k] == x && c[k + 1] == y {
            return Some(k);
        }
        k = k + 1;
    }
    None
}

fn finding(
    b: &Vec<u8>,
    message: &str,
    rule: &str,
    category: &str,
    offset: usize,
    length: usize,
    suggestion: String,
    severity: Severity,
    confidence: u8,
    error_type: ErrorType,
) -> (r: GrammarError)
    requires
        valid_utf8(b@),
    ensures
        r.offset == offset,
        r.length == length,
        r.suggestions@.len() == 1,
        r.suggestions@[0]@ == suggestion@,
        r.rule_id@ == rule@,
        r.category@ == category@,
        r.message@ == message@,
        r.context@ == context_text(b@, offset as int, length as int),
        r.severity == severity,
        r.confidence == confidence,
        r.error_type == error_type,
{
    let mut suggestions: Vec<String> = Vec::new();
    suggestions.push(suggestion);
    GrammarError {
        message: message.to_string(),
        rule_id: rule.to_string(),
        category: category.to_string(),
        offset,
        length,
        context: extract_context(b, offset, length),
        suggestions,
        severity,
        confidence,
        error_type,
    }
}

fn double_space_findings(c: &Vec<char>, b: &Vec<u8>) -> (r: Vec<GrammarError>)
    requires
        scan_ready(c@, b@),
    ensures
        all_model(b@, r@, double_space_models(c@)),
{
    let mut r: Vec<GrammarError> = Vec::new();
    match first_pair(c, ' ', ' ') {
        Some(i) => {
            let off = byte_offset(c, i, Ghost(b@.len() as int));
            r.push(
                finding(
                    b,
                    "Multiple consecutive spaces found",
                    "DOUBLE_SPACE",
                    "Whitespace",
                    off,
                    2,
                    " ".to_string(),
                    Severity::Info,
                    90,
                    ErrorType::Style,
                ),
            );
        },
        None => {},
    }
    r
}

fn capital_findings(c: &Vec<char>, b: &Vec<u8>) -> (r: Vec<GrammarError>)
    requires
        scan_ready(c@, b@),
    ensures
        all_model(b@, r@, capital_models_from(c@, 0, false)),
{
    let mut r: Vec<GrammarError> = Vec::new();
    let ghost done: Seq<FindingModel> = Seq::empty();
    let mut armed = false;
    let mut i: usize = 0;
    let mut pos: usize = 0;
    proof {
        lemma_byte_pos_zero(c@);
    }
    while i < c.len()
        invariant
            i <= c@.len(),
            scan_ready(c@, b@),
            pos == byte_pos(c@, i as int),
            all_model(b@, r@, done),
            done + capital_models_from(c@, i as int, armed) == capital_models_from(c@, 0, false),
        decreases c@.len() - i,
    {
        let ch = c[i];
        proof {
            lemma_byte_pos_step(c@, i as int);
        }
        if ch == '.' || ch == '!' || ch == '?' {
            armed = true;
        } else if white_space(ch) {
        } else if armed && lowercase_letter(ch) {
            let f = finding(
                b,
                "Sentence should start with a capital letter",
                "SENTENCE_CAPITALIZATION",
                "Capitalization",
                pos,
                width(ch),
                uppercase(ch),
                Severity::Warning,
                80,
                ErrorType::Grammar,
            );
            let ghost m = capital_models_from(c@, i as int, armed)[0];
            proof {
                assert(done + capital_models_from(c@, i as int, armed) =~= done.push(m)
                    + capital_models_from(c@, i + 1, false));
                done = done.push(m);
            }
            r.push(f);
            armed = false;
        } else {
            armed = false;
        }
        pos = pos + width(ch);
        i = i + 1;
    }
    proof {
        assert(done + Seq::<FindingModel>::empty() =~= done);
    }
    r
}

fn punctuation_findings(c: &Vec<char>, b: &Vec<u8>) -> (r: Vec<GrammarError>)
    requires
        scan_ready(c@, b@),
    ensures
        all_model(b@, r@, punctuation_models_from(c@, punctuation_marks(), 0)),
{
    let marks: Vec<char> = vec![',', '.', '!', '?', ';', ':'];
    assert(marks@ =~= punctuation_marks());
    let mut r: Vec<GrammarError> = Vec::new();
    let ghost done: Seq<FindingModel> = Seq::empty();
    let mut k: usize = 0;
    while k < marks.len()
        invariant
            k <= marks@.len(),
            scan_ready(c@, b@),
            marks@ == punctuation_marks(),
            all_model(b@, r@, done),
            done + punctuation_models_from(c@, marks@, k as int) == punctuation_models_from(
                c@,
                marks@,
                0,
            ),
        decreases marks@.len() - k,
    {
        let p = marks[k];
        match first_pair(c, ' ', p) {
            Some(i) => {
                let off = byte_offset(c, i, Ghost(b@.len() as int));
                let f = finding(
                    b,
                    "Remove the space before punctuation",
                    "SPACE_BEFORE_PUNCTUATION",
                    "Punctuation",
                    off,
                    2,
                    char_string(p),
                    Severity::Error,
                    90,
                    ErrorType::Punctuation,
                );
                let ghost m = space_before_models(c@, p)[0];
                proof {
                    assert(done + punctuation_models_from(c@, marks@, k as int) =~= done.push(m)
                        + punctuation_models_from(c@, marks@, k + 1));
                    done = done.push(m);
                }
                r.push(f);
            },
            None => {
                proof {
                    assert(done + punctuation_models_from(c@, marks@, k as int) =~= done
                        + punctuation_models_from(c@, marks@, k + 1));
                }
            },
        }
        k = k + 1;
    }
    proof {
        assert(done + Seq::<FindingModel>::empty() =~= done);
    }
    r
}

fn lookup_fix(w: &Vec<char>) -> (r: Option<String>)
    ensures
        match spelling_fix(w@) {
            Some(s) => r matches Some(t) && t@ == s,
            None => r is None,
        },
{
    if chars_equal(w, "teh") {
        Some("the".to_string())
    } else if chars_equal(w, "adn") {
        Some("and".to_string())
    } else if chars_equal(w, "recieve") {
        Some("receive".to_string())
    } else if chars_equal(w, "seperate") {
        Some("separate".to_string())
    } else if chars_equal(w, "definately") {
        Some("definitely".to_string())
    } else if chars_equal(w, "occured") {
        Some("occurred".to_string())
    } else if chars_equal(w, "untill") {
        Some("until".to_string())
    } else if chars_equal(w, "wich") {
        Some("which".to_string())
    } else if chars_equal(w, "thier") {
        Some("their".to_string())
    } else if chars_equal(w, "becuase") {
        Some("because".to_string())
    } else {
        None
    }
}

fn token_findings(
    c: &Vec<char>,
    b: &Vec<u8>,
    s: usize,
    e: usize,
    s_pos: usize,
    e_pos: usize,
    r: &mut Vec<GrammarError>,
    Ghost(done): Ghost<Seq<FindingModel>>,
)
    requires
        s <= e <= c@.len(),
        scan_ready(c@, b@),
        s_pos == byte_pos(c@, s as int),
        e_pos == byte_pos(c@, e as int),
        all_model(b@, old(r)@, done),
    ensures
        all_model(b@, final(r)@, done + token_models(c@, s as int, e as int)),
{
    let mut a: usize = s;
    let mut pa: usize = s_pos;
    while a < e && !alphabetic(c[a])
        invariant
            s <= a <= e <= c@.len(),
            scan_ready(c@, b@),
            pa == byte_pos(c@, a as int),
            first_alpha(c@, s as int, e as int) == first_alpha(c@, a as int, e as int),
        decreases e - a,
    {
        proof {
            lemma_byte_pos_step(c@, a as int);
        }
        pa = pa + width(c[a]);
        a = a + 1;
    }
    let mut z: usize = e;
    let mut pz: usize = e_pos;
    while z > a && !alphabetic(c[z - 1])
        invariant
            a <= z <= e <= c@.len(),
            pz == byte_pos(c@, z as int),
            last_alpha_end(c@, a as int, e as int) == last_alpha_end(c@, a as int, z as int),
        decreases z,
    {
        proof {
            lemma_byte_pos_step(c@, z - 1);
        }
        pz = pz - width(c[z - 1]);
        z = z - 1;
    }
    if a >= z {
        assert(done + token_models(c@, s as int, e as int) =~= done);
        return;
    }
    proof {
        lemma_byte_pos_mono(c@, a as int, z as int);
    }
    let mut w: Vec<char> = Vec::new();
    let mut k: usize = a;
    while k < z
        invariant
            a <= k <= z <= c@.len(),
            w@ == c@.subrange(a as int, k as int),
        decreases z - k,
    {
        w.push(c[k]);
        proof {
            assert(c@.subrange(a as int, k + 1) =~= c@.subrange(a as int, k as int).push(c@[k as int]));
        }
        k = k + 1;
    }
    let lw = lowercase_chars(&w);
    match lookup_fix(&lw) {
        Some(fix) => {
            let f = finding(
                b,
                "Possible spelling mistake",
                "MISSPELLING",
                "Spelling",
                pa,
                pz - pa,
                fix,
                Severity::Error,
                80,
                ErrorType::Spelling,
            );
            let ghost m = token_models(c@, s as int, e as int)[0];
            assert(done + token_models(c@, s as int, e as int) =~= done.push(m));
            r.push(f);
        },
        None => {
            assert(done + token_models(c@, s as int, e as int) =~= done);
        },
    }
}

fn spelling_findings(c: &Vec<char>, b: &Vec<u8>) -> (r: Vec<GrammarError>)
    requires
        scan_ready(c@, b@),
    ensures
        all_model(b@, r@, spelling_models_from(c@, 0, 0)),
{
    let mut r: Vec<GrammarError> = Vec::new();
    let ghost done: Seq<FindingModel> = Seq::empty();
    let mut s: usize = 0;
    let mut s_pos: usize = 0;
    let mut i: usize = 0;
    let mut pos: usize = 0;
    proof {
        lemma_byte_pos_zero(c@);
    }
    while i < c.len()
        invariant
            s <= i <= c@.len(),
            scan_ready(c@, b@),
            pos == byte_pos(c@, i as int),
            s_pos == byte_pos(c@, s as int),
            all_model(b@, r@, done),
            done + spelling_models_from(c@, i as int, s as int) == spelling_models_from(c@, 0, 0),
        decreases c@.len() - i,
    {
        proof {
            lemma_byte_pos_step(c@, i as int);
        }
        let next = pos + width(c[i]);
        if white_space(c[i]) {
            let ghost t = token_models(c@, s as int, i as int);
            token_findings(c, b, s, i, s_pos, pos, &mut r, Ghost(done));
            proof {
                assert(done + spelling_models_from(c@, i as int, s as int) =~= (done + t)
                    + spelling_models_from(c@, i + 1, i + 1));
                done = done + t;
            }
            s = i + 1;
            s_pos = next;
        }
        pos = next;
        i = i + 1;
    }
    let ghost t = token_models(c@, s as int, c@.len() as int);
    token_findings(c, b, s, c.len(), s_pos, pos, &mut r, Ghost(done));
    proof {
        assert(done + spelling_models_from(c@, i as int, s as int) =~= done + t);
    }
    r
}

fn append_findings(
    dst: &mut Vec<GrammarError>,
    src: Vec<GrammarError>,
    Ghost(b): Ghost<Seq<u8>>,
    Ghost(dm): Ghost<Seq<FindingModel>>,
    Ghost(sm): Ghost<Seq<FindingModel>>,
)
    requires
        all_model(b, old(dst)@, dm),
        all_model(b, src@, sm),
    ensures
        all_model(b, final(dst)@, dm + sm),
{
    let mut src = src;
    let ghost s0 = src@;
    let ghost d0 = dst@;
    dst.append(&mut src);
    assert(dst@ =~= d0 + s0);
    assert forall|k: int| 0 <= k < dst@.len() implies models(b, #[trigger] dst@[k], (dm + sm)[k]) by {
        if k < d0.len() {
            assert(dst@[k] == d0[k]);
        } else {
            assert(dst@[k] == s0[k - d0.len()]);
        }
    }
}

/// Scans `text` for the mechanical issues: the first run of two spaces, each
/// lower-case letter that opens a sentence after the first, the first space
/// before each punctuation mark, and each misspelt word of the table.
pub fn check_basic_patterns(text: &str) -> (r: Vec<GrammarError>)
    ensures
        all_model(utf8_of(text@), r@, pattern_models(text@)),
{
    let c = chars_of(text);
    let b = bytes_of(text);
    proof {
        vstd::utf8::encode_utf8_valid_utf8(text@);
    }
    let ghost bv = b@;
    let byte_count = b.len();
    assert(byte_count == bv.len());
    assert(scan_ready(c@, b@));
    let mut r = double_space_findings(&c, &b);
    append_findings(&mut r, capital_findings(&c, &b), Ghost(bv), Ghost(double_space_models(c@)), Ghost(capital_models_from(c@, 0, false)));
    append_findings(
        &mut r,
        punctuation_findings(&c, &b),
        Ghost(bv),
        Ghost(double_space_models(c@) + capital_models_from(c@, 0, false)),
        Ghost(punctuation_models_from(c@, punctuation_marks(), 0)),
    );
    append_findings(
        &mut r,
        spelling_findings(&c, &b),
        Ghost(bv),
        Ghost(double_space_models(c@) + capital_models_from(c@, 0, false) + punctuation_models_from(c@, punctuation_marks(), 0)),
        Ghost(spelling_models_from(c@, 0, 0)),
    );
    r
}

} // verus!
