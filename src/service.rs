//! The grammar service: checks text through the configured providers, plans
//! and applies corrections, and memoises results.
use vstd::prelude::*;
use crate::finding::{GrammarError, GrammarCheckResult, Edit, same_finding, same_findings, same_result};
use crate::text::{utf8_of, chars_of, is_white_space, white_space};
use crate::patcher::{patched, apply_edits};
use crate::planner::{smart_edits, high_confidence_edits, explicit_edits, plan_smart, plan_high_confidence, plan_explicit};
use crate::patterns::{all_model, pattern_models, check_basic_patterns};
use crate::engine::{GrammarProvider, ProviderError, RawLint, converted, selected, engine_view, convert_lints, select_findings};
use crate::cache::{CacheKey, CacheEntry, ResultCache, key_view, key_index, is_fresh, after_put, lemma_put_then_find};
use crate::stats::{LanguageStats, language_stats, word_count, non_space_from, sentences_from, paragraphs_from, reading_minutes};

verus! {

/// Settings of a service. `auto_apply_threshold` is a percentage in `0..=100`.
#[derive(Debug)]
pub struct GrammarConfig {
    pub provider: GrammarProvider,
    pub language: String,
    pub enable_style_checks: bool,
    pub enable_picky_rules: bool,
    pub offline_fallback: bool,
    pub auto_apply_high_confidence: bool,
    pub auto_apply_threshold: u8,
    pub realtime_checking: bool,
    pub smart_suggestions: bool,
}

/// The default settings: the engine, American English, style checks,
/// fallback to the pattern detector, high-confidence corrections at 90%,
/// real-time checking and smart suggestions.
pub open spec fn is_default_config(c: GrammarConfig) -> bool {
    &&& c.provider == GrammarProvider::Harper
    &&& c.language@ == "en-US"@
    &&& c.enable_style_checks
    &&& !c.enable_picky_rules
    &&& c.offline_fallback
    &&& c.auto_apply_high_confidence
    &&& c.auto_apply_threshold == 90
    &&& c.realtime_checking
    &&& c.smart_suggestions
}

impl Default for GrammarConfig {
    fn default() -> (r: GrammarConfig)
        ensures
            is_default_config(r),
    {
        GrammarConfig {
            provider: GrammarProvider::Harper,
            language: "en-US".to_string(),
            enable_style_checks: true,
            enable_picky_rules: false,
            offline_fallback: true,
            auto_apply_high_confidence: true,
            auto_apply_threshold: 90,
            realtime_checking: true,
            smart_suggestions: true,
        }
    }
}

/// The results of checking several texts.
pub struct BatchGrammarResult {
    pub results: Vec<GrammarCheckResult>,
    /// Milliseconds.
    pub total_processing_time: u64,
    pub batch_size: usize,
}

pub struct GrammarService {
    pub config: GrammarConfig,
    pub cache: ResultCache,
}

/// The index of the first non-whitespace character at or after `i`, or the length.
pub open spec fn lead(c: Seq<char>, i: int) -> int
    decreases c.len() - i,
{
    if i < 0 || i >= c.len() || !is_white_space(c[i]) {
        i
    } else {
        lead(c, i + 1)
    }
}

/// One past the last non-whitespace character of `c[lo..e]`, or `lo`.
pub open spec fn trail(c: Seq<char>, lo: int, e: int) -> int
    decreases e - lo,
{
    if e <= lo || !is_white_space(c[e - 1]) {
        e
    } else {
        trail(c, lo, e - 1)
    }
}

/// `c` without leading and trailing whitespace.
pub open spec fn trimmed(c: Seq<char>) -> Seq<char> {
    let a = lead(c, 0);
    c.subrange(a, trail(c, a, c.len() as int))
}

pub open spec fn is_blank(c: Seq<char>) -> bool {
    trimmed(c).len() == 0
}

/// What a result is memoised under: the trimmed text, the auto-correct flag,
/// and the settings that change the output.
pub open spec fn key_of(cfg: GrammarConfig, text: Seq<char>, auto_correct: bool) -> (Seq<char>, bool, bool, bool) {
    (trimmed(text), auto_correct, cfg.smart_suggestions, cfg.enable_style_checks)
}

pub open spec fn lints_view(l: &Result<Vec<RawLint>, ProviderError>) -> Result<Seq<RawLint>, ProviderError> {
    match l {
        Ok(v) => Ok(v@),
        Err(x) => Err(*x),
    }
}

/// `e` is what the engine's report `lints` becomes over the text bytes `b`.
pub open spec fn engine_findings(
    b: Seq<u8>,
    lints: Result<Seq<RawLint>, ProviderError>,
    e: Result<Seq<GrammarError>, ProviderError>,
) -> bool {
    match lints {
        Ok(ls) => e matches Ok(fs) && fs.len() == ls.len() && forall|k: int|
            0 <= k < fs.len() ==> converted(b, ls[k], #[trigger] fs[k]),
        Err(x) => e == Err::<Seq<GrammarError>, ProviderError>(x),
    }
}

/// The edits an analysis applies: the smart policy when auto-correction is
/// asked for, else the high-confidence policy when configured, else none.
pub open spec fn planned(cfg: GrammarConfig, auto_correct: bool, fs: Seq<GrammarError>) -> Seq<Edit> {
    if auto_correct {
        smart_edits(fs, cfg.smart_suggestions)
    } else if cfg.auto_apply_high_confidence {
        high_confidence_edits(fs, cfg.auto_apply_threshold, cfg.smart_suggestions)
    } else {
        Seq::empty()
    }
}

/// `out` is `text` with `edits` applied: unchanged without edits, otherwise
/// the text whose bytes are the patched bytes.
pub open spec fn corrects(text: Seq<char>, edits: Seq<Edit>, out: Seq<char>) -> bool {
    if edits.len() == 0 {
        out == text
    } else {
        utf8_of(out) == patched(utf8_of(text), edits)
    }
}

/// `r` is a fresh analysis of `text` under `cfg`.
pub open spec fn analysis_ok(
    cfg: GrammarConfig,
    text: Seq<char>,
    auto_correct: bool,
    lints: Result<Seq<RawLint>, ProviderError>,
    r: GrammarCheckResult,
) -> bool {
    &&& r.original_text@ == text
    &&& r.error_count == r.errors@.len()
    &&& exists|p: Seq<GrammarError>, e: Result<Seq<GrammarError>, ProviderError>|
        all_model(utf8_of(text), p, pattern_models(text)) && engine_findings(utf8_of(text), lints, e)
            && #[trigger] same_findings(r.errors@, selected(cfg.provider, cfg.offline_fallback, p, e))
    &&& corrects(text, planned(cfg, auto_correct, r.errors@), r.corrected_text@)
}

/// The result for blank text: no findings, text unchanged, no time.
pub open spec fn trivial_ok(text: Seq<char>, r: GrammarCheckResult) -> bool {
    &&& r.original_text@ == text
    &&& r.corrected_text@ == text
    &&& r.errors@.len() == 0
    &&& r.processing_time == 0
    &&& r.error_count == 0
}

/// What one check does to the service and returns: blank text short-circuits;
/// a valid memoised result is returned as it is; otherwise the text is
/// analysed and the result stored at `now`.
pub open spec fn check_outcome(
    before: GrammarService,
    after: GrammarService,
    text: Seq<char>,
    auto_correct: bool,
    now: u64,
    lints: Result<Seq<RawLint>, ProviderError>,
    r: GrammarCheckResult,
) -> bool {
    let s = before.cache.entries@;
    let k = key_of(before.config, text, auto_correct);
    &&& after.config == before.config
    &&& if is_blank(text) {
        trivial_ok(text, r) && after.cache.entries@ == s
    } else {
        match key_index(s, k) {
            Some(i) if is_fresh(s[i], now) => same_result(r, s[i].result) && after.cache.entries@ == s,
            _ => {
                let base = match key_index(s, k) {
                    Some(i) => s.remove(i),
                    None => s,
                };
                &&& analysis_ok(before.config, text, auto_correct, lints, r)
                &&& exists|e: CacheEntry|
                    key_view(e.key) == k && e.created_at == now && #[trigger] same_result(e.result, r)
                        && after.cache.entries@ == after_put(base, e, now)
            },
        }
    }
}

/// Relies on `SystemTime::now`: the wall-clock time in milliseconds since the
/// Unix epoch (0 for a clock set before it).
#[verifier::external_body]
fn clock_ms() -> (r: u64) {
    std::time::SystemTime::now().duration_since(std::time::UNIX_EPOCH).map(|d| d.as_millis() as u64).unwrap_or(0)
}

/// `c` without leading and trailing whitespace.
pub fn trim_chars(c: &Vec<char>) -> (r: Vec<char>)
    ensures
        r@ == trimmed(c@),
{
    let n = c.len();
    let mut a: usize = 0;
    while a < n && white_space(c[a])
        invariant
            n == c@.len(),
            a <= n,
            lead(c@, 0) == lead(c@, a as int),
        decreases n - a,
    {
        a = a + 1;
    }
    let mut z: usize = n;
    while z > a && white_space(c[z - 1])
        invariant
            n == c@.len(),
            a <= z <= n,
            trail(c@, a as int, n as int) == trail(c@, a as int, z as int),
        decreases z,
    {
        z = z - 1;
    }
    let mut r: Vec<char> = Vec::new();
    let mut k: usize = a;
    while k < z
        invariant
            a <= k <= z <= n == c@.len(),
            r@ == c@.subrange(a as int, k as int),
        decreases z - k,
    {
        r.push(c[k]);
        proof {
            assert(c@.subrange(a as int, k + 1) =~= c@.subrange(a as int, k as int).push(c@[k as int]));
        }
        k = k + 1;
    }
    r
}

/// `text` with `edits` applied.
pub fn correct_text(text: &str, edits: &Vec<Edit>) -> (r: String)
    ensures
        corrects(text@, edits@, r@),
{
    if edits.len() == 0 {
        text.to_string()
    } else {
        apply_edits(text, edits)
    }
}

fn trivial_result(text: &str) -> (r: GrammarCheckResult)
    ensures
        trivial_ok(text@, r),
{
    GrammarCheckResult {
        original_text: text.to_string(),
        corrected_text: text.to_string(),
        errors: Vec::new(),
        processing_time: 0,
        error_count: 0,
    }
}

impl GrammarService {
    /// A service with the default settings.
    pub fn new() -> (r: GrammarService)
        ensures
            is_default_config(r.config),
            r.cache.entries@.len() == 0,
    {
        GrammarService::with_config(GrammarConfig::default())
    }

    pub fn with_config(config: GrammarConfig) -> (r: GrammarService)
        ensures
            r.config == config,
            r.cache.entries@.len() == 0,
    {
        GrammarService { config, cache: ResultCache::new() }
    }

    /// A service with the default settings; the engine runs in process, so
    /// a server address is not used.
    pub fn with_custom_server(_server_url: String) -> (r: GrammarService)
        ensures
            is_default_config(r.config),
            r.cache.entries@.len() == 0,
    {
        GrammarService::new()
    }

    pub fn with_harper_config(config: GrammarConfig) -> (r: GrammarService)
        ensures
            r.config == config,
            r.cache.entries@.len() == 0,
    {
        GrammarService::with_config(config)
    }

    /// Whether a check needs the linguistic engine's report.
    pub fn needs_engine(&self) -> (r: bool)
        ensures
            r == (self.config.provider != GrammarProvider::OfflineRules),
    {
        self.config.provider != GrammarProvider::OfflineRules
    }

    /// The key a check of `text` is memoised under.
    pub fn generate_cache_key(&self, text: &str, auto_correct: bool) -> (r: CacheKey)
        ensures
            key_view(r) == key_of(self.config, text@, auto_correct),
    {
        let c = chars_of(text);
        CacheKey {
            text: trim_chars(&c),
            auto_correct,
            smart_suggestions: self.config.smart_suggestions,
            style_checks: self.config.enable_style_checks,
        }
    }

    fn plan(&self, fs: &Vec<GrammarError>, auto_correct: bool) -> (r: Vec<Edit>)
        ensures
            r@ == planned(self.config, auto_correct, fs@),
    {
        if auto_correct {
            plan_smart(fs, self.config.smart_suggestions)
        } else if self.config.auto_apply_high_confidence {
            plan_high_confidence(fs, self.config.auto_apply_threshold, self.config.smart_suggestions)
        } else {
            Vec::new()
        }
    }

    /// Analyses `text` without the memo: pattern findings and the engine's
    /// report combined per provider, then the corrections of the policy in force.
    pub fn analyze(&self, text: &str, auto_correct: bool, engine: &Result<Vec<RawLint>, ProviderError>) -> (r: GrammarCheckResult)
        ensures
            analysis_ok(self.config, text@, auto_correct, lints_view(engine), r),
            r.processing_time == 0,
    {
        let pattern = check_basic_patterns(text);
        let ghost p = pattern@;
        let converted_report: Result<Vec<GrammarError>, ProviderError> = match engine {
            Ok(ls) => Ok(convert_lints(text, ls)),
            Err(x) => Err(*x),
        };
        let findings = select_findings(
            self.config.provider,
            self.config.offline_fallback,
            pattern,
            &converted_report,
        );
        assert(engine_findings(utf8_of(text@), lints_view(engine), engine_view(&converted_report)));
        let edits = self.plan(&findings, auto_correct);
        let corrected = correct_text(text, &edits);
        let n = findings.len();
        let r = GrammarCheckResult {
            original_text: text.to_string(),
            corrected_text: corrected,
            errors: findings,
            processing_time: 0,
            error_count: n,
        };
        assert(same_findings(r.errors@, selected(self.config.provider, self.config.offline_fallback, p, engine_view(&converted_report))));
        r
    }

    /// What a check of `text` at `now` can answer without any provider: the
    /// empty result for blank text, or a valid memoised result. An expired
    /// memoised result is removed. `None` means the text must be analysed.
    pub fn cached_result(&mut self, text: &str, auto_correct: bool, now: u64) -> (r: Option<GrammarCheckResult>)
        ensures
            final(self).config == old(self).config,
            ({
                let s = old(self).cache.entries@;
                let k = key_of(old(self).config, text@, auto_correct);
                if is_blank(text@) {
                    r matches Some(x) && trivial_ok(text@, x) && final(self).cache.entries@ == s
                } else {
                    match key_index(s, k) {
                        Some(i) => if is_fresh(s[i], now) {
                            r matches Some(x) && same_result(x, s[i].result) && final(self).cache.entries@ == s
                        } else {
                            r is None && final(self).cache.entries@ == s.remove(i)
                        },
                        None => r is None && final(self).cache.entries@ == s,
                    }
                }
            }),
    {
        let key = self.generate_cache_key(text, auto_correct);
        if key.text.len() == 0 {
            return Some(trivial_result(text));
        }
        self.cache.get(&key, now)
    }

    /// Checks `text` at time `now` (milliseconds). Blank text gives an empty
    /// result at once; a valid memoised result is returned as it is; otherwise
    /// the text is analysed with the engine's report `engine`, the analysis is
    /// timed, and the result is memoised.
    pub fn check_text(
        &mut self,
        text: &str,
        auto_correct: bool,
        now: u64,
        engine: &Result<Vec<RawLint>, ProviderError>,
    ) -> (r: GrammarCheckResult)
        ensures
            check_outcome(*old(self), *final(self), text@, auto_correct, now, lints_view(engine), r),
    {
        let key = self.generate_cache_key(text, auto_correct);
        if key.text.len() == 0 {
            return trivial_result(text);
        }
        match self.cache.get(&key, now) {
            Some(hit) => {
                return hit;
            },
            None => {},
        }
        let mut r = self.analyze(text, auto_correct, engine);
        let end = clock_ms();
        r.processing_time = if end >= now {
            end - now
        } else {
            0
        };
        let stored = r.duplicate();
        let ghost e = CacheEntry { key: key, result: stored, created_at: now };
        self.cache.put(key, stored, now);
        assert(same_result(e.result, r));
        r
    }

    /// Applies the first suggestion of each finding whose index is listed, the
    /// findings being those of `check_text(text, false)`. Out-of-range and
    /// repeated indices are ignored; with no index or no finding the text
    /// comes back unchanged.
    pub fn apply_specific_corrections(
        &mut self,
        text: &str,
        error_indices: &Vec<usize>,
        now: u64,
        engine: &Result<Vec<RawLint>, ProviderError>,
    ) -> (r: String)
        ensures
            exists|res: GrammarCheckResult|
                #[trigger] check_outcome(*old(self), *final(self), text@, false, now, lints_view(engine), res)
                    && corrects(text@, explicit_edits(res.errors@, error_indices@), r@),
    {
        let res = self.check_text(text, false, now, engine);
        let edits = plan_explicit(&res.errors, error_indices);
        correct_text(text, &edits)
    }

    /// Checks each text in turn; `engines[k]` is the engine's report on
    /// `texts[k]`. Each check sees the memo as the checks before it left it.
    pub fn check_batch(
        &mut self,
        texts: &Vec<String>,
        auto_correct: bool,
        now: u64,
        engines: &Vec<Result<Vec<RawLint>, ProviderError>>,
    ) -> (r: BatchGrammarResult)
        requires
            engines@.len() == texts@.len(),
        ensures
            r.batch_size == texts@.len(),
            r.results@.len() == texts@.len(),
            exists|st: Seq<GrammarService>|
                st.len() == texts@.len() + 1 && st[0] == *old(self) && st.last() == *final(self)
                    && forall|k: int|
                    0 <= k < texts@.len() ==> check_outcome(
                        st[k],
                        st[k + 1],
                        texts@[k]@,
                        auto_correct,
                        now,
                        lints_view(&engines@[k]),
                        #[trigger] r.results@[k],
                    ),
    {
        let mut results: Vec<GrammarCheckResult> = Vec::new();
        let ghost st: Seq<GrammarService> = seq![*self];
        let mut total: u64 = 0;
        let mut i: usize = 0;
        while i < texts.len()
            invariant
                i <= texts@.len() == engines@.len(),
                results@.len() == i,
                st.len() == i + 1,
                st[0] == *old(self),
                st.last() == *self,
                forall|k: int|
                    0 <= k < i ==> check_outcome(
                        st[k],
                        st[k + 1],
                        texts@[k]@,
                        auto_correct,
                        now,
                        lints_view(&engines@[k]),
                        #[trigger] results@[k],
                    ),
            decreases texts@.len() - i,
        {
            let r = self.check_text(texts[i].as_str(), auto_correct, now, &engines[i]);
            proof {
                st = st.push(*self);
            }
            total = if total <= u64::MAX - r.processing_time {
                total + r.processing_time
            } else {
                u64::MAX
            };
            results.push(r);
            i = i + 1;
        }
        let n = results.len();
        BatchGrammarResult { results, total_processing_time: total, batch_size: n }
    }

    /// Forgets every memoised result.
    pub fn clear_caches(&mut self)
        ensures
            final(self).cache.entries@.len() == 0,
            final(self).config == old(self).config,
    {
        self.cache.clear();
    }

    /// Counts of `text`; see `language_stats`.
    pub fn get_language_stats(&self, text: &str) -> (r: LanguageStats)
        ensures
            r.words == word_count(text@),
            r.characters == text@.len(),
            r.characters_no_spaces == non_space_from(text@, 0),
            r.sentences == sentences_from(text@, 0, false),
            r.paragraphs == paragraphs_from(text@, 0, false),
            r.reading_time_minutes == reading_minutes(r.words as int),
    {
        language_stats(text)
    }
}

proof fn lemma_same_result_link(a: GrammarCheckResult, b: GrammarCheckResult, c: GrammarCheckResult)
    requires
        same_result(a, c),
        same_result(b, c),
    ensures
        same_result(a, b),
{
    assert forall|k: int| 0 <= k < a.errors@.len() implies same_finding(
        #[trigger] a.errors@[k],
        b.errors@[k],
    ) by {
        assert(same_finding(a.errors@[k], c.errors@[k]));
        assert(same_finding(b.errors@[k], c.errors@[k]));
        assert forall|j: int| 0 <= j < a.errors@[k].suggestions@.len() implies #[trigger] a.errors@[k].suggestions@[j]@
            == b.errors@[k].suggestions@[j]@ by {
            assert(a.errors@[k].suggestions@[j]@ == c.errors@[k].suggestions@[j]@);
            assert(b.errors@[k].suggestions@[j]@ == c.errors@[k].suggestions@[j]@);
        }
    }
}

/// Idempotence: two checks of the same text with the same settings, one
/// right after the other, return equal results; the second is served from
/// the memo whatever the engine reports.
pub proof fn lemma_check_idempotent(
    before: GrammarService,
    mid: GrammarService,
    after: GrammarService,
    text: Seq<char>,
    auto_correct: bool,
    now: u64,
    first_lints: Result<Seq<RawLint>, ProviderError>,
    second_lints: Result<Seq<RawLint>, ProviderError>,
    r1: GrammarCheckResult,
    r2: GrammarCheckResult,
)
    requires
        check_outcome(before, mid, text, auto_correct, now, first_lints, r1),
        check_outcome(mid, after, text, auto_correct, now, second_lints, r2),
    ensures
        same_result(r1, r2),
{
    if is_blank(text) {
        assert(same_findings(r1.errors@, r2.errors@));
    } else {
        let s = before.cache.entries@;
        let k = key_of(before.config, text, auto_correct);
        match key_index(s, k) {
            Some(i) if is_fresh(s[i], now) => {
                lemma_same_result_link(r1, r2, s[i].result);
            },
            _ => {
                let base = match key_index(s, k) {
                    Some(i) => s.remove(i),
                    None => s,
                };
                let e = choose|e: CacheEntry|
                    key_view(e.key) == k && e.created_at == now && #[trigger] same_result(e.result, r1)
                        && mid.cache.entries@ == after_put(base, e, now);
                lemma_put_then_find(base, e, now);
                let m = mid.cache.entries@;
                assert(m[m.len() - 1] == e);
                lemma_same_result_link(r1, r2, e.result);
            },
        }
    }
}

/// Changing a setting that does not affect the output, such as the language
/// label, leaves the memo key of every text unchanged, so a check finds the
/// same memoised entry.
pub proof fn lemma_key_ignores_language(
    c1: GrammarConfig,
    c2: GrammarConfig,
    text: Seq<char>,
    auto_correct: bool,
    s: Seq<CacheEntry>,
)
    requires
        c1.smart_suggestions == c2.smart_suggestions,
        c1.enable_style_checks == c2.enable_style_checks,
    ensures
        key_of(c1, text, auto_correct) == key_of(c2, text, auto_correct),
        key_index(s, key_of(c1, text, auto_correct)) == key_index(s, key_of(c2, text, auto_correct)),
{
}

} // verus!
