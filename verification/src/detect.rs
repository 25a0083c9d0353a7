//! The mismatch detector: a whole-string heuristic for text typed with the
//! wrong layout.  Text that already contains a character of the native
//! alphabet is exempt; otherwise the text is split on whitespace and the
//! fraction of tokens that, after remapping and punctuation stripping, are
//! vocabulary words is reported.

use crate::layout::{default_layout, default_layout_map, remap_seq, LayoutMap, LayoutMapView};
use crate::text::{contains_char, str_to_chars, word_views};
use crate::vocab::Vocabulary;
use vstd::prelude::*;

verus! {

/// The Unicode whitespace characters, as `str::split_whitespace` sees them.
pub open spec fn is_space(c: char) -> bool {
    ||| c == ' '
    ||| c == '\t'
    ||| c == '\n'
    ||| c == '\r'
    ||| c == '\u{000b}'
    ||| c == '\u{000c}'
    ||| c == '\u{0085}'
    ||| c == '\u{00a0}'
    ||| c == '\u{1680}'
    ||| c == '\u{2000}'
    ||| c == '\u{2001}'
    ||| c == '\u{2002}'
    ||| c == '\u{2003}'
    ||| c == '\u{2004}'
    ||| c == '\u{2005}'
    ||| c == '\u{2006}'
    ||| c == '\u{2007}'
    ||| c == '\u{2008}'
    ||| c == '\u{2009}'
    ||| c == '\u{200a}'
    ||| c == '\u{2028}'
    ||| c == '\u{2029}'
    ||| c == '\u{202f}'
    ||| c == '\u{205f}'
    ||| c == '\u{3000}'
}

/// Whitespace test on one character.
pub fn is_space_char(c: char) -> (r: bool)
    ensures
        r == is_space(c),
{
    c == ' ' || c == '\t' || c == '\n' || c == '\r' || c == '\u{000b}' || c == '\u{000c}' || c
        == '\u{0085}' || c == '\u{00a0}' || c == '\u{1680}' || c == '\u{2000}' || c == '\u{2001}'
        || c == '\u{2002}' || c == '\u{2003}' || c == '\u{2004}' || c == '\u{2005}' || c
        == '\u{2006}' || c == '\u{2007}' || c == '\u{2008}' || c == '\u{2009}' || c == '\u{200a}'
        || c == '\u{2028}' || c == '\u{2029}' || c == '\u{202f}' || c == '\u{205f}' || c
        == '\u{3000}'
}

/// Length of the maximal non-whitespace prefix.
pub open spec fn token_len(s: Seq<char>) -> int
    decreases s.len(),
{
    if s.len() == 0 || is_space(s[0]) {
        0
    } else {
        1 + token_len(s.skip(1))
    }
}

pub proof fn lemma_token_len_bounds(s: Seq<char>)
    ensures
        0 <= token_len(s) <= s.len(),
    decreases s.len(),
{
    if !(s.len() == 0 || is_space(s[0])) {
        lemma_token_len_bounds(s.skip(1));
    }
}

/// The prefix of length `token_len` is the unique maximal run of
/// non-whitespace characters at the front.
pub proof fn lemma_token_len_is(s: Seq<char>, k: int)
    requires
        0 <= k <= s.len(),
        forall|j: int| 0 <= j < k ==> !is_space(s[j]),
        k == s.len() || is_space(s[k]),
    ensures
        token_len(s) == k,
    decreases s.len(),
{
    if s.len() == 0 {
    } else if is_space(s[0]) {
        assert(k == 0);
    } else {
        assert(k >= 1);
        assert(forall|j: int| 0 <= j < s.skip(1).len() ==> s.skip(1)[j] == s[j + 1]);
        lemma_token_len_is(s.skip(1), k - 1);
    }
}

/// The whitespace-separated tokens of a character sequence: the maximal runs
/// of non-whitespace characters, in order.  Empty text has no tokens.
pub open spec fn tokens_of(s: Seq<char>) -> Seq<Seq<char>>
    decreases s.len(),
    via tokens_of_dec
{
    if s.len() == 0 {
        Seq::empty()
    } else if is_space(s[0]) {
        tokens_of(s.skip(1))
    } else {
        seq![s.take(token_len(s))] + tokens_of(s.skip(token_len(s)))
    }
}

#[via_fn]
proof fn tokens_of_dec(s: Seq<char>) {
    lemma_token_len_bounds(s);
    if s.len() > 0 && !is_space(s[0]) {
        lemma_token_len_bounds(s.skip(1));
        assert(token_len(s) >= 1);
    }
}

/// Law: text that is all whitespace has no tokens.
pub proof fn lemma_tokens_all_space(s: Seq<char>)
    requires
        forall|i: int| 0 <= i < s.len() ==> is_space(s[i]),
    ensures
        tokens_of(s) == Seq::<Seq<char>>::empty(),
    decreases s.len(),
{
    if s.len() > 0 {
        assert(is_space(s[0]));
        assert(forall|j: int| 0 <= j < s.skip(1).len() ==> s.skip(1)[j] == s[j + 1]);
        lemma_tokens_all_space(s.skip(1));
    }
}

/// Splits text into its whitespace-separated tokens.
pub fn split_tokens(text: &Vec<char>) -> (r: Vec<Vec<char>>)
    ensures
        word_views(r@) == tokens_of(text@),
{
    let s = text;
    let mut r: Vec<Vec<char>> = Vec::new();
    let mut i: usize = 0;
    proof {
        assert(word_views(r@) =~= Seq::<Seq<char>>::empty());
        assert(s@.skip(0) =~= s@);
        assert(word_views(r@) + tokens_of(s@) =~= tokens_of(s@));
    }
    while i < s.len()
        invariant
            i <= s@.len(),
            word_views(r@) + tokens_of(s@.skip(i as int)) =~= tokens_of(s@),
        decreases s@.len() - i,
    {
        if is_space_char(s[i]) {
            proof {
                assert(s@.skip(i as int)[0] == s@[i as int]);
                assert(s@.skip(i as int).skip(1) =~= s@.skip(i + 1));
            }
            i += 1;
        } else {
            let start: usize = i;
            let mut tok: Vec<char> = Vec::new();
            while i < s.len() && !is_space_char(s[i])
                invariant
                    start <= i <= s@.len(),
                    start < s@.len(),
                    !is_space(s@[start as int]),
                    forall|j: int| start <= j < i ==> !is_space(s@[j]),
                    tok@ =~= s@.subrange(start as int, i as int),
                decreases s@.len() - i,
            {
                tok.push(s[i]);
                proof {
                    assert(tok@ =~= s@.subrange(start as int, i + 1));
                }
                i += 1;
            }
            proof {
                let rest = s@.skip(start as int);
                let k = i - start;
                assert(forall|j: int| 0 <= j < rest.len() ==> rest[j] == s@[start + j]);
                lemma_token_len_is(rest, k);
                assert(!is_space(rest[0]));
                assert(tok@ =~= rest.take(k));
                assert(rest.skip(k) =~= s@.skip(i as int));
                assert(tokens_of(rest) == seq![rest.take(k)] + tokens_of(rest.skip(k)));
                let ghost old_r = r@;
                assert(word_views(old_r.push(tok)) =~= word_views(old_r).push(tok@));
            }
            r.push(tok);
            proof {
                assert(word_views(r@) + tokens_of(s@.skip(i as int)) =~= tokens_of(s@));
            }
        }
    }
    proof {
        assert(s@.skip(s@.len() as int) =~= Seq::<char>::empty());
        assert(word_views(r@) + tokens_of(s@.skip(s@.len() as int)) =~= word_views(r@));
    }
    r
}

/// What remains of a token after the punctuation characters are removed.
pub open spec fn strip_spec(punct: Seq<char>, s: Seq<char>) -> Seq<char>
    decreases s.len(),
{
    if s.len() == 0 {
        Seq::empty()
    } else if punct.contains(s.last()) {
        strip_spec(punct, s.drop_last())
    } else {
        strip_spec(punct, s.drop_last()).push(s.last())
    }
}

/// Removes every character of the punctuation set from a token.
pub fn strip_punct(punct: &Vec<char>, s: &Vec<char>) -> (r: Vec<char>)
    ensures
        r@ == strip_spec(punct@, s@),
{
    let mut r: Vec<char> = Vec::new();
    let mut i: usize = 0;
    while i < s.len()
        invariant
            i <= s@.len(),
            r@ == strip_spec(punct@, s@.take(i as int)),
        decreases s@.len() - i,
    {
        proof {
            assert(s@.take(i + 1).drop_last() =~= s@.take(i as int));
            assert(s@.take(i + 1).last() == s@[i as int]);
        }
        if !contains_char(punct, s[i]) {
            r.push(s[i]);
        }
        i += 1;
    }
    proof {
        assert(s@.take(s@.len() as int) =~= s@);
    }
    r
}

/// The detector's verdict on one string: exempt because native-alphabet
/// characters are present, or the matched and total token counts of the
/// heuristic ratio.
#[derive(Clone, Copy, Debug, PartialEq, Eq, Structural)]
pub enum Score {
    Exempt,
    Ratio { matched: usize, total: usize },
}

/// Whether the ratio behind a score strictly exceeds the threshold
/// `num / den`.  An exempt score never exceeds; with no tokens the ratio
/// counts as zero.
pub open spec fn score_exceeds(sc: Score, num: u32, den: u32) -> bool {
    match sc {
        Score::Exempt => false,
        Score::Ratio { matched, total } => (matched as int) * (den as int) > (num as int) * (
        total as int),
    }
}

impl Score {
    /// Strict comparison of the ratio against the threshold `num / den`.
    pub fn exceeds(&self, num: u32, den: u32) -> (r: bool)
        ensures
            r == score_exceeds(*self, num, den),
    {
        match self {
            Score::Exempt => false,
            Score::Ratio { matched, total } => {
                let m: u128 = *matched as u128;
                let t: u128 = *total as u128;
                let d: u128 = den as u128;
                let n: u128 = num as u128;
                proof {
                    assert((m as int) * (d as int) <= 0xffff_ffff_ffff_ffff * 0xffff_ffff)
                        by (nonlinear_arith)
                        requires
                            0 <= m <= 0xffff_ffff_ffff_ffff,
                            0 <= d <= 0xffff_ffff,
                    ;
                    assert((n as int) * (t as int) <= 0xffff_ffff * 0xffff_ffff_ffff_ffff)
                        by (nonlinear_arith)
                        requires
                            0 <= t <= 0xffff_ffff_ffff_ffff,
                            0 <= n <= 0xffff_ffff,
                    ;
                }
                m * d > n * t
            },
        }
    }
}

/// Ghost form of a detector configuration.
pub struct ConfigView {
    pub layout: LayoutMapView,
    pub native: Seq<char>,
    pub punctuation: Seq<char>,
    pub vocabulary: Set<Seq<char>>,
    pub threshold_num: u32,
    pub threshold_den: u32,
}

/// Everything the detector is configured with: the substitution table, the
/// native alphabet whose presence exempts a string, the punctuation set
/// stripped from tokens, the vocabulary, and the dispatch threshold as an
/// exact fraction.  The native alphabet and the vocabulary are configured
/// independently and are never derived from one another.
pub struct DetectorConfig {
    pub layout: LayoutMap,
    pub native: Vec<char>,
    pub punctuation: Vec<char>,
    pub vocabulary: Vocabulary,
    pub threshold_num: u32,
    pub threshold_den: u32,
}

impl View for DetectorConfig {
    type V = ConfigView;

    open spec fn view(&self) -> ConfigView {
        ConfigView {
            layout: self.layout@,
            native: self.native@,
            punctuation: self.punctuation@,
            vocabulary: self.vocabulary@,
            threshold_num: self.threshold_num,
            threshold_den: self.threshold_den,
        }
    }
}

impl DetectorConfig {
    /// The substitution table is well formed and the threshold fraction has a
    /// nonzero denominator.
    pub open spec fn wf(&self) -> bool {
        self.layout.wf() && self.threshold_den > 0
    }

    /// Whether the configuration is well formed.
    pub fn is_wf(&self) -> (r: bool)
        ensures
            r == self.wf(),
    {
        self.layout.is_wf() && self.threshold_den > 0
    }
}

/// Whether one token counts as matched: remapped, stripped of punctuation,
/// and then found verbatim in the vocabulary.
pub open spec fn token_matches(cfg: ConfigView, token: Seq<char>) -> bool {
    cfg.vocabulary.contains(strip_spec(cfg.punctuation, remap_seq(cfg.layout, token)))
}

/// How many of the tokens count as matched.
pub open spec fn count_matched(cfg: ConfigView, toks: Seq<Seq<char>>) -> int
    decreases toks.len(),
{
    if toks.len() == 0 {
        0
    } else {
        count_matched(cfg, toks.drop_last()) + if token_matches(cfg, toks.last()) {
            1int
        } else {
            0int
        }
    }
}

pub proof fn lemma_count_matched_bounds(cfg: ConfigView, toks: Seq<Seq<char>>)
    ensures
        0 <= count_matched(cfg, toks) <= toks.len(),
    decreases toks.len(),
{
    if toks.len() > 0 {
        lemma_count_matched_bounds(cfg, toks.drop_last());
    }
}

/// Whether the text contains a character of the native alphabet anywhere.
pub open spec fn has_native(cfg: ConfigView, s: Seq<char>) -> bool {
    exists|i: int| 0 <= i < s.len() && cfg.native.contains(s[i])
}

/// The detector's verdict on a string: exempt as soon as any native-alphabet
/// character occurs, else the matched and total token counts.
pub open spec fn spec_score(cfg: ConfigView, s: Seq<char>) -> Score {
    if has_native(cfg, s) {
        Score::Exempt
    } else {
        Score::Ratio {
            matched: count_matched(cfg, tokens_of(s)) as usize,
            total: tokens_of(s).len() as usize,
        }
    }
}

/// Normalizes one token (remap, strip punctuation) and tests vocabulary
/// membership.
pub fn is_token_match(cfg: &DetectorConfig, token: &Vec<char>) -> (r: bool)
    requires
        cfg.wf(),
    ensures
        r == token_matches(cfg@, token@),
{
    let remapped = cfg.layout.remap(token);
    let stripped = strip_punct(&cfg.punctuation, &remapped);
    cfg.vocabulary.is_known(&stripped)
}

/// Scores one string.  Any native-alphabet character exempts the whole
/// string immediately; otherwise the string is split on whitespace and each
/// token is normalized and looked up, giving the matched/total ratio.  A
/// string without tokens scores zero over zero, not an error.
pub fn score(cfg: &DetectorConfig, text: &Vec<char>) -> (r: Score)
    requires
        cfg.wf(),
    ensures
        r == spec_score(cfg@, text@),
        (r is Exempt) <==> has_native(cfg@, text@),
{
    let mut i: usize = 0;
    while i < text.len()
        invariant
            cfg.wf(),
            i <= text@.len(),
            forall|j: int| 0 <= j < i ==> !cfg@.native.contains(text@[j]),
        decreases text@.len() - i,
    {
        if contains_char(&cfg.native, text[i]) {
            proof {
                assert(has_native(cfg@, text@)) by {
                    assert(cfg@.native.contains(text@[i as int]));
                }
            }
            return Score::Exempt;
        }
        i += 1;
    }
    proof {
        if has_native(cfg@, text@) {
            let k = choose|k: int| 0 <= k < text@.len() && cfg@.native.contains(text@[k]);
            assert(false);
        }
    }
    let toks = split_tokens(text);
    let ghost tv = word_views(toks@);
    let mut matched: usize = 0;
    let mut k: usize = 0;
    while k < toks.len()
        invariant
            cfg.wf(),
            k <= toks@.len(),
            tv == word_views(toks@),
            matched <= k,
            matched == count_matched(cfg@, tv.take(k as int)),
        decreases toks@.len() - k,
    {
        proof {
            assert(tv.take(k + 1).drop_last() =~= tv.take(k as int));
            assert(tv.take(k + 1).last() == tv[k as int]);
            assert(tv[k as int] == toks@[k as int]@);
        }
        if is_token_match(cfg, &toks[k]) {
            matched += 1;
        }
        k += 1;
    }
    proof {
        assert(tv.take(tv.len() as int) =~= tv);
        lemma_count_matched_bounds(cfg@, tv);
    }
    Score::Ratio { matched, total: toks.len() }
}

/// The native alphabet of the stock configuration: the Cyrillic characters
/// whose presence marks a string as already correctly typed.
pub open spec fn native_alphabet() -> Seq<char> {
    "йцукенгшщзхъфывапролджэячсмитьбю"@
}

/// The punctuation set of the stock configuration.
pub open spec fn punctuation_set() -> Seq<char> {
    "!\"#$%&'()*+,-./:;<=>?@[\\]^_`{|}~"@
}

/// The stock native alphabet as a character vector.
pub fn native_chars() -> (r: Vec<char>)
    ensures
        r@ == native_alphabet(),
{
    str_to_chars("йцукенгшщзхъфывапролджэячсмитьбю")
}

/// The stock punctuation set as a character vector.
pub fn punctuation_chars() -> (r: Vec<char>)
    ensures
        r@ == punctuation_set(),
{
    str_to_chars("!\"#$%&'()*+,-./:;<=>?@[\\]^_`{|}~")
}

/// The stock configuration around a given vocabulary: the stock substitution
/// table and alphabets, and the dispatch threshold of two fifths.
pub fn default_config(vocabulary: Vocabulary) -> (r: DetectorConfig)
    ensures
        r.wf(),
        r@.layout == default_layout(),
        r@.native == native_alphabet(),
        r@.punctuation == punctuation_set(),
        r@.vocabulary == vocabulary@,
        r@.threshold_num == 2,
        r@.threshold_den == 5,
{
    DetectorConfig {
        layout: default_layout_map(),
        native: native_chars(),
        punctuation: punctuation_chars(),
        vocabulary,
        threshold_num: 2,
        threshold_den: 5,
    }
}

/// Law: with a native alphabet that holds no whitespace, every string of
/// whitespace alone (the empty string included) scores zero over zero — not
/// an error, and not the exempt verdict.
pub proof fn lemma_score_blank(cfg: ConfigView, s: Seq<char>)
    requires
        forall|i: int| 0 <= i < s.len() ==> is_space(s[i]),
        forall|c: char| is_space(c) ==> !cfg.native.contains(c),
    ensures
        spec_score(cfg, s) == (Score::Ratio { matched: 0, total: 0 }),
{
    lemma_tokens_all_space(s);
    if has_native(cfg, s) {
        let k = choose|k: int| 0 <= k < s.len() && cfg.native.contains(s[k]);
        assert(false);
    }
}

} // verus!
