//! The catalog builder: turns discovered dictionary bundles into the
//! immutable in-memory catalog of playable languages.

use vstd::prelude::*;
use vstd::string::StrSliceExecFns;
use vstd::utf8::encode_utf8;
use crate::alias::alias_lookup;
use crate::alias::alias_spec;
use crate::text::char_prefix;
use crate::text::is_alpha;
use crate::text::lower_of;
use crate::text::lowercase;
use crate::text::alphabetic;
use crate::text::prefix_before;
use crate::text::str_eq;

verus! {

/// How many words one round of the game shows.
pub const WORDS_PER_ROUND: usize = 10;

/// The least byte length a dictionary word must have to qualify.
pub const MIN_WORD_LEN: usize = 3;

/// A discovery record: one corpus directory that holds a dictionary file,
/// together with that file's lines.
pub struct RawBundle {
    /// The directory name, lowercased.
    pub code: String,
    /// The code, truncated at its first underscore.
    pub base: String,
    /// The lines of the directory's dictionary file.
    pub lines: Vec<String>,
}

/// The mathematical shape of a `RawBundle`.
pub ghost struct RawBundleView {
    pub code: Seq<char>,
    pub base: Seq<char>,
    pub lines: Seq<Seq<char>>,
}

impl View for RawBundle {
    type V = RawBundleView;

    open spec fn view(&self) -> RawBundleView {
        RawBundleView { code: self.code@, base: self.base@, lines: self.lines.deep_view() }
    }
}

impl DeepView for RawBundle {
    type V = RawBundleView;

    open spec fn deep_view(&self) -> RawBundleView {
        self.view()
    }
}

impl RawBundle {
    /// Derives a bundle from a corpus directory's name and the lines of the
    /// dictionary file found inside it: the code is the lowercased name, the
    /// base is the code up to its first underscore.
    pub fn from_dir(dir_name: &str, lines: Vec<String>) -> (r: RawBundle)
        ensures
            r@.code == lower_of(dir_name@),
            r@.base == prefix_before(lower_of(dir_name@), '_'),
            r@.lines == lines.deep_view(),
    {
        let code = lowercase(dir_name);
        let base = char_prefix(code.as_str(), '_');
        RawBundle { code, base, lines }
    }
}

/// One playable language of the catalog.
#[derive(Clone)]
pub struct LanguageData {
    /// Normalized bundle identifier.
    pub code: String,
    /// The code with any regional suffix stripped.
    pub base: String,
    /// Human-readable language name.
    pub name: String,
    /// All qualifying words, in file order.
    pub words: Vec<String>,
    /// The lowercase guesses accepted for this language.
    pub valid_answers: Vec<String>,
}

/// The mathematical shape of a `LanguageData`.
pub ghost struct LanguageDataView {
    pub code: Seq<char>,
    pub base: Seq<char>,
    pub name: Seq<char>,
    pub words: Seq<Seq<char>>,
    pub valid_answers: Seq<Seq<char>>,
}

impl View for LanguageData {
    type V = LanguageDataView;

    open spec fn view(&self) -> LanguageDataView {
        LanguageDataView {
            code: self.code@,
            base: self.base@,
            name: self.name@,
            words: self.words.deep_view(),
            valid_answers: self.valid_answers.deep_view(),
        }
    }
}

impl DeepView for LanguageData {
    type V = LanguageDataView;

    open spec fn deep_view(&self) -> LanguageDataView {
        self.view()
    }
}

/// The candidate word a dictionary line yields: everything before the first
/// slash, which starts the line's morphological metadata.
pub open spec fn word_of_line(line: Seq<char>) -> Seq<char> {
    prefix_before(line, '/')
}

/// Whether a candidate word qualifies: at least `MIN_WORD_LEN` bytes, every
/// character alphabetic.
pub open spec fn word_ok(w: Seq<char>) -> bool {
    &&& (encode_utf8(w).len() as usize) >= MIN_WORD_LEN
    &&& forall|i: int| 0 <= i < w.len() ==> is_alpha(w[i])
}

/// The qualifying words of a dictionary file's lines, in file order.
pub open spec fn clean_words(lines: Seq<Seq<char>>) -> Seq<Seq<char>>
    decreases lines.len(),
{
    if lines.len() == 0 {
        Seq::empty()
    } else {
        let rest = clean_words(lines.drop_last());
        let w = word_of_line(lines.last());
        if word_ok(w) {
            rest.push(w)
        } else {
            rest
        }
    }
}

/// Every word the cleaning step keeps qualifies.
pub proof fn lemma_clean_words_ok(lines: Seq<Seq<char>>)
    ensures
        forall|i: int| 0 <= i < clean_words(lines).len() ==> word_ok(#[trigger] clean_words(lines)[i]),
    decreases lines.len(),
{
    if lines.len() > 0 {
        lemma_clean_words_ok(lines.drop_last());
        let c = clean_words(lines);
        let rest = clean_words(lines.drop_last());
        let w = word_of_line(lines.last());
        assert forall|i: int| 0 <= i < c.len() implies word_ok(c[i]) by {
            if word_ok(w) {
                assert(c == rest.push(w));
                if i < rest.len() {
                    assert(c[i] == rest[i]);
                } else {
                    assert(c[i] == w);
                }
            } else {
                assert(c == rest);
            }
        }
    }
}

/// Whether this word qualifies for a dictionary.
fn is_valid_word(w: &str) -> (r: bool)
    ensures
        r == word_ok(w@),
{
    if w.len() < MIN_WORD_LEN {
        return false;
    }
    let n = w.unicode_len();
    let mut i: usize = 0;
    while i < n
        invariant
            n == w@.len(),
            i <= n,
            (encode_utf8(w@).len() as usize) >= MIN_WORD_LEN,
            forall|j: int| 0 <= j < i ==> is_alpha(w@[j]),
        decreases n - i,
    {
        if !alphabetic(w.get_char(i)) {
            return false;
        }
        i += 1;
    }
    true
}

/// Reads the qualifying words out of a dictionary file's lines: each line is
/// cut at its first slash, and what remains is kept when it qualifies.
pub fn load_dictionary(lines: &Vec<String>) -> (r: Vec<String>)
    ensures
        r.deep_view() == clean_words(lines.deep_view()),
{
    let mut out: Vec<String> = Vec::new();
    let mut i: usize = 0;
    while i < lines.len()
        invariant
            i <= lines.len(),
            out.deep_view() == clean_words(lines.deep_view().take(i as int)),
        decreases lines.len() - i,
    {
        let ghost prev = lines.deep_view().take(i as int);
        let w = char_prefix(lines[i].as_str(), '/');
        if is_valid_word(w.as_str()) {
            out.push(w);
        }
        proof {
            let cur = lines.deep_view().take(i + 1 as int);
            assert(cur.drop_last() =~= prev);
            assert(cur.last() == lines.deep_view()[i as int]);
        }
        i += 1;
    }
    proof {
        assert(lines.deep_view().take(lines.len() as int) =~= lines.deep_view());
    }
    out
}

/// The set of accepted guesses built from a code and a display name: the
/// lowercased code, its part before any underscore, and the lowercased name,
/// kept in that order with duplicates collapsed.
pub open spec fn valid_answers_spec(code: Seq<char>, name: Seq<char>) -> Seq<Seq<char>> {
    let lc = lower_of(code);
    let base = prefix_before(lc, '_');
    let lname = lower_of(name);
    let with_base = if base == lc {
        seq![lc]
    } else {
        seq![lc, base]
    };
    if with_base.contains(lname) {
        with_base
    } else {
        with_base.push(lname)
    }
}

/// The accepted guesses always include the lowercased display name.
pub proof fn lemma_valid_answers_contains(code: Seq<char>, name: Seq<char>)
    ensures
        valid_answers_spec(code, name).contains(lower_of(name)),
{
    let lc = lower_of(code);
    let base = prefix_before(lc, '_');
    let lname = lower_of(name);
    let with_base = if base == lc {
        seq![lc]
    } else {
        seq![lc, base]
    };
    let s = valid_answers_spec(code, name);
    if with_base.contains(lname) {
        assert(s == with_base);
    } else {
        assert(s == with_base.push(lname));
        assert(s[s.len() - 1] == lname);
    }
}

/// Builds the accepted guesses for a language: the lowercase code, its part
/// before any underscore, and the lowercase display name, without duplicates.
pub fn build_valid_answers(code: &str, name: &str) -> (r: Vec<String>)
    ensures
        r.deep_view() == valid_answers_spec(code@, name@),
        r.deep_view().contains(lower_of(name@)),
        r.deep_view().no_duplicates(),
{
    let lc = lowercase(code);
    let base = char_prefix(lc.as_str(), '_');
    let lname = lowercase(name);
    let mut out: Vec<String> = Vec::new();
    let has_base = !str_eq(base.as_str(), lc.as_str());
    let lname_new = !str_eq(lname.as_str(), lc.as_str()) && (!has_base || !str_eq(
        lname.as_str(),
        base.as_str(),
    ));
    out.push(lc);
    if has_base {
        out.push(base);
    }
    if lname_new {
        out.push(lname);
    }
    proof {
        let lc_ = lower_of(code@);
        let base_ = prefix_before(lc_, '_');
        let lname_ = lower_of(name@);
        let with_base = if base_ == lc_ {
            seq![lc_]
        } else {
            seq![lc_, base_]
        };
        if lname_new {
            assert(!with_base.contains(lname_)) by {
                assert(with_base[0] == lc_);
                if base_ != lc_ {
                    assert(with_base[1] == base_);
                }
                assert(forall|k: int|
                    0 <= k < with_base.len() ==> #[trigger] with_base[k] != lname_);
            }
        } else {
            assert(with_base.contains(lname_)) by {
                if lname_ == lc_ {
                    assert(with_base[0] == lname_);
                } else {
                    assert(base_ != lc_ && lname_ == base_);
                    assert(with_base[1] == lname_);
                }
            }
        }
        assert(out.deep_view() =~= valid_answers_spec(code@, name@));
        lemma_valid_answers_contains(code@, name@);
        assert(out.deep_view().no_duplicates());
    }
    out
}

/// The display name a bundle resolves to: the alias entry for its code,
/// or failing that for its base.
pub open spec fn resolve_name(code: Seq<char>, base: Seq<char>) -> Option<Seq<char>> {
    if alias_spec(code) is Some {
        alias_spec(code)
    } else {
        alias_spec(base)
    }
}

/// The catalog entry a bundle yields, if any. A bundle is dropped when its
/// code and base both miss the alias table, when it has too few qualifying
/// words for one round, or when a further lowercasing would alter its code —
/// such a code could never be matched by a hint request, which lowercases
/// its query.
pub open spec fn entry_of_bundle(b: RawBundleView) -> Option<LanguageDataView> {
    match resolve_name(b.code, b.base) {
        None => None,
        Some(name) => {
            let words = clean_words(b.lines);
            if words.len() < WORDS_PER_ROUND {
                None
            } else if lower_of(b.code) != b.code {
                None
            } else {
                Some(
                    LanguageDataView {
                        code: b.code,
                        base: b.base,
                        name: name,
                        words: words,
                        valid_answers: valid_answers_spec(name, name),
                    },
                )
            }
        },
    }
}

/// The catalog a sequence of bundles yields, in discovery order.
pub open spec fn catalog_of(bundles: Seq<RawBundleView>) -> Seq<LanguageDataView>
    decreases bundles.len(),
{
    if bundles.len() == 0 {
        Seq::empty()
    } else {
        let rest = catalog_of(bundles.drop_last());
        match entry_of_bundle(bundles.last()) {
            Some(e) => rest.push(e),
            None => rest,
        }
    }
}

/// What the catalog guarantees of each of its entries: enough words for a
/// round, every word qualifying, the lowercase display name among the
/// accepted guesses, and a code that lowercasing leaves unchanged.
pub open spec fn entry_wf(e: LanguageDataView) -> bool {
    &&& e.words.len() >= WORDS_PER_ROUND
    &&& forall|i: int| 0 <= i < e.words.len() ==> word_ok(e.words[i])
    &&& e.valid_answers.contains(lower_of(e.name))
    &&& lower_of(e.code) == e.code
}

/// Law: every entry of a catalog built from any bundles is well-formed — it
/// has at least `WORDS_PER_ROUND` words, all alphabetic and long enough, its
/// accepted guesses include its lowercased display name, and its code is
/// already lowercase.
pub proof fn lemma_catalog_entries_wf(bundles: Seq<RawBundleView>)
    ensures
        forall|i: int|
            0 <= i < catalog_of(bundles).len() ==> entry_wf(#[trigger] catalog_of(bundles)[i]),
    decreases bundles.len(),
{
    if bundles.len() > 0 {
        lemma_catalog_entries_wf(bundles.drop_last());
        let b = bundles.last();
        let c = catalog_of(bundles);
        let rest = catalog_of(bundles.drop_last());
        match entry_of_bundle(b) {
            None => {
                assert(c == rest);
            },
            Some(e) => {
                let name = resolve_name(b.code, b.base)->Some_0;
                assert(entry_wf(e)) by {
                    lemma_clean_words_ok(b.lines);
                    lemma_valid_answers_contains(name, name);
                }
                assert(c == rest.push(e));
                assert forall|i: int| 0 <= i < c.len() implies entry_wf(c[i]) by {
                    if i < rest.len() {
                        assert(c[i] == rest[i]);
                    } else {
                        assert(c[i] == e);
                    }
                }
            },
        }
    }
}

/// Builds the catalog: for each bundle resolve a display name through the
/// alias table (code first, then base), clean its word list, and keep it only
/// if a full round's worth of words qualifies. The accepted guesses are built
/// from the resolved display name standing in for the code, as the game has
/// always done.
pub fn load_all_languages(bundles: &Vec<RawBundle>) -> (r: Vec<LanguageData>)
    ensures
        r.deep_view() == catalog_of(bundles.deep_view()),
        forall|i: int| 0 <= i < r.len() ==> entry_wf(#[trigger] r.deep_view()[i]),
{
    let mut out: Vec<LanguageData> = Vec::new();
    let mut i: usize = 0;
    while i < bundles.len()
        invariant
            i <= bundles.len(),
            out.deep_view() == catalog_of(bundles.deep_view().take(i as int)),
        decreases bundles.len() - i,
    {
        let ghost prev = bundles.deep_view().take(i as int);
        let b = &bundles[i];
        let resolved = match alias_lookup(b.code.as_str()) {
            Some(n) => Some(n),
            None => alias_lookup(b.base.as_str()),
        };
        match resolved {
            None => {},
            Some(name) => {
                let words = load_dictionary(&b.lines);
                if words.len() >= WORDS_PER_ROUND {
                    let relowered = lowercase(b.code.as_str());
                    if str_eq(relowered.as_str(), b.code.as_str()) {
                        let valid_answers = build_valid_answers(name.as_str(), name.as_str());
                        out.push(
                            LanguageData {
                                code: b.code.clone(),
                                base: b.base.clone(),
                                name,
                                words,
                                valid_answers,
                            },
                        );
                    }
                }
            },
        }
        proof {
            let cur = bundles.deep_view().take(i + 1 as int);
            assert(cur.drop_last() =~= prev);
            assert(cur.last() == bundles.deep_view()[i as int]);
            assert(out.deep_view() =~= catalog_of(cur));
        }
        i += 1;
    }
    proof {
        assert(bundles.deep_view().take(bundles.len() as int) =~= bundles.deep_view());
        lemma_catalog_entries_wf(bundles.deep_view());
    }
    out
}

} // verus!
