//! The game service's logic: drawing a round of words from a language and
//! answering new-game and hint requests against the catalog.

use vstd::prelude::*;
use rand::Rng;
use rand::seq::IndexedRandom;
use crate::catalog::LanguageData;
use crate::catalog::LanguageDataView;
use crate::catalog::WORDS_PER_ROUND;
use crate::catalog::entry_wf;
use crate::catalog::word_ok;
use crate::text::lower_of;
use crate::text::lowercase;
use crate::text::str_eq;

verus! {

/// What one new-game response carries.
pub struct GamePayload {
    /// The sampled words of the round.
    pub words: Vec<String>,
    /// The language's display name, revealed after a guess.
    pub answer: String,
    /// The lowercase guesses accepted as correct.
    pub valid_answers: Vec<String>,
    /// The identifier a client echoes back to ask for a hint.
    pub language_code: String,
}

/// The mathematical shape of a `GamePayload`.
pub ghost struct GamePayloadView {
    pub words: Seq<Seq<char>>,
    pub answer: Seq<char>,
    pub valid_answers: Seq<Seq<char>>,
    pub language_code: Seq<char>,
}

impl View for GamePayload {
    type V = GamePayloadView;

    open spec fn view(&self) -> GamePayloadView {
        GamePayloadView {
            words: self.words.deep_view(),
            answer: self.answer@,
            valid_answers: self.valid_answers.deep_view(),
            language_code: self.language_code@,
        }
    }
}

/// How many words a sample of a list with `n` words holds: a full round when
/// the list allows one, the whole list otherwise.
pub open spec fn sample_len(n: nat) -> nat {
    if n < WORDS_PER_ROUND as nat {
        n
    } else {
        WORDS_PER_ROUND as nat
    }
}

/// Relies on rand's `IndexedRandom::choose_multiple`: it draws
/// `min(amount, len)` elements of the slice at distinct positions, without
/// repetition, in unspecified order.
#[verifier::external_body]
fn choose_words(words: &Vec<String>, amount: usize) -> (r: Vec<String>)
    ensures
        r.deep_view().len() == if (amount as nat) <= words.deep_view().len() {
            amount as nat
        } else {
            words.deep_view().len()
        },
        r.deep_view().to_multiset().subset_of(words.deep_view().to_multiset()),
{
    let mut rng = rand::rng();
    words.as_slice().choose_multiple(&mut rng, amount).cloned().collect()
}

/// Relies on rand's `Rng::random_range` over `0..n`: a uniform value below
/// `n`; an empty range panics, hence the bound.
#[verifier::external_body]
fn random_below(n: usize) -> (r: usize)
    requires
        n > 0,
    ensures
        r < n,
{
    let mut rng = rand::rng();
    rng.random_range(0..n)
}

/// Draws one round's worth of words from a word list, uniformly and without
/// replacement. The input list is left untouched.
pub fn sample(words: &Vec<String>) -> (r: Vec<String>)
    ensures
        r.deep_view().len() == sample_len(words.deep_view().len()),
        r.deep_view().to_multiset().subset_of(words.deep_view().to_multiset()),
{
    choose_words(words, WORDS_PER_ROUND)
}

/// Law: a sample drawn from a duplicate-free list has no duplicates, and
/// every sampled element is a member of the list it was drawn from.
pub proof fn lemma_sample_members_distinct<A>(sampled: Seq<A>, from: Seq<A>)
    requires
        sampled.to_multiset().subset_of(from.to_multiset()),
        from.no_duplicates(),
    ensures
        sampled.no_duplicates(),
        forall|i: int| 0 <= i < sampled.len() ==> from.contains(#[trigger] sampled[i]),
{
    broadcast use vstd::seq_lib::group_to_multiset_ensures;

    from.lemma_multiset_has_no_duplicates();
    assert forall|x: A|
        sampled.to_multiset().contains(x) implies sampled.to_multiset().count(x) == 1 by {
        assert(sampled.to_multiset().count(x) <= from.to_multiset().count(x));
        assert(from.to_multiset().contains(x));
    }
    sampled.lemma_multiset_has_no_duplicates_conv();
    assert forall|i: int| 0 <= i < sampled.len() implies from.contains(sampled[i]) by {
        assert(sampled.contains(sampled[i]));
        assert(sampled.to_multiset().count(sampled[i]) > 0);
        assert(from.to_multiset().count(sampled[i]) > 0);
    }
}

/// Law: when every word of the list drawn from qualifies, so does every
/// sampled word.
pub proof fn lemma_sample_words_ok(sampled: Seq<Seq<char>>, from: Seq<Seq<char>>)
    requires
        sampled.to_multiset().subset_of(from.to_multiset()),
        forall|i: int| 0 <= i < from.len() ==> word_ok(#[trigger] from[i]),
    ensures
        forall|i: int| 0 <= i < sampled.len() ==> word_ok(#[trigger] sampled[i]),
{
    broadcast use vstd::seq_lib::group_to_multiset_ensures;

    assert forall|i: int| 0 <= i < sampled.len() implies word_ok(sampled[i]) by {
        assert(sampled.contains(sampled[i]));
        assert(sampled.to_multiset().count(sampled[i]) > 0);
        assert(from.to_multiset().count(sampled[i]) > 0);
        assert(from.contains(sampled[i]));
        let j = choose|j: int| 0 <= j < from.len() && from[j] == sampled[i];
        assert(word_ok(from[j]));
    }
}

/// How a served payload relates to the catalog entry it was built from.
pub open spec fn payload_for(p: GamePayloadView, e: LanguageDataView) -> bool {
    &&& p.answer == e.name
    &&& p.language_code == e.code
    &&& p.valid_answers == e.valid_answers
    &&& p.words.len() == sample_len(e.words.len())
    &&& p.words.to_multiset().subset_of(e.words.to_multiset())
}

/// An element-wise copy of a list of words.
fn clone_strings(v: &Vec<String>) -> (r: Vec<String>)
    ensures
        r.deep_view() == v.deep_view(),
{
    let mut out: Vec<String> = Vec::new();
    let mut i: usize = 0;
    while i < v.len()
        invariant
            i <= v.len(),
            out.len() == i,
            forall|k: int| 0 <= k < i ==> out.deep_view()[k] == #[trigger] v.deep_view()[k],
        decreases v.len() - i,
    {
        let s = v[i].clone();
        proof {
            assert(s@ == v.deep_view()[i as int]);
        }
        out.push(s);
        i += 1;
    }
    proof {
        assert(out.deep_view() =~= v.deep_view());
    }
    out
}

/// Serves a new game: one language is chosen uniformly from the catalog and a
/// round of its words is sampled. Nothing is served only when the catalog is
/// empty.
pub fn new_game(languages: &Vec<LanguageData>) -> (r: Option<GamePayload>)
    ensures
        r is Some <==> languages@.len() > 0,
        r matches Some(p) ==> exists|i: int|
            0 <= i < languages@.len() && payload_for(p@, #[trigger] languages.deep_view()[i]),
{
    if languages.len() == 0 {
        return None;
    }
    let i = random_below(languages.len());
    let e = &languages[i];
    let p = GamePayload {
        words: sample(&e.words),
        answer: e.name.clone(),
        valid_answers: clone_strings(&e.valid_answers),
        language_code: e.code.clone(),
    };
    proof {
        assert(payload_for(p@, languages.deep_view()[i as int]));
    }
    Some(p)
}

/// Whether a hint request for `req` is answered by this entry.
pub open spec fn entry_matches(e: LanguageDataView, req: Seq<char>) -> bool {
    e.code == req || e.base == req
}

/// The first catalog entry that answers a hint request for `req`, if any.
pub open spec fn find_match(cat: Seq<LanguageDataView>, req: Seq<char>) -> Option<int>
    decreases cat.len(),
{
    if cat.len() == 0 {
        None
    } else if entry_matches(cat[0], req) {
        Some(0int)
    } else {
        match find_match(cat.drop_first(), req) {
            Some(i) => Some(i + 1),
            None => None,
        }
    }
}

proof fn lemma_find_match_from(cat: Seq<LanguageDataView>, req: Seq<char>, i: int)
    requires
        0 <= i <= cat.len(),
        forall|j: int| 0 <= j < i ==> !entry_matches(#[trigger] cat[j], req),
    ensures
        i == cat.len() ==> find_match(cat, req) is None,
        i < cat.len() && entry_matches(cat[i], req) ==> find_match(cat, req) == Some(i),
    decreases i,
{
    if i == 0 {
    } else {
        let rest = cat.drop_first();
        assert(forall|j: int| 0 <= j < i - 1 ==> !entry_matches(#[trigger] rest[j], req));
        lemma_find_match_from(rest, req, i - 1);
        assert(!entry_matches(cat[0], req));
        if i < cat.len() && entry_matches(cat[i], req) {
            assert(rest[i - 1] == cat[i]);
        }
    }
}

proof fn lemma_find_match_exists(cat: Seq<LanguageDataView>, req: Seq<char>, i: int)
    requires
        0 <= i < cat.len(),
        entry_matches(cat[i], req),
    ensures
        find_match(cat, req) is Some,
    decreases cat.len(),
{
    if entry_matches(cat[0], req) {
    } else {
        let rest = cat.drop_first();
        assert(rest[i - 1] == cat[i]);
        lemma_find_match_exists(rest, req, i - 1);
    }
}

/// Answers a hint request: the query is lowercased and the first catalog
/// entry whose code or base equals it yields another round of its words.
/// Nothing is served exactly when no entry matches — the caller's cue for a
/// client error.
pub fn hint(languages: &Vec<LanguageData>, language: &str) -> (r: Option<Vec<String>>)
    ensures
        r is None <==> find_match(languages.deep_view(), lower_of(language@)) is None,
        r matches Some(words) ==> find_match(languages.deep_view(), lower_of(language@)) matches Some(
            j,
        ) && words.deep_view().len() == sample_len(languages.deep_view()[j].words.len())
            && words.deep_view().to_multiset().subset_of(
            languages.deep_view()[j].words.to_multiset(),
        ),
{
    let req = lowercase(language);
    let mut i: usize = 0;
    while i < languages.len()
        invariant
            req@ == lower_of(language@),
            i <= languages.len(),
            forall|j: int|
                0 <= j < i ==> !entry_matches(#[trigger] languages.deep_view()[j], req@),
        decreases languages.len() - i,
    {
        let e = &languages[i];
        if str_eq(e.code.as_str(), req.as_str()) || str_eq(e.base.as_str(), req.as_str()) {
            proof {
                lemma_find_match_from(languages.deep_view(), req@, i as int);
            }
            return Some(sample(&e.words));
        }
        i += 1;
    }
    proof {
        lemma_find_match_from(languages.deep_view(), req@, languages.len() as int);
    }
    None
}

/// Law: the hint lookup always finds the code of a well-formed catalog entry
/// — the entry's code is already lowercase, so the lookup's own lowercasing
/// cannot miss it.
pub proof fn lemma_hint_lookup_succeeds(cat: Seq<LanguageDataView>, i: int)
    requires
        0 <= i < cat.len(),
        entry_wf(cat[i]),
    ensures
        find_match(cat, lower_of(cat[i].code)) is Some,
{
    assert(entry_matches(cat[i], lower_of(cat[i].code)));
    lemma_find_match_exists(cat, lower_of(cat[i].code), i);
}

/// Law: a round trip never fails — the language code served with a game
/// payload built from a well-formed catalog entry is always accepted by the
/// hint lookup over the same catalog.
pub proof fn lemma_round_trip(cat: Seq<LanguageDataView>, p: GamePayloadView, i: int)
    requires
        0 <= i < cat.len(),
        entry_wf(cat[i]),
        payload_for(p, cat[i]),
    ensures
        find_match(cat, lower_of(p.language_code)) is Some,
{
    lemma_hint_lookup_succeeds(cat, i);
}

} // verus!
