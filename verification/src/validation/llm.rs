//! Confirmation of proper nouns by an outside language model: what is
//! asked, what is remembered, and how an answer is taken up.

use vstd::prelude::*;
use vstd::string::*;
use vstd::hash_map::StringHashMap;
use crate::error::{BotError, LLMError};
use crate::text::{normalize, normalized, string_views, trimmed};

verus! {

/// The request up to the list of words.
pub const PROMPT_HEAD: &'static str = "Your task is to validate a list of words and provide information about them. For each word in the provided list, you need to determine if it meets **both** of the following criteria:

1.  **Capitalized:** The word MUST start with an uppercase letter.
2.  **Proper Noun:** The word MUST be a proper noun in either English or Finnish. A proper noun is a name used for an individual person, place, organization, brand, title, month, day, etc. Common nouns (like \"table\", \"house\", \"juokseminen\" [running]), even if capitalized incorrectly or at the start of a sentence, are generally not proper nouns unless they are part of a specific name (e.g., the brand \"Apple\").

**Input:** A list of words.

**Output:** A single JSON array.
*   Each element in the array should be a JSON object representing one word from the input list.
*   Each object must have the following three keys:
    *   `\"word\"`: The original word from the input list (string).
    *   `\"is_proper_noun\"`: A boolean value. `true` if the word meets **both** criteria (is capitalized AND is a proper noun in English or Finnish). `false` otherwise.
    *   `\"explanation\"`: A short explanation **in Finnish** (string).
        *   If `is_proper_noun` is `true`, briefly explain **in Finnish** what the proper noun refers to (e.g., \"Ranskan pääkaupunki\", \"Suomalainen designyritys\", \"Amerikkalainen teknologiayritys\").
        *   If `is_proper_noun` is `false`, briefly state **in Finnish** the reason why it failed the criteria (e.g., \"Yleisnimi, ei erisnimi\", \"Ei isolla alkukirjaimella\", \"Ei tunnistettu sana tai erisnimi\").

**Example:**

If the input list is:
`[\"Microsoft\", \"London\", \"Helsinki\", \"Marimekko\", \"Table\", \"juokseminen\", \"paris\", \"suomi\", \"bababpap\", \"Apple\"]`

The expected output JSON array is:
```json
[
  {
    \"word\": \"Microsoft\",
    \"is_proper_noun\": true,
    \"explanation\": \"Amerikkalainen monikansallinen teknologiayritys.\"
  },
  {
    \"word\": \"London\",
    \"is_proper_noun\": true,
    \"explanation\": \"Englannin ja Yhdistyneen kuningaskunnan pääkaupunki ja suurin kaupunki.\"
  },
  {
    \"word\": \"Helsinki\",
    \"is_proper_noun\": true,
    \"explanation\": \"Suomen pääkaupunki ja väkirikkain kaupunki.\"
  },
  {
    \"word\": \"Marimekko\",
    \"is_proper_noun\": true,
    \"explanation\": \"Suomalainen designyritys, joka tunnetaan rohkeista kuvioistaan.\"
  },
  {
    \"word\": \"Table\",
    \"is_proper_noun\": false,
    \"explanation\": \"Yleisnimi, ei erisnimi.\"
  },
  {
    \"word\": \"juokseminen\",
    \"is_proper_noun\": false,
    \"explanation\": \"Ei isolla alkukirjaimella ja on yleisnimi (tarkoittaa 'running').\"
  },
  {
    \"word\": \"paris\",
    \"is_proper_noun\": false,
    \"explanation\": \"Ei isolla alkukirjaimella (viittaa todennäköisesti Ranskan pääkaupunkiin).\"
  },
  {
    \"word\": \"suomi\",
    \"is_proper_noun\": false,
    \"explanation\": \"Ei isolla alkukirjaimella (Suomen maan nimi).\"
  },
  {
    \"word\": \"bababpap\",
    \"is_proper_noun\": false,
    \"explanation\": \"Ei tunnistettu sana tai erisnimi.\"
  },
  {
    \"word\": \"Apple\",
    \"is_proper_noun\": true,
    \"explanation\": \"Amerikkalainen monikansallinen teknologiayritys (myös hedelmä, mutta iso alkukirjain viittaa brändiin).\"
  }
]```

Now, please validate the following list of words and provide the output strictly in the specified JSON array format:

```json
";

/// The request after the list of words.
pub const PROMPT_TAIL: &'static str = "
```";

/// The error of `serde_json`; nothing is known of what it holds.
#[verifier::external_type_specification]
#[verifier::external_body]
pub struct ExJsonError(serde_json::Error);

/// The JSON text of a list of words, as `serde_json::to_string` writes it
/// for a vector of strings; `None` where it reports an error.
pub uninterp spec fn word_list_json(words: Seq<Seq<char>>) -> Option<Seq<char>>;

/// The list of words a JSON text denotes, as `serde_json::from_str` reads a
/// vector of strings from it; `None` where it reports an error.
pub uninterp spec fn json_word_list(text: Seq<char>) -> Option<Seq<Seq<char>>>;

/// `serde_json::to_string` on a vector of strings: the text it returns, or
/// that it failed, depends on the words alone.
#[verifier::external_body]
pub(crate) fn words_to_json(words: &Vec<String>) -> (r: Result<String, serde_json::Error>)
    ensures
        match r {
            Ok(text) => word_list_json(string_views(words@)) == Some(text@),
            Err(_) => word_list_json(string_views(words@)) is None,
        },
{
    serde_json::to_string(words)
}

/// `serde_json::from_str` for a vector of strings: the words it returns, or
/// that it failed, depend on the text alone.
#[verifier::external_body]
fn words_from_json(text: &str) -> (r: Result<Vec<String>, serde_json::Error>)
    ensures
        match r {
            Ok(words) => json_word_list(text@) == Some(string_views(words@)),
            Err(_) => json_word_list(text@) is None,
        },
{
    serde_json::from_str(text)
}

/// The message of a `serde_json::Error`, as its `Display` writes it.
/// Nothing is claimed of the text.
#[verifier::external_body]
fn json_error_text(e: &serde_json::Error) -> String {
    e.to_string()
}

/// What the service says of one word.
#[derive(Debug, Clone)]
pub struct ProperNounResponse {
    pub word: String,
    pub is_proper_noun: bool,
    pub explanation: String,
}

/// A `ProperNounResponse` as plain values.
pub ghost struct ProperNounVerdict {
    pub word: Seq<char>,
    pub is_proper_noun: bool,
    pub explanation: Seq<char>,
}

impl View for ProperNounResponse {
    type V = ProperNounVerdict;

    open spec fn view(&self) -> ProperNounVerdict {
        ProperNounVerdict {
            word: self.word@,
            is_proper_noun: self.is_proper_noun,
            explanation: self.explanation@,
        }
    }
}

/// The responses of a map as plain values.
pub open spec fn response_views(m: Map<Seq<char>, ProperNounResponse>) -> Map<
    Seq<char>,
    ProperNounVerdict,
> {
    m.map_values(|r: ProperNounResponse| r@)
}

/// The responses of a list as plain values.
pub open spec fn verdict_views(responses: Seq<ProperNounResponse>) -> Seq<ProperNounVerdict> {
    responses.map_values(|r: ProperNounResponse| r@)
}

/// The answers the cache already holds for a list of words: each word whose
/// canonical form is cached, with the cached verdict.
pub open spec fn cached_results(
    cache: Map<Seq<char>, ProperNounVerdict>,
    words: Seq<Seq<char>>,
) -> Map<Seq<char>, ProperNounVerdict> {
    Map::new(
        |w: Seq<char>| words.contains(w) && cache.contains_key(normalized(w)),
        |w: Seq<char>| cache[normalized(w)],
    )
}

/// The words the service has to be asked about: those whose canonical form
/// is not cached, each once, in the order of their first occurrence.
pub open spec fn words_to_ask(cached: Set<Seq<char>>, words: Seq<Seq<char>>) -> Seq<Seq<char>>
    decreases words.len(),
{
    if words.len() == 0 {
        Seq::empty()
    } else {
        let earlier = words_to_ask(cached, words.drop_last());
        let word = words.last();
        if cached.contains(normalized(word)) || earlier.contains(word) {
            earlier
        } else {
            earlier.push(word)
        }
    }
}

/// The request that carries a list of words given as JSON text.
pub open spec fn prompt_for(list_json: Seq<char>) -> Seq<char> {
    PROMPT_HEAD@ + list_json + PROMPT_TAIL@
}

/// What is kept of a response: the word and the verdict, without the
/// explanation.
pub open spec fn kept_verdict(response: ProperNounVerdict) -> ProperNounVerdict {
    ProperNounVerdict {
        word: response.word,
        is_proper_noun: response.is_proper_noun,
        explanation: Seq::empty(),
    }
}

/// The cache once a list of responses is taken up in order: each verdict is
/// stored under the canonical form of its word, a later one replacing an
/// earlier one.
pub open spec fn cache_after(
    cache: Map<Seq<char>, ProperNounVerdict>,
    responses: Seq<ProperNounVerdict>,
) -> Map<Seq<char>, ProperNounVerdict>
    decreases responses.len(),
{
    if responses.len() == 0 {
        cache
    } else {
        cache_after(cache, responses.drop_last()).insert(
            normalized(responses.last().word),
            kept_verdict(responses.last()),
        )
    }
}

/// The results once a list of responses is taken up in order: each verdict
/// is stored under its word as the service wrote it.
pub open spec fn results_after(
    results: Map<Seq<char>, ProperNounVerdict>,
    responses: Seq<ProperNounVerdict>,
) -> Map<Seq<char>, ProperNounVerdict>
    decreases responses.len(),
{
    if responses.len() == 0 {
        results
    } else {
        results_after(results, responses.drop_last()).insert(
            responses.last().word,
            kept_verdict(responses.last()),
        )
    }
}

/// Verdicts by word.
pub type VerdictMap = StringHashMap<ProperNounResponse>;

/// The first step of a batch: either every word was answered from the
/// cache, or the service has to be asked.
pub enum BatchStep {
    /// Nothing is left to ask; these are the answers.
    Done(StringHashMap<ProperNounResponse>),
    /// `prompt` asks the service about `words`; `results` holds what the
    /// cache answered.
    Ask { prompt: String, words: Vec<String>, results: StringHashMap<ProperNounResponse> },
}

/// Tells proper nouns apart with the help of a language model, and
/// remembers its verdicts.
pub struct LLMValidator {
    model: String,
    cache: StringHashMap<ProperNounResponse>,
}

/// An `LLMValidator` as plain values.
pub ghost struct LLMValidatorView {
    /// The name of the model that is asked.
    pub model: Seq<char>,
    /// The verdicts known so far, by the canonical form of their word.
    pub cache: Map<Seq<char>, ProperNounVerdict>,
}

impl View for LLMValidator {
    type V = LLMValidatorView;

    closed spec fn view(&self) -> LLMValidatorView {
        LLMValidatorView { model: self.model@, cache: response_views(self.cache@) }
    }
}

/// Draws up the request for a list of words given as JSON text.
pub fn build_prompt(list_json: &str) -> (r: String)
    ensures
        r@ == prompt_for(list_json@),
{
    String::from_str(PROMPT_HEAD).concat(list_json).concat(PROMPT_TAIL)
}

fn copy_response(response: &ProperNounResponse) -> (r: ProperNounResponse)
    ensures
        r@ == response@,
{
    ProperNounResponse {
        word: response.word.clone(),
        is_proper_noun: response.is_proper_noun,
        explanation: response.explanation.clone(),
    }
}

fn contains_word(list: &Vec<String>, word: &String) -> (r: bool)
    ensures
        r == string_views(list@).contains(word@),
{
    let mut i: usize = 0;
    while i < list.len()
        invariant
            i <= list.len(),
            forall|j: int| 0 <= j < i ==> string_views(list@)[j] != word@,
        decreases list.len() - i,
    {
        if list[i] == *word {
            assert(string_views(list@)[i as int] == word@);
            return true;
        }
        i += 1;
    }
    false
}

fn api_error(context: &str, detail: &str) -> (e: BotError)
    ensures
        e matches BotError::LLM(LLMError::ApiError(message)) && message@ == context@ + detail@,
        e matches BotError::LLM(LLMError::ApiError(message)) && context@.is_prefix_of(message@),
{
    let message = String::from_str(context).concat(detail);
    assert(message@.subrange(0, context@.len() as int) =~= context@);
    BotError::LLM(LLMError::ApiError(message))
}

proof fn lemma_cached_results_step(
    cache: Map<Seq<char>, ProperNounVerdict>,
    words: Seq<Seq<char>>,
    i: int,
)
    requires
        0 <= i < words.len(),
    ensures
        cache.contains_key(normalized(words[i])) ==> cached_results(cache, words.take(i + 1))
            == cached_results(cache, words.take(i)).insert(words[i], cache[normalized(words[i])]),
        !cache.contains_key(normalized(words[i])) ==> cached_results(cache, words.take(i + 1))
            == cached_results(cache, words.take(i)),
{
    let before = words.take(i);
    let after = words.take(i + 1);
    assert(after[i] == words[i]);
    assert forall|w: Seq<char>| after.contains(w) <==> (before.contains(w) || w == words[i]) by {
        if before.contains(w) {
            let j = choose|j: int| 0 <= j < before.len() && before[j] == w;
            assert(after[j] == w);
        }
        if after.contains(w) {
            let j = choose|j: int| 0 <= j < after.len() && after[j] == w;
            if j < i {
                assert(before[j] == w);
            }
        }
    }
    if cache.contains_key(normalized(words[i])) {
        assert(cached_results(cache, after) =~= cached_results(cache, before).insert(
            words[i],
            cache[normalized(words[i])],
        ));
    } else {
        assert(cached_results(cache, after) =~= cached_results(cache, before));
    }
}

impl LLMValidator {
    /// A validator that asks `model` and knows no verdict yet.
    pub fn new(model: &str) -> (r: Self)
        ensures
            r@.model == model@,
            r@.cache == Map::<Seq<char>, ProperNounVerdict>::empty(),
    {
        let r = LLMValidator { model: String::from_str(model), cache: StringHashMap::new() };
        assert(r@.cache =~= Map::<Seq<char>, ProperNounVerdict>::empty());
        r
    }

    /// The name of the model that is asked.
    pub fn model(&self) -> (r: &str)
        ensures
            r@ == self@.model,
    {
        self.model.as_str()
    }

    /// Parts a batch of words by the cache: the answers the cache holds, by
    /// word, and the words that are left to ask, each once and in the order
    /// of their first occurrence.
    pub fn partition_by_cache(&self, words: &Vec<String>) -> (r: (VerdictMap, Vec<String>))
        ensures
            response_views(r.0@) == cached_results(self@.cache, string_views(words@)),
            string_views(r.1@) == words_to_ask(self@.cache.dom(), string_views(words@)),
    {
        let ghost all = string_views(words@);
        let ghost cache = self@.cache;
        let mut results: StringHashMap<ProperNounResponse> = StringHashMap::new();
        let mut words_to_check: Vec<String> = Vec::new();
        assert(response_views(results@) =~= cached_results(cache, all.take(0)));
        let mut i: usize = 0;
        while i < words.len()
            invariant
                i <= words.len(),
                all == string_views(words@),
                cache == self@.cache,
                response_views(results@) == cached_results(cache, all.take(i as int)),
                string_views(words_to_check@) == words_to_ask(cache.dom(), all.take(i as int)),
            decreases words.len() - i,
        {
            let key = normalize(words[i].as_str());
            proof {
                lemma_cached_results_step(cache, all, i as int);
                assert(all.take(i as int + 1).drop_last() =~= all.take(i as int));
                assert(all[i as int] == words@[i as int]@);
            }
            match self.cache.get(key.as_str()) {
                Some(result) => {
                    let ghost before = results@;
                    let copy = copy_response(result);
                    results.insert(words[i].clone(), copy);
                    assert(response_views(results@) =~= response_views(before).insert(
                        words@[i as int]@,
                        copy@,
                    ));
                },
                None => {
                    if !contains_word(&words_to_check, &words[i]) {
                        let ghost before = words_to_check@;
                        words_to_check.push(words[i].clone());
                        assert(string_views(words_to_check@) =~= string_views(before).push(
                            words@[i as int]@,
                        ));
                    }
                },
            }
            i += 1;
        }
        assert(all.take(i as int) =~= all);
        (results, words_to_check)
    }

    /// Takes up a batch of words given as a JSON list. Words whose canonical
    /// form is cached are answered at once and never asked again; for the
    /// others, each taken once, the request to the service is drawn up.
    pub fn validate_json_batch(&self, words_json: &str) -> (r: Result<BatchStep, BotError>)
        ensures
            match json_word_list(words_json@) {
                None => {
                    &&& r matches Err(BotError::LLM(LLMError::ApiError(message)))
                    &&& "Failed to parse JSON word list: "@.is_prefix_of(message@)
                },
                Some(words) => {
                    let ask = words_to_ask(self@.cache.dom(), words);
                    if ask.len() == 0 {
                        &&& r matches Ok(BatchStep::Done(results))
                        &&& response_views(results@) == cached_results(self@.cache, words)
                    } else {
                        match word_list_json(ask) {
                            None => {
                                &&& r matches Err(BotError::LLM(LLMError::ApiError(message)))
                                &&& "Failed to serialize words to JSON: "@.is_prefix_of(message@)
                            },
                            Some(list) => {
                                &&& r matches Ok(BatchStep::Ask { prompt, words: asked, results })
                                &&& prompt@ == prompt_for(list)
                                &&& string_views(asked@) == ask
                                &&& response_views(results@) == cached_results(
                                    self@.cache,
                                    words,
                                )
                            },
                        }
                    }
                },
            },
    {
        let words = match words_from_json(words_json) {
            Ok(words) => words,
            Err(e) => {
                let detail = json_error_text(&e);
                return Err(api_error("Failed to parse JSON word list: ", detail.as_str()));
            },
        };
        let (results, words_to_check) = self.partition_by_cache(&words);
        if words_to_check.len() == 0 {
            return Ok(BatchStep::Done(results));
        }
        let words_array_json = match words_to_json(&words_to_check) {
            Ok(text) => text,
            Err(e) => {
                let detail = json_error_text(&e);
                return Err(api_error("Failed to serialize words to JSON: ", detail.as_str()));
            },
        };
        let prompt = build_prompt(words_array_json.as_str());
        Ok(BatchStep::Ask { prompt, words: words_to_check, results })
    }
}

impl LLMValidator {
    /// Takes up the responses of the service, in order: each verdict is
    /// remembered under the canonical form of its word and added to the
    /// results under the word as the service wrote it. Explanations are
    /// not kept.
    pub fn finish_json_batch(
        &mut self,
        results: StringHashMap<ProperNounResponse>,
        validation_objects: &Vec<ProperNounResponse>,
    ) -> (r: StringHashMap<ProperNounResponse>)
        ensures
            final(self)@.model == old(self)@.model,
            final(self)@.cache == cache_after(old(self)@.cache, verdict_views(validation_objects@)),
            response_views(r@) == results_after(
                response_views(results@),
                verdict_views(validation_objects@),
            ),
    {
        let mut results = results;
        let ghost all = verdict_views(validation_objects@);
        let ghost cache0 = self@.cache;
        let ghost results0 = response_views(results@);
        let mut i: usize = 0;
        while i < validation_objects.len()
            invariant
                i <= validation_objects.len(),
                all == verdict_views(validation_objects@),
                self.model == old(self).model,
                response_views(self.cache@) == cache_after(cache0, all.take(i as int)),
                response_views(results@) == results_after(results0, all.take(i as int)),
            decreases validation_objects.len() - i,
        {
            let response = &validation_objects[i];
            let key = normalize(response.word.as_str());
            let cached = ProperNounResponse {
                word: response.word.clone(),
                is_proper_noun: response.is_proper_noun,
                explanation: String::new(),
            };
            let answer = ProperNounResponse {
                word: response.word.clone(),
                is_proper_noun: response.is_proper_noun,
                explanation: String::new(),
            };
            proof {
                assert(all.take(i as int + 1).drop_last() =~= all.take(i as int));
                assert(all[i as int] == response@);
                assert(cached@ == kept_verdict(response@));
                assert(answer@ == kept_verdict(response@));
            }
            let ghost cache_before = self.cache@;
            let ghost results_before = results@;
            self.cache.insert(key, cached);
            results.insert(response.word.clone(), answer);
            assert(response_views(self.cache@) =~= response_views(cache_before).insert(
                normalized(response@.word),
                cached@,
            ));
            assert(response_views(results@) =~= response_views(results_before).insert(
                response@.word,
                answer@,
            ));
            i += 1;
        }
        assert(all.take(i as int) =~= all);
        results
    }
}

impl LLMValidator {
    /// Ends a batch with what came of asking the service. Its responses are
    /// taken up as `finish_json_batch` does. Where the call or the reading
    /// of its answer failed, nothing is remembered and the answers of the
    /// cache stand alone: the words that were asked stay without a verdict.
    pub fn settle_json_batch(
        &mut self,
        results: VerdictMap,
        answer: Result<Vec<ProperNounResponse>, BotError>,
    ) -> (r: (VerdictMap, Option<BotError>))
        ensures
            match answer {
                Ok(responses) => {
                    &&& final(self)@.model == old(self)@.model
                    &&& final(self)@.cache == cache_after(
                        old(self)@.cache,
                        verdict_views(responses@),
                    )
                    &&& response_views(r.0@) == results_after(
                        response_views(results@),
                        verdict_views(responses@),
                    )
                    &&& r.1 is None
                },
                Err(e) => {
                    &&& final(self)@ == old(self)@
                    &&& r.0 == results
                    &&& r.1 == Some(e)
                },
            },
    {
        match answer {
            Ok(responses) => {
                let results = self.finish_json_batch(results, &responses);
                (results, None)
            },
            Err(e) => (results, Some(e)),
        }
    }
}

/// `i` is the first position of `c` in `text`.
pub open spec fn is_first_index_of(text: Seq<char>, c: char, i: int) -> bool {
    &&& 0 <= i < text.len()
    &&& text[i] == c
    &&& forall|j: int| 0 <= j < i ==> text[j] != c
}

/// `i` is the last position of `c` in `text`.
pub open spec fn is_last_index_of(text: Seq<char>, c: char, i: int) -> bool {
    &&& 0 <= i < text.len()
    &&& text[i] == c
    &&& forall|j: int| i < j < text.len() ==> text[j] != c
}

/// Cuts the JSON array out of what the service answered: the trimmed answer
/// from its first `[` to its last `]`. An answer without both brackets, or
/// whose last `]` stands before its first `[`, is handed on trimmed and
/// whole.
pub fn extract_json(response: &str) -> (r: String)
    ensures
        !(trimmed(response@).contains('[') && trimmed(response@).contains(']')) ==> r@ == trimmed(
            response@,
        ),
        forall|start: int, end: int|
            is_first_index_of(trimmed(response@), '[', start) && is_last_index_of(
                trimmed(response@),
                ']',
                end,
            ) ==> r@ == if start <= end {
                trimmed(response@).subrange(start, end + 1)
            } else {
                trimmed(response@)
            },
{
    let response_text = response.trim();
    let chars = crate::text::chars_of(response_text);
    let n = chars.len();
    let mut start: usize = 0;
    while start < n && chars[start] != '['
        invariant
            n == chars@.len(),
            start <= n,
            forall|j: int| 0 <= j < start ==> chars@[j] != '[',
        decreases n - start,
    {
        start += 1;
    }
    let mut end: usize = n;
    while end > 0 && chars[end - 1] != ']'
        invariant
            n == chars@.len(),
            end <= n,
            forall|j: int| end <= j < n ==> chars@[j] != ']',
        decreases end,
    {
        end -= 1;
    }
    if start < n && end > 0 {
        proof {
            let first = start as int;
            let last = end as int - 1;
            assert(is_first_index_of(chars@, '[', first));
            assert(is_last_index_of(chars@, ']', last));
            assert forall|a: int, b: int|
                is_first_index_of(chars@, '[', a) && is_last_index_of(
                    chars@,
                    ']',
                    b,
                ) implies a == first && b == last by {
                if a < first {
                    assert(chars@[a] != '[');
                }
                if a > first {
                    assert(chars@[first] != '[');
                }
                if b > last {
                    assert(chars@[b] != ']');
                }
                if b < last {
                    assert(chars@[last] != ']');
                }
            }
        }
        if start < end {
            return String::from_str(response_text.substring_char(start, end));
        }
        String::from_str(response_text)
    } else {
        proof {
            if start >= n {
                assert(!chars@.contains('['));
            } else {
                assert(!chars@.contains(']'));
            }
            assert forall|a: int, b: int|
                !(is_first_index_of(chars@, '[', a) && is_last_index_of(chars@, ']', b)) by {
                if is_first_index_of(chars@, '[', a) && is_last_index_of(chars@, ']', b) {
                    assert(chars@.contains('['));
                    assert(chars@.contains(']'));
                }
            }
        }
        String::from_str(response_text)
    }
}

/// The error for a request that the service did not answer.
pub fn request_failed(detail: &str) -> (e: BotError)
    ensures
        e matches BotError::LLM(LLMError::ApiError(message)) && message@
            == "Gemini API request failed: "@ + detail@,
{
    api_error("Gemini API request failed: ", detail)
}

/// The error for an answer that is no list of verdicts.
pub fn response_unreadable(detail: &str, response_text: &str) -> (e: BotError)
    ensures
        e matches BotError::LLM(LLMError::ApiError(message)) && message@
            == "Failed to parse LLM response as JSON: "@ + detail@ + ", response was: "@
            + response_text@,
{
    let message = String::from_str("Failed to parse LLM response as JSON: ").concat(detail).concat(
        ", response was: ",
    ).concat(response_text);
    BotError::LLM(LLMError::ApiError(message))
}

/// Every word that is asked occurs in the batch and is not cached, and no
/// word is asked twice.
pub proof fn lemma_words_to_ask(cached: Set<Seq<char>>, words: Seq<Seq<char>>)
    ensures
        forall|w: Seq<char>| #[trigger]
            words_to_ask(cached, words).contains(w) <==> words.contains(w) && !cached.contains(
                normalized(w),
            ),
        words_to_ask(cached, words).no_duplicates(),
    decreases words.len(),
{
    let asked = words_to_ask(cached, words);
    if words.len() > 0 {
        let earlier_words = words.drop_last();
        let earlier = words_to_ask(cached, earlier_words);
        let word = words.last();
        lemma_words_to_ask(cached, earlier_words);
        assert forall|w: Seq<char>| words.contains(w) <==> (earlier_words.contains(w) || w
            == word) by {
            if earlier_words.contains(w) {
                let j = choose|j: int| 0 <= j < earlier_words.len() && earlier_words[j] == w;
                assert(words[j] == w);
            }
            if words.contains(w) {
                let j = choose|j: int| 0 <= j < words.len() && words[j] == w;
                if j < words.len() - 1 {
                    assert(earlier_words[j] == w);
                }
            }
        }
        if cached.contains(normalized(word)) || earlier.contains(word) {
        } else {
            assert forall|w: Seq<char>| asked.contains(w) <==> (earlier.contains(w) || w
                == word) by {
                if earlier.contains(w) {
                    let j = choose|j: int| 0 <= j < earlier.len() && earlier[j] == w;
                    assert(asked[j] == w);
                }
                if asked.contains(w) {
                    let j = choose|j: int| 0 <= j < asked.len() && asked[j] == w;
                    if j < asked.len() - 1 {
                        assert(earlier[j] == w);
                    }
                }
                if w == word {
                    assert(asked[asked.len() - 1] == w);
                }
            }
            assert forall|i: int, j: int|
                0 <= i < asked.len() && 0 <= j < asked.len() && i != j implies asked[i]
                != asked[j] by {
                if i < earlier.len() && j < earlier.len() {
                    assert(earlier[i] != earlier[j]);
                } else if i < earlier.len() {
                    assert(earlier.contains(earlier[i]));
                } else {
                    assert(earlier.contains(earlier[j]));
                }
            }
        }
    }
}

/// Taking up responses only adds to the cache, and every response taken up
/// is cached under the canonical form of its word.
pub proof fn lemma_cache_after(
    cache: Map<Seq<char>, ProperNounVerdict>,
    responses: Seq<ProperNounVerdict>,
)
    ensures
        cache.dom().subset_of(cache_after(cache, responses).dom()),
        forall|i: int|
            0 <= i < responses.len() ==> cache_after(cache, responses).contains_key(
                normalized(#[trigger] responses[i].word),
            ),
    decreases responses.len(),
{
    if responses.len() > 0 {
        let earlier = responses.drop_last();
        lemma_cache_after(cache, earlier);
        assert forall|i: int| 0 <= i < responses.len() implies cache_after(
            cache,
            responses,
        ).contains_key(normalized(#[trigger] responses[i].word)) by {
            if i < responses.len() - 1 {
                assert(earlier[i] == responses[i]);
            }
        }
    }
}

/// A word with a cached verdict is never sent to the service again: once
/// responses are taken up, no later batch asks about a word whose
/// canonical form was cached before or is that of a response, however the
/// cache has grown since.
pub proof fn lemma_cached_word_never_asked(
    cache: Map<Seq<char>, ProperNounVerdict>,
    responses: Seq<ProperNounVerdict>,
    later: Set<Seq<char>>,
    words: Seq<Seq<char>>,
    word: Seq<char>,
)
    requires
        cache_after(cache, responses).dom().subset_of(later),
        cache.contains_key(normalized(word)) || exists|i: int|
            0 <= i < responses.len() && normalized(#[trigger] responses[i].word) == normalized(
                word,
            ),
    ensures
        !words_to_ask(later, words).contains(word),
{
    lemma_cache_after(cache, responses);
    lemma_words_to_ask(later, words);
    assert(cache_after(cache, responses).dom().contains(normalized(word)));
}

} // verus!
