//! The batch scheduler: words that await confirmation as proper nouns are
//! queued and sent to the service in batches, by size or by age.

use std::collections::VecDeque;
use vstd::prelude::*;
use vstd::string::*;
use crate::actors::effect::Effect;
use crate::actors::game_state::MarkWordValidity;
use crate::actors::message_reaction::{
    clear_pending_indicator,
    indicate,
    reaction_of,
    AddReaction,
    DeleteReaction,
    Indication,
    EMOJI_QUESTION,
};
use crate::config::Config;
use crate::text::string_views;
use crate::validation::llm::{
    response_views,
    word_list_json,
    words_to_json,
    ProperNounVerdict,
    VerdictMap,
};

verus! {

/// The seconds between two looks at the age of the queue.
pub const POLL_INTERVAL_SECS: u64 = 10;

/// Message to validate a proper noun.
pub struct ValidateProperNoun {
    pub word: String,
    pub message_id: u64,
}

/// Message that asks for a batch to be sent.
pub struct TriggerBatchValidation;

/// A word that waits in the queue.
pub struct QueueEntry {
    pub word: String,
    pub message_id: u64,
}

/// A `QueueEntry` as plain values.
pub ghost struct QueueEntryView {
    pub word: Seq<char>,
    pub message_id: u64,
}

impl View for QueueEntry {
    type V = QueueEntryView;

    open spec fn view(&self) -> QueueEntryView {
        QueueEntryView { word: self.word@, message_id: self.message_id }
    }
}

/// The entries of a list as plain values.
pub open spec fn entry_views(entries: Seq<QueueEntry>) -> Seq<QueueEntryView> {
    entries.map_values(|e: QueueEntry| e@)
}

/// The words of a list of entries.
pub open spec fn entry_words(entries: Seq<QueueEntryView>) -> Seq<Seq<char>> {
    entries.map_values(|e: QueueEntryView| e.word)
}

/// The scheduler as plain values. Times are seconds on the caller's clock.
pub ghost struct SchedulerView {
    /// The words that wait, oldest first.
    pub queue: Seq<QueueEntryView>,
    /// When the last batch was taken.
    pub last_batch_time: u64,
    /// The queue length at which a batch is due.
    pub max_batch_size: usize,
    /// The age in seconds beyond which a batch is due however small.
    pub batch_timeout_secs: u64,
}

/// The seconds that have passed since the last batch.
pub open spec fn elapsed_secs(s: SchedulerView, now: u64) -> int {
    if now >= s.last_batch_time {
        now - s.last_batch_time
    } else {
        0
    }
}

/// A batch is due when the queue has reached the batch size, or when it is
/// not empty and more than the timeout has passed since the last batch.
pub open spec fn batch_due(s: SchedulerView, now: u64) -> bool {
    s.queue.len() >= s.max_batch_size || (s.queue.len() > 0 && elapsed_secs(s, now)
        > s.batch_timeout_secs)
}

/// The number of entries the next batch takes: up to the batch size, and
/// at least one where any waits.
pub open spec fn batch_len(s: SchedulerView) -> int {
    if s.queue.len() == 0 {
        0
    } else if s.max_batch_size == 0 {
        1
    } else if s.queue.len() <= s.max_batch_size {
        s.queue.len() as int
    } else {
        s.max_batch_size as int
    }
}

/// The scheduler once a batch is taken at `now`.
pub open spec fn state_after_batch(s: SchedulerView, now: u64) -> SchedulerView {
    if s.queue.len() == 0 {
        s
    } else {
        SchedulerView {
            queue: s.queue.subrange(batch_len(s), s.queue.len() as int),
            last_batch_time: now,
            ..s
        }
    }
}

/// The entries of a batch with their words as JSON text.
pub struct Batch {
    pub entries: Vec<QueueEntry>,
    pub words_json: String,
}

/// Queues words for confirmation and decides when a batch is sent.
pub struct LLMValidatorActor {
    queue: VecDeque<QueueEntry>,
    last_batch_time: u64,
    max_batch_size: usize,
    batch_timeout_secs: u64,
}

impl View for LLMValidatorActor {
    type V = SchedulerView;

    closed spec fn view(&self) -> SchedulerView {
        SchedulerView {
            queue: entry_views(self.queue@),
            last_batch_time: self.last_batch_time,
            max_batch_size: self.max_batch_size,
            batch_timeout_secs: self.batch_timeout_secs,
        }
    }
}

impl LLMValidatorActor {
    /// A scheduler with an empty queue that counts its first timeout from
    /// `now`.
    pub fn new(config: &Config, now: u64) -> (r: Self)
        ensures
            r@ == (SchedulerView {
                queue: Seq::empty(),
                last_batch_time: now,
                max_batch_size: config.llm_batch_size,
                batch_timeout_secs: config.batch_timeout_secs,
            }),
    {
        let r = LLMValidatorActor {
            queue: VecDeque::new(),
            last_batch_time: now,
            max_batch_size: config.llm_batch_size,
            batch_timeout_secs: config.batch_timeout_secs,
        };
        assert(r@.queue =~= Seq::empty());
        r
    }

    /// Whether a batch is due at `now`.
    pub fn should_trigger_batch(&self, now: u64) -> (r: bool)
        ensures
            r == batch_due(self@, now),
    {
        let elapsed: u64 = if now >= self.last_batch_time {
            now - self.last_batch_time
        } else {
            0
        };
        self.queue.len() >= self.max_batch_size || (self.queue.len() > 0 && elapsed
            > self.batch_timeout_secs)
    }

    /// Queues a word and tells whether a batch is due now.
    pub fn enqueue(&mut self, msg: ValidateProperNoun, now: u64) -> (due: bool)
        ensures
            final(self)@ == (SchedulerView {
                queue: old(self)@.queue.push(
                    QueueEntryView { word: msg.word@, message_id: msg.message_id },
                ),
                ..old(self)@
            }),
            due == batch_due(final(self)@, now),
    {
        let entry = QueueEntry { word: msg.word, message_id: msg.message_id };
        self.queue.push_back(entry);
        assert(final(self)@.queue =~= old(self)@.queue.push(entry@));
        self.should_trigger_batch(now)
    }

    /// The number of words that wait.
    pub fn queue_len(&self) -> (r: usize)
        ensures
            r == self@.queue.len(),
    {
        self.queue.len()
    }

    /// Takes the entries of the next batch off the queue, oldest first, and
    /// notes `now` as the time of the last batch. Nothing happens on an
    /// empty queue.
    pub fn take_batch(&mut self, now: u64) -> (entries: Vec<QueueEntry>)
        ensures
            final(self)@ == state_after_batch(old(self)@, now),
            entry_views(entries@) == old(self)@.queue.take(batch_len(old(self)@)),
    {
        let ghost queue0 = self@.queue;
        let ghost limit = batch_len(self@);
        let mut entries: Vec<QueueEntry> = Vec::new();
        assert(entry_views(entries@) =~= queue0.take(0));
        if self.queue.len() == 0 {
            return entries;
        }
        loop
            invariant_except_break
                entries@.len() == 0 || entries@.len() < self.max_batch_size,
            invariant
                queue0 == old(self)@.queue,
                queue0.len() > 0,
                limit == batch_len(old(self)@),
                self.max_batch_size == old(self).max_batch_size,
                self.batch_timeout_secs == old(self).batch_timeout_secs,
                self.last_batch_time == old(self).last_batch_time,
                entries@.len() <= limit,
                self.queue@.len() + entries@.len() == queue0.len(),
                entry_views(entries@) == queue0.take(entries@.len() as int),
                entry_views(self.queue@) == queue0.subrange(
                    entries@.len() as int,
                    queue0.len() as int,
                ),
            ensures
                entries@.len() == limit,
            decreases limit - entries@.len(),
        {
            let ghost taken = entries@.len() as int;
            let ghost rest = self.queue@;
            match self.queue.pop_front() {
                Some(entry) => {
                    let ghost entries_before = entries@;
                    proof {
                        assert(entry@ == entry_views(rest)[0]);
                        assert(entry@ == queue0[taken]);
                        assert forall|k: int| 0 <= k < self.queue@.len() implies entry_views(
                            self.queue@,
                        )[k] == queue0[taken + 1 + k] by {
                            assert(self.queue@[k] == rest[k + 1]);
                            assert(entry_views(rest)[k + 1] == queue0[taken + k + 1]);
                        }
                        assert(entry_views(self.queue@) =~= queue0.subrange(
                            taken + 1,
                            queue0.len() as int,
                        ));
                    }
                    entries.push(entry);
                    proof {
                        assert forall|k: int| 0 <= k < taken + 1 implies entry_views(entries@)[k]
                            == queue0[k] by {
                            if k < taken {
                                assert(entry_views(entries_before)[k] == queue0.take(taken)[k]);
                            }
                        }
                        assert(entry_views(entries@) =~= queue0.take(taken + 1));
                    }
                    if entries.len() >= self.max_batch_size {
                        break ;
                    }
                },
                None => {
                    proof {
                        assert(entry_views(rest).len() == 0);
                    }
                    break ;
                },
            }
        }
        self.last_batch_time = now;
        entries
    }

    /// Takes the next batch off the queue and writes its words as JSON text.
    /// Nothing happens on an empty queue. Where the text cannot be written
    /// the entries are dropped and no batch is handed out.
    pub fn trigger_batch_validation(&mut self, msg: TriggerBatchValidation, now: u64) -> (r: Option<
        Batch,
    >)
        ensures
            final(self)@ == state_after_batch(old(self)@, now),
            match r {
                Some(batch) => {
                    &&& old(self)@.queue.len() > 0
                    &&& entry_views(batch.entries@) == old(self)@.queue.take(batch_len(old(self)@))
                    &&& word_list_json(entry_words(entry_views(batch.entries@))) == Some(
                        batch.words_json@,
                    )
                },
                None => old(self)@.queue.len() == 0 || word_list_json(
                    entry_words(old(self)@.queue.take(batch_len(old(self)@))),
                ) is None,
            },
    {
        let entries = self.take_batch(now);
        if entries.len() == 0 {
            return None;
        }
        let words = words_of(&entries);
        match words_to_json(&words) {
            Ok(words_json) => Some(Batch { entries, words_json }),
            Err(_) => None,
        }
    }
}

/// The words of a list of entries, in their order.
pub fn words_of(entries: &Vec<QueueEntry>) -> (words: Vec<String>)
    ensures
        string_views(words@) == entry_words(entry_views(entries@)),
{
    let mut words: Vec<String> = Vec::new();
    let mut i: usize = 0;
    while i < entries.len()
        invariant
            i <= entries.len(),
            words@.len() == i,
            forall|k: int| 0 <= k < i ==> words@[k]@ == entries@[k].word@,
        decreases entries.len() - i,
    {
        words.push(entries[i].word.clone());
        i += 1;
    }
    assert(string_views(words@) =~= entry_words(entry_views(entries@)));
    words
}

/// What follows for one entry of a batch. A word with a verdict loses its
/// pending mark, is reported to the game state and is shown as accepted or
/// turned down; a word without a verdict is shown as turned down.
pub open spec fn entry_effects(
    entry: QueueEntryView,
    verdicts: Map<Seq<char>, ProperNounVerdict>,
) -> Seq<Effect> {
    if verdicts.contains_key(entry.word) {
        let confirmed = verdicts[entry.word].is_proper_noun;
        seq![
            Effect::Unreact(
                DeleteReaction { message_id: entry.message_id, reaction: EMOJI_QUESTION },
            ),
            Effect::Mark(MarkWordValidity { message_id: entry.message_id, is_valid: confirmed }),
            Effect::React(
                AddReaction {
                    message_id: entry.message_id,
                    reaction: reaction_of(
                        if confirmed {
                            Indication::Success
                        } else {
                            Indication::Failure
                        },
                    ),
                },
            ),
        ]
    } else {
        seq![
            Effect::React(
                AddReaction {
                    message_id: entry.message_id,
                    reaction: reaction_of(Indication::Failure),
                },
            ),
        ]
    }
}

/// What follows for a batch: the effects of its entries, in their order.
pub open spec fn batch_effects(
    entries: Seq<QueueEntryView>,
    verdicts: Map<Seq<char>, ProperNounVerdict>,
) -> Seq<Effect>
    decreases entries.len(),
{
    if entries.len() == 0 {
        Seq::empty()
    } else {
        batch_effects(entries.drop_last(), verdicts) + entry_effects(entries.last(), verdicts)
    }
}

/// Settles a batch with the verdicts at hand: those of the cache and those
/// the service gave. A word without a verdict among them is unresolved.
pub fn resolve_batch(entries: &Vec<QueueEntry>, results: &VerdictMap) -> (effects: Vec<Effect>)
    ensures
        effects@ == batch_effects(entry_views(entries@), response_views(results@)),
{
    let ghost all = entry_views(entries@);
    let ghost verdicts = response_views(results@);
    let mut effects: Vec<Effect> = Vec::new();
    let mut i: usize = 0;
    while i < entries.len()
        invariant
            i <= entries.len(),
            all == entry_views(entries@),
            verdicts == response_views(results@),
            effects@ == batch_effects(all.take(i as int), verdicts),
        decreases entries.len() - i,
    {
        let entry = &entries[i];
        let ghost before = effects@;
        proof {
            assert(all.take(i as int + 1).drop_last() =~= all.take(i as int));
            assert(all[i as int] == entry@);
        }
        match results.get(entry.word.as_str()) {
            Some(response) => {
                let is_valid = response.is_proper_noun;
                effects.push(Effect::Unreact(clear_pending_indicator(entry.message_id)));
                effects.push(
                    Effect::Mark(MarkWordValidity { message_id: entry.message_id, is_valid }),
                );
                let indication = if is_valid {
                    Indication::Success
                } else {
                    Indication::Failure
                };
                effects.push(Effect::React(indicate(entry.message_id, indication)));
            },
            None => {
                effects.push(Effect::React(indicate(entry.message_id, Indication::Failure)));
            },
        }
        assert(effects@ =~= before + entry_effects(entry@, verdicts));
        i += 1;
    }
    assert(all.take(i as int) =~= all);
    effects
}

/// When a batch is due: at once when the queue has reached the batch size,
/// whatever the clock reads; otherwise exactly when a word waits and the
/// clock reads more than the timeout past the last batch.
pub proof fn lemma_batch_due(s: SchedulerView, now: u64)
    ensures
        s.queue.len() >= s.max_batch_size ==> batch_due(s, now),
        s.queue.len() < s.max_batch_size ==> (batch_due(s, now) <==> s.queue.len() > 0 && now
            > s.last_batch_time + s.batch_timeout_secs),
{
}

/// A batch taken from a queue where words wait holds at least one word and
/// no more than the batch size allows beyond that; it is the front of the
/// queue, and the rest of the queue stays in order.
pub proof fn lemma_batch_is_front_of_queue(s: SchedulerView, now: u64)
    requires
        s.queue.len() > 0,
    ensures
        1 <= batch_len(s) <= s.queue.len(),
        s.max_batch_size > 0 ==> batch_len(s) <= s.max_batch_size,
        s.queue == s.queue.take(batch_len(s)) + state_after_batch(s, now).queue,
        state_after_batch(s, now).last_batch_time == now,
{
    assert(s.queue =~= s.queue.take(batch_len(s)) + state_after_batch(s, now).queue);
}

} // verus!
