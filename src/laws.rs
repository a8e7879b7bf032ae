//! Properties of the key handler that hold for every state and key.

use vstd::prelude::*;
use crate::key::{KeyCode, KeyInput};
use crate::test::{EventView, TestView, WordView};

verus! {

/// The number of events logged over all of `words`.
pub open spec fn total_events(words: Seq<WordView>) -> nat
    decreases words.len(),
{
    if words.len() == 0 {
        0
    } else {
        total_events(words.drop_last()) + words.last().events.len()
    }
}

/// The state after a sequence of key presses, applied in order.
pub open spec fn apply_keys(t: TestView, keys: Seq<KeyInput>) -> TestView
    decreases keys.len(),
{
    if keys.len() == 0 {
        t
    } else {
        apply_keys(t, keys.drop_last()).apply_key(keys.last())
    }
}

/// Whether `key` types a printable character other than the space.
pub open spec fn is_char_key(key: KeyInput, c: char) -> bool {
    key.code == KeyCode::Char(c) && c != ' ' && !key.spec_is_word_delete()
}

/// Replacing one word changes the total by the difference of its log lengths.
pub proof fn lemma_total_events_update(words: Seq<WordView>, i: int, w: WordView)
    requires
        0 <= i < words.len(),
    ensures
        total_events(words.update(i, w)) + words[i].events.len() == total_events(words)
            + w.events.len(),
    decreases words.len(),
{
    let u = words.update(i, w);
    if i == words.len() - 1 {
        assert(u.drop_last() =~= words.drop_last());
    } else {
        assert(u.drop_last() =~= words.drop_last().update(i, w));
        lemma_total_events_update(words.drop_last(), i, w);
    }
}

/// After a printable character, the new event is judged correct exactly when
/// the progress, which grew by that character, is a prefix of the target.
pub proof fn lemma_typed_char_judged_by_prefix(t: TestView, key: KeyInput, c: char)
    requires
        t.wf(),
        t.words.len() > 0,
        is_char_key(key, c),
    ensures
        ({
            let i = t.current_word as int;
            let w = t.apply_key(key).words[i];
            &&& w.progress == t.words[i].progress.push(c)
            &&& w.events == t.words[i].events.push(
                EventView { key, correct: Some(w.progress.is_prefix_of(w.text)) },
            )
        }),
{
}

/// A key press changes each word's progress by at most one character at
/// the end, or clears it; no target text changes and no word comes or goes.
pub proof fn lemma_progress_moves_by_one(t: TestView, key: KeyInput)
    requires
        t.wf(),
    ensures
        t.apply_key(key).words.len() == t.words.len(),
        forall|i: int|
            0 <= i < t.words.len() ==> {
                let p0 = #[trigger] t.words[i].progress;
                let p1 = t.apply_key(key).words[i].progress;
                &&& t.apply_key(key).words[i].text == t.words[i].text
                &&& p1 == p0 || p1.len() == 0 || (p0.len() > 0 && p1 == p0.drop_last()) || (
                p1.len() == p0.len() + 1 && p1.drop_last() == p0)
            },
{
    let s = t.apply_key(key);
    assert forall|i: int| 0 <= i < t.words.len() implies {
        let p0 = #[trigger] t.words[i].progress;
        let p1 = s.words[i].progress;
        &&& s.words[i].text == t.words[i].text
        &&& p1 == p0 || p1.len() == 0 || (p0.len() > 0 && p1 == p0.drop_last()) || (p1.len()
            == p0.len() + 1 && p1.drop_last() == p0)
    } by {
        let p0 = t.words[i].progress;
        if let KeyCode::Char(c) = key.code {
            assert(p0.push(c).drop_last() =~= p0);
            assert(p0.push(' ').drop_last() =~= p0);
        }
    }
}

/// A printable character completes the test exactly when it was typed on the
/// last word and made its progress equal to the target; a test already
/// complete stays complete.
pub proof fn lemma_typing_completes_exactly(t: TestView, key: KeyInput, c: char)
    requires
        t.wf(),
        t.words.len() > 0,
        is_char_key(key, c),
    ensures
        ({
            let i = t.current_word as int;
            let s = t.apply_key(key);
            &&& s.complete == (t.complete || (i == t.last_index() && s.words[i].progress
                == t.words[i].text))
            &&& (s.complete && !t.complete) ==> s.current_word == 0
        }),
{
}

/// The active index stays within the words after any key press, and returns
/// to the first word when the press completes the test.
pub proof fn lemma_index_in_bounds(t: TestView, key: KeyInput)
    requires
        t.wf(),
    ensures
        t.apply_key(key).wf(),
        t.apply_key(key).words.len() == t.words.len(),
        (!t.complete && t.apply_key(key).complete) ==> t.apply_key(key).current_word == 0,
{
}

/// From a well-formed state, every sequence of key presses keeps the active
/// index within the words.
pub proof fn lemma_index_in_bounds_always(t: TestView, keys: Seq<KeyInput>)
    requires
        t.wf(),
    ensures
        apply_keys(t, keys).wf(),
        apply_keys(t, keys).words.len() == t.words.len(),
    decreases keys.len(),
{
    if keys.len() > 0 {
        lemma_index_in_bounds_always(t, keys.drop_last());
        lemma_index_in_bounds(apply_keys(t, keys.drop_last()), keys.last());
    }
}

/// A key press leaves the words as they were, or replaces one of them by a
/// word that differs in its progress and one more event.
pub proof fn lemma_step_logs_at_most_one(t: TestView, key: KeyInput)
    requires
        t.wf(),
    ensures
        t.apply_key(key).words == t.words || exists|j: int, e: EventView, p: Seq<char>|
            0 <= j < t.words.len() && t.apply_key(key).words == t.words.update(
                j,
                #[trigger] t.words[j].record(e.key, e.correct).with_progress(p),
            ),
{
    let s = t.apply_key(key);
    if s.words != t.words {
        let j = if key.spec_is_word_delete() && t.active().progress.len() == 0 {
            t.retreat().current_word as int
        } else {
            t.current_word as int
        };
        let e = s.words[j].events.last();
        let p = s.words[j].progress;
        assert(s.words == t.words.update(j, t.words[j].record(e.key, e.correct).with_progress(p)));
    }
}

/// Logs only grow: a key press keeps every logged event, and adds at most
/// one event over all the words.
pub proof fn lemma_events_append_only(t: TestView, key: KeyInput)
    requires
        t.wf(),
    ensures
        forall|i: int|
            0 <= i < t.words.len() ==> #[trigger] t.words[i].events.is_prefix_of(
                t.apply_key(key).words[i].events,
            ),
        total_events(t.apply_key(key).words) == total_events(t.words) || total_events(
            t.apply_key(key).words,
        ) == total_events(t.words) + 1,
{
    let s = t.apply_key(key);
    lemma_step_logs_at_most_one(t, key);
    if s.words != t.words {
        let (j, e, p) = choose|j: int, e: EventView, p: Seq<char>|
            0 <= j < t.words.len() && s.words == t.words.update(
                j,
                #[trigger] t.words[j].record(e.key, e.correct).with_progress(p),
            );
        let w = t.words[j].record(e.key, e.correct).with_progress(p);
        lemma_total_events_update(t.words, j, w);
        assert forall|i: int| 0 <= i < t.words.len() implies #[trigger] t.words[i].events.is_prefix_of(
            s.words[i].events,
        ) by {
            assert(s.words[i].events.subrange(0, t.words[i].events.len() as int) =~= t.words[i].events);
        }
    } else {
        assert forall|i: int| 0 <= i < t.words.len() implies #[trigger] t.words[i].events.is_prefix_of(
            s.words[i].events,
        ) by {
            assert(s.words[i].events.subrange(0, t.words[i].events.len() as int) =~= t.words[i].events);
        }
    }
}

} // verus!
