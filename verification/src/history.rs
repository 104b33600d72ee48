//! The clipboard history kept by the daemon: newest clipping first, each
//! text at most once, at most `remember_clippings` of them.

use std::collections::VecDeque;
use vstd::prelude::*;
use vstd::utf8::*;
use crate::clipping::{Clipping, storable};
use crate::compression::round_trip_limit;
use crate::config::Config;
use crate::text::{lemma_trimmed_len, trim, trimmed};

verus! {

/// The first index at or after `i` whose clipping holds `t`, or `h.len()`.
pub open spec fn first_from(h: Seq<Clipping>, t: Seq<char>, i: int) -> int
    decreases h.len() - i,
{
    if i < 0 || i >= h.len() {
        h.len() as int
    } else if h[i].text() == Some(t) {
        i
    } else {
        first_from(h, t, i + 1)
    }
}

/// The index of the first clipping that holds `t`, or `h.len()` if none does.
pub open spec fn first_holding(h: Seq<Clipping>, t: Seq<char>) -> int {
    first_from(h, t, 0)
}

/// `h` without the first clipping that holds `t`.
pub open spec fn without_text(h: Seq<Clipping>, t: Seq<char>) -> Seq<Clipping> {
    let i = first_holding(h, t);
    if i < h.len() {
        h.remove(i)
    } else {
        h
    }
}

/// `n` cut down to `limit`.
pub open spec fn capped(n: int, limit: int) -> int {
    if n > limit {
        limit
    } else {
        n
    }
}

/// When a new clipboard text leaves the history as it is: recording is off,
/// the text is only whitespace, or the newest clipping already holds it.
pub open spec fn skips_recording(h: Seq<Clipping>, config: Config, text: Seq<char>) -> bool {
    ||| !config.record_history
    ||| trimmed(text).len() == 0
    ||| (h.len() > 0 && h[0].text() == Some(trimmed(text)))
}

/// No text is held by two clippings.
pub open spec fn distinct_texts(h: Seq<Clipping>) -> bool {
    forall|i: int, j: int|
        0 <= i < j < h.len() && (#[trigger] h[i].text()) is Some ==> h[i].text() != (
        #[trigger] h[j].text())
}

/// The history after `text` was recorded into `h`: a new clipping for the
/// trimmed text in front, the older clipping of the same text removed, and
/// the oldest ones dropped beyond `remember`.
pub open spec fn records(
    after: Seq<Clipping>,
    h: Seq<Clipping>,
    remember: usize,
    text: Seq<char>,
) -> bool {
    let t = trimmed(text);
    let rest = without_text(h, t);
    &&& after.len() == capped(rest.len() + 1int, remember as int)
    &&& after.len() > 0 ==> after[0].made_from(t)
    &&& forall|k: int| 1 <= k < after.len() ==> after[k] == rest[k - 1]
}

proof fn lemma_first_from_step(h: Seq<Clipping>, t: Seq<char>, i: int)
    requires
        0 <= i < h.len(),
        h[i].text() != Some(t),
    ensures
        first_from(h, t, i) == first_from(h, t, i + 1),
{
}

proof fn lemma_first_from_bounds(h: Seq<Clipping>, t: Seq<char>, i: int)
    requires
        0 <= i <= h.len(),
    ensures
        i <= first_from(h, t, i) <= h.len(),
        first_from(h, t, i) < h.len() ==> h[first_from(h, t, i)].text() == Some(t),
        forall|k: int| i <= k < first_from(h, t, i) ==> h[k].text() != Some(t),
    decreases h.len() - i,
{
    if i < h.len() && h[i].text() != Some(t) {
        lemma_first_from_bounds(h, t, i + 1);
    }
}

proof fn lemma_without_text_lacks(h: Seq<Clipping>, t: Seq<char>)
    requires
        distinct_texts(h),
    ensures
        forall|k: int| 0 <= k < without_text(h, t).len() ==> without_text(h, t)[k].text() != Some(t),
        distinct_texts(without_text(h, t)),
{
    lemma_first_from_bounds(h, t, 0);
    let i = first_holding(h, t);
    let r = without_text(h, t);
    assert forall|k: int| 0 <= k < r.len() implies r[k].text() != Some(t) by {
        if i < h.len() {
            if k >= i {
                assert(r[k] == h[k + 1]);
                assert(h[i].text() != h[k + 1].text());
            }
        }
    }
    assert forall|a: int, b: int|
        0 <= a < b < r.len() && (#[trigger] r[a].text()) is Some implies r[a].text() != (
        #[trigger] r[b].text()) by {
        if i < h.len() {
            let a2 = if a < i { a } else { a + 1 };
            let b2 = if b < i { b } else { b + 1 };
            assert(r[a] == h[a2] && r[b] == h[b2]);
            assert(h[a2].text() != h[b2].text());
        } else {
            assert(h[a].text() != h[b].text());
        }
    }
}

/// Recording keeps the history free of repeated texts: the new clipping's
/// text replaces the older clipping that held it. (A new clipping whose
/// data do not read back, which `Clipping::new` allows only beyond
/// `round_trip_limit()`, holds no text and repeats none.)
pub proof fn lemma_recording_keeps_texts_distinct(
    after: Seq<Clipping>,
    h: Seq<Clipping>,
    remember: usize,
    text: Seq<char>,
)
    requires
        records(after, h, remember, text),
        after.len() > 0 ==> after[0].text() == Some(trimmed(text)) || after[0].text() is None,
        distinct_texts(h),
    ensures
        distinct_texts(after),
{
    let t = trimmed(text);
    let rest = without_text(h, t);
    lemma_without_text_lacks(h, t);
    assert forall|a: int, b: int|
        0 <= a < b < after.len() && (#[trigger] after[a].text()) is Some implies after[a].text()
        != (#[trigger] after[b].text()) by {
        assert(after[b] == rest[b - 1]);
        if a == 0 {
            assert(rest[b - 1].text() != Some(t));
        } else {
            assert(after[a] == rest[a - 1]);
            assert(rest[a - 1].text() != rest[b - 1].text());
        }
    }
}

/// `capped` is the minimum of a count and a limit.
pub proof fn lemma_capped_is_min(n: int, limit: int)
    ensures
        capped(n, limit) == (if n <= limit { n } else { limit }),
        capped(n, limit) <= n,
        capped(n, limit) <= limit,
{
}

/// `without_text` removes exactly the first clipping that holds `t`, and
/// nothing where none holds it.
pub proof fn lemma_without_text_removes_first(h: Seq<Clipping>, t: Seq<char>)
    ensures
        (forall|k: int| 0 <= k < h.len() ==> h[k].text() != Some(t)) ==> without_text(h, t) == h,
        forall|i: int|
            0 <= i < h.len() && #[trigger] h[i].text() == Some(t) && (forall|k: int|
                0 <= k < i ==> h[k].text() != Some(t)) ==> without_text(h, t) == h.remove(i),
        without_text(h, t).len() == h.len() - (if exists|k: int|
            0 <= k < h.len() && #[trigger] h[k].text() == Some(t) { 1int } else { 0int }),
{
    lemma_first_from_bounds(h, t, 0);
    let f = first_holding(h, t);
    assert forall|i: int|
        0 <= i < h.len() && #[trigger] h[i].text() == Some(t) && (forall|k: int|
            0 <= k < i ==> h[k].text() != Some(t)) implies without_text(h, t) == h.remove(i) by {
        if f < i {
            assert(h[f].text() == Some(t));
        }
        assert(f == i);
    }
    if exists|k: int| 0 <= k < h.len() && #[trigger] h[k].text() == Some(t) {
        let k = choose|k: int| 0 <= k < h.len() && #[trigger] h[k].text() == Some(t);
        assert(f <= k);
    } else {
        if f < h.len() {
            assert(h[f].text() == Some(t));
        }
    }
}

/// A clipboard change is recorded exactly when recording is on, the text
/// is not blank, and the newest clipping does not already hold it.
pub proof fn lemma_skips_recording_exactly(h: Seq<Clipping>, config: Config, text: Seq<char>)
    ensures
        !skips_recording(h, config, text) == (config.record_history && trimmed(text).len() > 0
            && !(h.len() > 0 && h[0].text() == Some(trimmed(text)))),
{
}

/// Whether `c` holds the text `t`.
fn holds(c: &Clipping, t: &String) -> (r: bool)
    ensures
        r == (c.text() == Some(t@)),
{
    match c.decompress() {
        Some(s) => s == *t,
        None => false,
    }
}

/// Records a new clipboard text, as the daemon does on every change of the
/// clipboard. Returns whether the history changed (and so must be saved
/// and the menu rebuilt).
pub fn record_clipboard_text(history: &mut VecDeque<Clipping>, config: &Config, text: &str) -> (changed: bool)
    requires
        storable(text@),
    ensures
        changed == !skips_recording(old(history)@, *config, text@),
        !changed ==> final(history)@ == old(history)@,
        changed ==> records(final(history)@, old(history)@, config.remember_clippings, text@),
        changed && final(history)@.len() > 0 && encode_utf8(trimmed(text@)).len() <= round_trip_limit()
            ==> final(history)@[0].text() == Some(trimmed(text@)),
        changed ==> final(history)@.len() <= config.remember_clippings,
        changed && final(history)@.len() > 0 && encode_utf8(trimmed(text@)).len() <= u32::MAX
            ==> final(history)@[0].text() == Some(trimmed(text@)) || final(history)@[0].text() is None,
        distinct_texts(old(history)@) && encode_utf8(trimmed(text@)).len() <= u32::MAX
            ==> distinct_texts(final(history)@),
        changed == (config.record_history && trimmed(text@).len() > 0 && !(old(history)@.len() > 0
            && old(history)@[0].text() == Some(trimmed(text@)))),
        changed ==> final(history)@.len() == ({
            let n = old(history)@.len() + 1 - (if exists|k: int|
                0 <= k < old(history)@.len() && #[trigger] old(history)@[k].text() == Some(
                    trimmed(text@),
                ) { 1int } else { 0int });
            if n <= config.remember_clippings { n } else { config.remember_clippings as int }
        }),
        changed && config.remember_clippings > 0 && encode_utf8(trimmed(text@)).len()
            <= round_trip_limit() ==> final(history)@[0].text() == Some(trimmed(text@)),
        changed && config.remember_clippings > 0 ==> final(history)@[0].made_from(trimmed(text@)),
        changed && distinct_texts(old(history)@) ==> forall|k: int|
            1 <= k < final(history)@.len() ==> #[trigger] final(history)@[k].text() != Some(
                trimmed(text@),
            ),
        changed ==> forall|k: int|
            1 <= k < final(history)@.len() ==> #[trigger] final(history)@[k] == if forall|j: int|
                0 <= j < k ==> old(history)@[j].text() != Some(trimmed(text@)) {
                old(history)@[k - 1]
            } else {
                old(history)@[k]
            },
{
    if !config.record_history {
        return false;
    }
    let t = trim(text);
    if t.unicode_len() == 0 {
        return false;
    }
    let ts = String::from_str(t);
    if history.len() > 0 && holds(&history[0], &ts) {
        return false;
    }
    let ghost h0 = history@;
    let n = history.len();
    let mut i: usize = 0;
    while i < n && !holds(&history[i], &ts)
        invariant
            history@ == h0,
            n == h0.len(),
            i <= n,
            ts@ == trimmed(text@),
            first_holding(h0, ts@) == first_from(h0, ts@, i as int),
        decreases n - i,
    {
        proof {
            lemma_first_from_step(h0, ts@, i as int);
        }
        i = i + 1;
    }
    if i < n {
        history.remove(i);
    }
    proof {
        lemma_trimmed_len(text@);
    }
    let fresh = Clipping::new(t);
    history.push_front(fresh);
    if history.len() > config.remember_clippings {
        history.truncate(config.remember_clippings);
    }
    proof {
        let t = trimmed(text@);
        lemma_without_text_removes_first(h0, t);
        lemma_capped_is_min(without_text(h0, t).len() + 1int, config.remember_clippings as int);
        if distinct_texts(h0) {
            lemma_without_text_lacks(h0, t);
        }
        lemma_first_from_bounds(h0, t, 0);
        let f = first_holding(h0, t);
        assert forall|k: int| 1 <= k < history@.len() implies #[trigger] history@[k] == if forall|j: int|
            0 <= j < k ==> h0[j].text() != Some(t) {
            h0[k - 1]
        } else {
            h0[k]
        } by {
            if k - 1 < f {
                assert forall|j: int| 0 <= j < k implies h0[j].text() != Some(t) by {}
            } else {
                assert(h0[f].text() == Some(t));
            }
        }
        if distinct_texts(h0) && encode_utf8(trimmed(text@)).len() <= u32::MAX {
            lemma_recording_keeps_texts_distinct(history@, h0, config.remember_clippings, text@);
        }
    }
    true
}


/// Copying the same text twice in a row records it once: right after a
/// recording, the newest clipping holds the text, so the second is skipped.
pub proof fn lemma_repeated_text_is_skipped(
    after: Seq<Clipping>,
    h: Seq<Clipping>,
    config: Config,
    text: Seq<char>,
)
    requires
        records(after, h, config.remember_clippings, text),
        after.len() > 0 ==> after[0].text() == Some(trimmed(text)),
        config.remember_clippings > 0,
    ensures
        skips_recording(after, config, text),
{
}

/// What a reload of the settings asks of the daemon.
pub struct ReloadOutcome {
    /// The settings the daemon keeps from now on.
    pub config: Config,
    /// The history was cleared: save it, save `config` (its flag is off
    /// again) and rebuild the menu.
    pub cleared: bool,
    /// The history was cut to the new limit: save it and rebuild the menu.
    pub truncated: bool,
}

/// Applies freshly loaded settings to the history, as the daemon does when
/// it polls the settings file.
pub fn reload_config(history: &mut VecDeque<Clipping>, new_config: Config) -> (out: ReloadOutcome)
    ensures
        out.cleared == new_config.clear_history_flag,
        out.config == (Config { clear_history_flag: false, ..new_config }),
        ({
            let before = if new_config.clear_history_flag { Seq::<Clipping>::empty() } else { old(history)@ };
            &&& out.truncated == (before.len() > new_config.remember_clippings)
            &&& final(history)@ == before.take(capped(before.len() as int, new_config.remember_clippings as int))
        }),
        final(history)@.len() <= new_config.remember_clippings,
        !out.cleared && !out.truncated ==> final(history)@ == old(history)@,
        new_config.clear_history_flag ==> final(history)@.len() == 0,
        !new_config.clear_history_flag ==> final(history)@.len() == (if old(history)@.len()
            <= new_config.remember_clippings {
            old(history)@.len() as int
        } else {
            new_config.remember_clippings as int
        }),
        !new_config.clear_history_flag ==> forall|k: int|
            0 <= k < final(history)@.len() ==> #[trigger] final(history)@[k] == old(history)@[k],
{
    let mut config = new_config;
    let cleared = config.clear_history_flag;
    if cleared {
        history.clear();
        config.clear_history_flag = false;
    }
    let truncated = history.len() > config.remember_clippings;
    if truncated {
        history.truncate(config.remember_clippings);
    }
    proof {
        assert(history@ =~= history@.take(history@.len() as int));
    }
    ReloadOutcome { config, cleared, truncated }
}

} // verus!
