use vstd::prelude::*;

use crate::event::HistoryEvent;
use crate::extract::{open_at, tokens, tokens_upto};
use crate::reconcile::{replay, replay_from, step, SnapshotMap};
use crate::resolve::{known_in, resolved, unknown_in, unresolved};

verus! {

/// Event `i` of `es` is the one whose snapshot post `p` ends with: it is usable
/// for `p`, no usable event for `p` is later, and every usable event for `p`
/// before it is strictly earlier.
pub open spec fn is_winner(es: Seq<HistoryEvent>, p: i32, i: int) -> bool {
    &&& 0 <= i < es.len()
    &&& es[i].is_usable_for(p)
    &&& forall|j: int|
        0 <= j < es.len() && #[trigger] es[j].is_usable_for(p) ==> !es[j].time().spec_is_after(
            es[i].time(),
        )
    &&& forall|j: int|
        0 <= j < i && #[trigger] es[j].is_usable_for(p) ==> es[i].time().spec_is_after(
            es[j].time(),
        )
}

/// A post has a snapshot exactly when one of the events is usable for it; the
/// snapshot then holds the time and text of the latest usable event, and of
/// several usable events that share the latest time, of the one that came first.
pub proof fn latest_event_wins(es: Seq<HistoryEvent>, p: i32)
    ensures
        replay(es).contains_key(p) <==> exists|i: int| 0 <= i < es.len() && #[trigger] es[i].is_usable_for(p),
        replay(es).contains_key(p) ==> exists|i: int|
            #[trigger] is_winner(es, p, i) && replay(es)[p] == (es[i].time(), es[i].text_view()),
    decreases es.len(),
{
    if es.len() > 0 {
        let prev = es.drop_last();
        let e = es.last();
        let n = es.len() - 1;
        latest_event_wins(prev, p);
        let m = replay(prev);
        assert(replay(es) == step(m, e));
        assert forall|j: int| 0 <= j < n implies es[j] == #[trigger] prev[j] by {}
        if m.contains_key(p) {
            let i = choose|i: int| #[trigger] is_winner(prev, p, i) && m[p] == (prev[i].time(), prev[i].text_view());
            assert(es[i] == prev[i]);
            if e.is_usable_for(p) && e.time().spec_is_after(m[p].0) {
                assert forall|j: int| 0 <= j < n && #[trigger] es[j].is_usable_for(p) implies e.time().spec_is_after(es[j].time()) by {
                    assert(prev[j].is_usable_for(p));
                    assert(!prev[j].time().spec_is_after(prev[i].time()));
                }
                assert(is_winner(es, p, n));
            } else {
                assert forall|j: int| 0 <= j < es.len() && #[trigger] es[j].is_usable_for(p) implies !es[j].time().spec_is_after(es[i].time()) by {
                    if j < n {
                        assert(prev[j].is_usable_for(p));
                    }
                }
                assert forall|j: int| 0 <= j < i && #[trigger] es[j].is_usable_for(p) implies es[i].time().spec_is_after(es[j].time()) by {
                    assert(prev[j].is_usable_for(p));
                }
                assert(is_winner(es, p, i));
            }
        } else if e.is_usable_for(p) {
            assert forall|j: int| 0 <= j < n implies !#[trigger] es[j].is_usable_for(p) by {
                assert(es[j] == prev[j]);
            }
            assert(is_winner(es, p, n));
        } else {
            assert forall|i: int| 0 <= i < es.len() implies !#[trigger] es[i].is_usable_for(p) by {
                if i < n {
                    assert(es[i] == prev[i]);
                }
            }
        }
    }
}

/// Replaying `a` and then `b` is replaying their concatenation.
pub proof fn replay_concat(m: SnapshotMap, a: Seq<HistoryEvent>, b: Seq<HistoryEvent>)
    ensures
        replay_from(m, a + b) == replay_from(replay_from(m, a), b),
    decreases b.len(),
{
    if b.len() == 0 {
        assert(a + b =~= a);
    } else {
        assert((a + b).drop_last() =~= a + b.drop_last());
        replay_concat(m, a, b.drop_last());
    }
}

/// An event without a creation date or without a text, inserted anywhere among
/// the events, changes no post's snapshot.
pub proof fn incomplete_event_ignored(es: Seq<HistoryEvent>, k: int, e: HistoryEvent)
    requires
        0 <= k <= es.len(),
        e.creation_date is None || e.text is None,
    ensures
        replay(es.insert(k, e)) == replay(es),
{
    let a = es.take(k);
    let b = es.skip(k);
    assert(es.insert(k, e) =~= a.push(e) + b);
    assert(es =~= a + b);
    replay_concat(Map::empty(), a.push(e), b);
    replay_concat(Map::empty(), a, b);
    assert(a.push(e).drop_last() =~= a);
}

/// How many of the tokens `toks` are names of `dir`, compared exactly.
pub open spec fn count_known(toks: Seq<Seq<char>>, dir: Map<Seq<char>, i32>) -> nat
    decreases toks.len(),
{
    if toks.len() == 0 {
        0
    } else {
        count_known(toks.drop_last(), dir) + if dir.contains_key(toks.last()) {
            1nat
        } else {
            0nat
        }
    }
}

proof fn lemma_split_counts(toks: Seq<Seq<char>>, dir: Map<Seq<char>, i32>)
    ensures
        toks.filter(known_in(dir)).len() == count_known(toks, dir),
        toks.filter(known_in(dir)).len() + toks.filter(unknown_in(dir)).len() == toks.len(),
    decreases toks.len(),
{
    reveal(Seq::filter);
    if toks.len() > 0 {
        lemma_split_counts(toks.drop_last(), dir);
    }
}

/// Resolving a post's text gives one row for each token that exactly names a
/// tag of the directory, and each of the other tokens is reported unresolved;
/// both depend on the text and the directory alone.
pub proof fn rows_match_known_tokens(post_id: i32, text: Seq<char>, dir: Map<Seq<char>, i32>)
    ensures
        resolved(post_id, tokens(text), dir).len() == count_known(tokens(text), dir),
        resolved(post_id, tokens(text), dir).len() + unresolved(tokens(text), dir).len()
            == tokens(text).len(),
        forall|i: int|
            0 <= i < resolved(post_id, tokens(text), dir).len() ==> #[trigger] resolved(
                post_id,
                tokens(text),
                dir,
            )[i].post_id == post_id,
{
    lemma_split_counts(tokens(text), dir);
}

proof fn lemma_open_token_has_no_close(s: Seq<char>, n: int)
    requires
        0 <= n <= s.len(),
    ensures
        open_at(s, n) matches Some(a) ==> 0 <= a < n && s[a] == '<' && (forall|k: int|
            a < k < n ==> s[k] != '>'),
    decreases n,
{
    if n > 0 {
        lemma_open_token_has_no_close(s, n - 1);
    }
}

proof fn lemma_tokens_upto_close_free(s: Seq<char>, n: int)
    requires
        0 <= n <= s.len(),
    ensures
        forall|i: int, k: int|
            0 <= i < tokens_upto(s, n).len() && 0 <= k < tokens_upto(s, n)[i].len()
                ==> #[trigger] tokens_upto(s, n)[i][k] != '>',
    decreases n,
{
    if n > 0 {
        lemma_tokens_upto_close_free(s, n - 1);
        lemma_open_token_has_no_close(s, n - 1);
        let before = tokens_upto(s, n - 1);
        let now = tokens_upto(s, n);
        assert forall|i: int, k: int| 0 <= i < now.len() && 0 <= k < now[i].len() implies #[trigger] now[i][k] != '>' by {
            if i < before.len() {
                assert(now[i] == before[i]);
                assert(before[i][k] != '>');
            } else {
                let a = open_at(s, n - 1)->0;
                assert(now[i] == s.subrange(a + 1, n - 1));
                assert(now[i][k] == s[a + 1 + k]);
            }
        }
    }
}

/// No token holds a `>`: each token ends at the first `>` after its `<`.
pub proof fn tokens_hold_no_close(s: Seq<char>)
    ensures
        forall|i: int, k: int|
            0 <= i < tokens(s).len() && 0 <= k < tokens(s)[i].len() ==> #[trigger] tokens(s)[i][k]
                != '>',
{
    lemma_tokens_upto_close_free(s, s.len() as int);
}

} // verus!
