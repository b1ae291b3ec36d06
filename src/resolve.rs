use vstd::prelude::*;

use crate::directory::TagDirectory;
use crate::extract::{extract, tokens};

verus! {

/// One row of the destination table: post `post_id` carries tag `tag_id`.
#[derive(Clone, Copy, Debug, PartialEq, Eq, Structural)]
pub struct Association {
    pub post_id: i32,
    pub tag_id: i32,
}

/// What resolving one post's tag text gave.
pub struct Resolution {
    /// One row per token that names a known tag, in token order, repeats kept.
    pub associations: Vec<Association>,
    /// The tokens that name no known tag, in token order.
    pub unresolved: Vec<String>,
}

/// Whether a token is a name of `dir`.
pub open spec fn known_in(dir: Map<Seq<char>, i32>) -> spec_fn(Seq<char>) -> bool {
    |t: Seq<char>| dir.contains_key(t)
}

/// Whether a token is no name of `dir`.
pub open spec fn unknown_in(dir: Map<Seq<char>, i32>) -> spec_fn(Seq<char>) -> bool {
    |t: Seq<char>| !dir.contains_key(t)
}

/// The row that a known token gives for post `post_id`.
pub open spec fn row_for(post_id: i32, dir: Map<Seq<char>, i32>) -> spec_fn(Seq<char>) -> Association {
    |t: Seq<char>| Association { post_id, tag_id: dir[t] }
}

/// The rows for post `post_id` from the tokens `toks`: one per token that is a
/// name of `dir`, in order.
pub open spec fn resolved(post_id: i32, toks: Seq<Seq<char>>, dir: Map<Seq<char>, i32>) -> Seq<
    Association,
> {
    toks.filter(known_in(dir)).map_values(row_for(post_id, dir))
}

/// The tokens of `toks` that are no name of `dir`, in order.
pub open spec fn unresolved(toks: Seq<Seq<char>>, dir: Map<Seq<char>, i32>) -> Seq<Seq<char>> {
    toks.filter(unknown_in(dir))
}

proof fn lemma_filter_push<A>(s: Seq<A>, x: A, pred: spec_fn(A) -> bool)
    ensures
        s.push(x).filter(pred) == (if pred(x) {
            s.filter(pred).push(x)
        } else {
            s.filter(pred)
        }),
{
    reveal(Seq::filter);
    assert(s.push(x).drop_last() =~= s);
}

/// Resolves every tag token of `text` for post `post_id` against `dir`.
pub fn resolve_post(post_id: i32, text: &str, dir: &TagDirectory) -> (r: Resolution)
    requires
        dir.wf(),
    ensures
        r.associations@ == resolved(post_id, tokens(text@), dir@),
        r.unresolved@.map_values(|t: String| t@) == unresolved(tokens(text@), dir@),
{
    let toks = extract(text);
    let ghost ts = tokens(text@);
    let mut associations: Vec<Association> = Vec::new();
    let mut missing: Vec<String> = Vec::new();
    let mut i: usize = 0;
    while i < toks.len()
        invariant
            dir.wf(),
            i <= toks.len(),
            toks@.map_values(|t: String| t@) == ts,
            associations@ == resolved(post_id, ts.take(i as int), dir@),
            missing@.map_values(|t: String| t@) == unresolved(ts.take(i as int), dir@),
        decreases toks.len() - i,
    {
        let ghost done = ts.take(i as int);
        let ghost t = ts[i as int];
        assert(toks@[i as int]@ == t);
        assert(ts.take(i + 1) =~= done.push(t));
        proof {
            lemma_filter_push(done, t, known_in(dir@));
            lemma_filter_push(done, t, unknown_in(dir@));
        }
        match dir.lookup(&toks[i]) {
            Some(tag_id) => {
                assert(done.filter(known_in(dir@)).push(t).map_values(row_for(post_id, dir@))
                    =~= done.filter(known_in(dir@)).map_values(row_for(post_id, dir@)).push(
                    Association { post_id, tag_id },
                ));
                associations.push(Association { post_id, tag_id });
            },
            None => {
                let token = toks[i].clone();
                assert(missing@.push(token).map_values(|t: String| t@) =~= missing@.map_values(
                    |t: String| t@,
                ).push(t));
                missing.push(token);
            },
        }
        i += 1;
    }
    assert(ts.take(toks.len() as int) =~= ts);
    Resolution { associations, unresolved: missing }
}

} // verus!
