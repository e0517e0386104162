use vstd::prelude::*;
use vstd::multiset::Multiset;
use crate::time::{Timestamp, earlier, is_earlier};

verus! {

/// What a caller hands in to create or overwrite a prompt: tags are one
/// string, separated by white space.
#[derive(Clone, Debug)]
pub struct PromptInput {
    pub title: String,
    pub content: String,
    pub tags: String,
}

/// A stored prompt as it is read back.
#[derive(Clone, Debug)]
pub struct Prompt {
    pub id: i64,
    pub title: String,
    pub content: String,
    pub tags: Vec<String>,
    pub created_at: Timestamp,
    pub updated_at: Timestamp,
    pub last_used: Option<Timestamp>,
    pub sort_order: Option<i64>,
}

/// Ascending by explicit rank; a missing rank comes first.
pub open spec fn rank_lt(a: Option<i64>, b: Option<i64>) -> bool {
    match (a, b) {
        (None, Some(_)) => true,
        (Some(x), Some(y)) => x < y,
        _ => false,
    }
}

/// Most recently used first; never used comes last.
pub open spec fn used_first(a: Option<Timestamp>, b: Option<Timestamp>) -> bool {
    match (a, b) {
        (Some(_), None) => true,
        (Some(x), Some(y)) => earlier(y, x),
        _ => false,
    }
}

/// `a` is listed strictly before `b`: by rank ascending, then by last use
/// descending with never-used last, then by creation time descending.
pub open spec fn before(a: Prompt, b: Prompt) -> bool {
    rank_lt(a.sort_order, b.sort_order) || (a.sort_order == b.sort_order && (used_first(
        a.last_used,
        b.last_used,
    ) || (a.last_used == b.last_used && earlier(b.created_at, a.created_at))))
}

/// No prompt of `s` is listed strictly before one that precedes it in `s`.
pub open spec fn sorted(s: Seq<Prompt>) -> bool {
    forall|i: int, j: int| 0 <= i < j < s.len() ==> !before(#[trigger] s[j], #[trigger] s[i])
}

pub proof fn lemma_before_strict_order(a: Prompt, b: Prompt, c: Prompt)
    ensures
        !before(a, a),
        before(a, b) ==> !before(b, a),
        before(a, b) && before(b, c) ==> before(a, c),
{
}

/// Among prompts of equal rank, a listing puts the more recently used one
/// first, and a used one before one never used.
pub proof fn lemma_recent_first(s: Seq<Prompt>, i: int, j: int)
    requires
        sorted(s),
        0 <= i < s.len(),
        0 <= j < s.len(),
        s[i].sort_order == s[j].sort_order,
        used_first(s[i].last_used, s[j].last_used),
    ensures
        i < j,
{
    if j < i {
        assert(!before(s[i], s[j]));
    }
}

/// Prompts that carry their positions as ranks are already in listing order.
pub proof fn lemma_ranked_in_order(s: Seq<Prompt>)
    requires
        forall|i: int| 0 <= i < s.len() ==> ((#[trigger] s[i]).sort_order matches Some(r) && r == i),
    ensures
        sorted(s),
{
    assert forall|i: int, j: int| 0 <= i < j < s.len() implies !before(
        #[trigger] s[j],
        #[trigger] s[i],
    ) by {
        assert(s[i].sort_order == Some(i as i64));
        assert(s[j].sort_order == Some(j as i64));
    }
}

pub fn prompt_before(a: &Prompt, b: &Prompt) -> (r: bool)
    ensures
        r == before(*a, *b),
{
    let rank_lt = match (a.sort_order, b.sort_order) {
        (None, Some(_)) => true,
        (Some(x), Some(y)) => x < y,
        _ => false,
    };
    let same_rank = a.sort_order == b.sort_order;
    let used_first = match (a.last_used, b.last_used) {
        (Some(_), None) => true,
        (Some(x), Some(y)) => is_earlier(y, x),
        _ => false,
    };
    let same_use = a.last_used == b.last_used;
    rank_lt || (same_rank && (used_first || (same_use && is_earlier(b.created_at, a.created_at))))
}

/// Puts `v` in listing order. Prompts that tie keep their relative order, so
/// a sequence that is already in order comes back as it was.
pub fn sort_prompts(v: Vec<Prompt>) -> (r: Vec<Prompt>)
    ensures
        sorted(r@),
        r@.to_multiset() == v@.to_multiset(),
        sorted(v@) ==> r@ == v@,
{
    broadcast use vstd::seq_lib::group_to_multiset_ensures;

    let ghost orig = v@;
    let mut rest = v;
    let mut out: Vec<Prompt> = Vec::new();
    let ghost done: nat = 0;
    while rest.len() > 0
        invariant
            done + rest@.len() == orig.len(),
            rest@ == orig.skip(done as int),
            sorted(out@),
            out@.to_multiset().add(rest@.to_multiset()) == orig.to_multiset(),
            sorted(orig) ==> out@ == orig.take(done as int),
        decreases rest@.len(),
    {
        let ghost old_rest = rest@;
        let x = rest.remove(0);
        let mut p: usize = 0;
        while p < out.len() && !prompt_before(&x, &out[p])
            invariant
                p <= out@.len(),
                forall|k: int| 0 <= k < p ==> !before(x, #[trigger] out@[k]),
            decreases out@.len() - p,
        {
            p = p + 1;
        }
        proof {
            if sorted(orig) {
                assert forall|k: int| 0 <= k < out@.len() implies !before(x, #[trigger] out@[k]) by {
                    assert(out@[k] == orig[k]);
                    assert(x == orig[done as int]);
                }
            }
            assert forall|k: int| p <= k < out@.len() implies !before(#[trigger] out@[k], x) by {
                lemma_before_strict_order(out@[k], x, out@[p as int]);
                if k > p {
                    assert(!before(out@[k], out@[p as int]));
                }
            }
        }
        let ghost prev = out@;
        out.insert(p, x);
        proof {
            assert(out@.remove(p as int) =~= prev);
            assert(out@[p as int] == x);
            out@.to_multiset_ensures();
            old_rest.to_multiset_ensures();
            assert(old_rest.remove(0) =~= rest@);
            assert(old_rest[0] == x);
            assert(old_rest.contains(x));
            assert(old_rest.to_multiset() =~= rest@.to_multiset().insert(x));
            assert(out@.remove(p as int).to_multiset() == out@.to_multiset().remove(out@[p as int]));
            assert(out@.contains(x));
            assert(out@.to_multiset().count(x) > 0);
            assert(out@.to_multiset() =~= prev.to_multiset().insert(x));
            assert(orig.skip(done as int).drop_first() =~= orig.skip(done + 1 as int));
            assert(orig.skip(done as int) =~= rest@.insert(0, x));
            assert(rest@.insert(0, x).remove(0) =~= rest@);
            assert forall|i: int, j: int| 0 <= i < j < out@.len() implies !before(
                #[trigger] out@[j],
                #[trigger] out@[i],
            ) by {
                if i < p && j > p {
                    assert(out@[i] == prev[i]);
                    assert(out@[j] == prev[j - 1]);
                } else if i < p && j == p {
                    assert(out@[i] == prev[i]);
                } else if i == p {
                    assert(out@[j] == prev[j - 1]);
                } else if j < p {
                    assert(out@[i] == prev[i] && out@[j] == prev[j]);
                } else {
                    assert(out@[i] == prev[i - 1] && out@[j] == prev[j - 1]);
                }
            }
            if sorted(orig) {
                assert(p == prev.len());
                assert(out@ =~= orig.take(done + 1 as int));
            }
            done = done + 1;
        }
    }
    proof {
        assert(rest@.to_multiset() =~= Multiset::empty());
        assert(out@.to_multiset().add(Multiset::empty()) =~= out@.to_multiset());
        if sorted(orig) {
            assert(orig.take(done as int) =~= orig);
        }
    }
    out
}

} // verus!
