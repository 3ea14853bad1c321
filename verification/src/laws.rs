//! Laws that relate several store operations, proved once and for all over
//! the stores' ghost contents.

use vstd::prelude::*;
use crate::app_error::{TodoId, UnixTime};
use crate::query::QueryV;
use crate::result_limit::resolve_limit;
use crate::todos::{
    add_post, contains_id, idx_of, ids_distinct, lemma_filter_ext, search_post, store_inv,
    update_modified, updated_todo, Status, TodoV, UpdateTodoV,
};

verus! {

/// Two successful `add` calls in sequence return records with distinct
/// identifiers: the first record's identifier is in the store the second
/// call starts from, and the second call's identifier is not.
pub proof fn lemma_add_ids_distinct(
    s0: Seq<TodoV>,
    s1: Seq<TodoV>,
    s2: Seq<TodoV>,
    t1: TodoV,
    t2: TodoV,
)
    requires
        add_post(s0, s1, t1),
        add_post(s1, s2, t2),
    ensures
        t1.id != t2.id,
{
    assert(s1[s0.len() as int] == t1);
    assert(contains_id(s1, t1.id));
}

/// A record returned by a successful `add` is exactly what `get` then finds
/// under its identifier.
pub proof fn lemma_add_get_roundtrip(pre: Seq<TodoV>, post: Seq<TodoV>, t: TodoV)
    requires
        store_inv(pre),
        add_post(pre, post, t),
    ensures
        contains_id(post, t.id),
        post[idx_of(post, t.id)] == t,
{
    assert(post[pre.len() as int] == t);
    assert(contains_id(post, t.id));
    assert(ids_distinct(post)) by {
        assert forall|a: int, b: int| 0 <= a < b < post.len() implies post[a].id != post[b].id by {
            if b == post.len() - 1 {
                assert(post[a] == pre[a]);
            } else {
                assert(post[a] == pre[a]);
                assert(post[b] == pre[b]);
            }
        }
    }
    let j = idx_of(post, t.id);
    assert(0 <= j < post.len() && post[j].id == t.id);
    if j != pre.len() as int {
        assert(post[j] == pre[j]);
        assert(contains_id(pre, t.id));
    }
}

/// After an update is applied at index `idx_of(pre, id)`, `get` under that
/// identifier finds exactly the record the update returned.
pub proof fn lemma_update_get_roundtrip(
    pre: Seq<TodoV>,
    post: Seq<TodoV>,
    id: TodoId,
    res: TodoV,
)
    requires
        store_inv(pre),
        contains_id(pre, id),
        res.id == pre[idx_of(pre, id)].id,
        post == pre.update(idx_of(pre, id), res),
    ensures
        contains_id(post, id),
        post[idx_of(post, id)] == res,
{
    let i = idx_of(pre, id);
    assert(0 <= i < pre.len() && pre[i].id == id);
    assert(post[i] == res);
    assert(contains_id(post, id));
    let j = idx_of(post, id);
    assert(0 <= j < post.len() && post[j].id == id);
    if j != i {
        assert(post[j] == pre[j]);
    }
}

/// The update stamp advances strictly when a value changed and the clock
/// has moved past it, and the record is untouched when no value changed.
pub proof fn lemma_update_stamp(t: TodoV, u: UpdateTodoV, dlv: Option<UnixTime>, now: UnixTime)
    ensures
        update_modified(t, u, dlv) && now > t.updated_timestamp ==> updated_todo(
            t,
            u,
            dlv,
            now,
        ).updated_timestamp > t.updated_timestamp,
        !update_modified(t, u, dlv) ==> updated_todo(t, u, dlv, now) == t,
{
}

/// A sequence whose records all pass a predicate is left whole by a filter
/// on that predicate.
proof fn lemma_filter_fixpoint(s: Seq<TodoV>, pred: spec_fn(TodoV) -> bool)
    requires
        forall|i: int| 0 <= i < s.len() ==> pred(#[trigger] s[i]),
    ensures
        s.filter(pred) == s,
    decreases s.len(),
{
    reveal(Seq::filter);
    if s.len() > 0 {
        let d = s.drop_last();
        lemma_filter_fixpoint(d, pred);
        assert(s =~= d.push(s.last()));
    }
}

/// A filter keeps exactly what passes: the removed count equals the count
/// of records failing the predicate.
proof fn lemma_filter_split(s: Seq<TodoV>, pred: spec_fn(TodoV) -> bool)
    ensures
        s.filter(pred).len() + s.filter(|t: TodoV| !pred(t)).len() == s.len(),
    decreases s.len(),
{
    reveal(Seq::filter);
    if s.len() > 0 {
        lemma_filter_split(s.drop_last(), pred);
    }
}

/// Deleting by one status removes exactly the records of that status, and
/// an immediate second deletion removes nothing: the survivors of the first
/// pass all still pass the filter.
pub proof fn lemma_delete_by_status_drains(s: Seq<TodoV>, st: Status)
    ensures
        s.len() - s.filter(|t: TodoV| t.status != st).len() == s.filter(
            |t: TodoV| t.status == st,
        ).len(),
        s.filter(|t: TodoV| t.status != st).filter(|t: TodoV| t.status != st) == s.filter(
            |t: TodoV| t.status != st,
        ),
{
    let keep = |t: TodoV| t.status != st;
    lemma_filter_split(s, keep);
    lemma_filter_ext(s, |t: TodoV| !keep(t), |t: TodoV| t.status == st);
    broadcast use vstd::seq_lib::group_filter_ensures;

    lemma_filter_fixpoint(s.filter(keep), keep);
}


/// A search result never exceeds the resolved cap: at most the default of
/// ten when no cap is given or the cap is below one, and at most the fixed
/// maximum of one hundred however large the cap.
pub proof fn lemma_search_result_cap(s: Seq<TodoV>, q: QueryV, rv: Seq<TodoV>)
    requires
        search_post(s, q, rv),
    ensures
        rv.len() <= resolve_limit(q.limit),
        rv.len() <= 100,
        q.limit is None ==> rv.len() <= 10,
        q.limit matches Some(c) ==> (c < 1 ==> rv.len() <= 10),
{
}

} // verus!
