//! Sort key derivation: maps the requested sort dimension to a comparable
//! key per record. A key is a triple of a primary rank, a text component
//! (the title, for the default dimension) and the record's position, which
//! serves as a deterministic tiebreak. The order on keys is lexicographic.

use vstd::prelude::*;
use crate::app_error::UnixTime;
use crate::calendar::{deadline_in_bounds_def, TS_ABS_BOUND};
use crate::query::QuerySort;
use crate::todos::{Priority, Status, Todo, TodoV};

verus! {

/// High sorts before Medium sorts before Low.
pub open spec fn priority_rank(p: Priority) -> u64 {
    match p {
        Priority::High => 0,
        Priority::Medium => 1,
        Priority::Low => 2,
    }
}

/// InProgress sorts before Backlog sorts before Done.
pub open spec fn status_rank(s: Status) -> u64 {
    match s {
        Status::InProgress => 0,
        Status::Backlog => 1,
        Status::Done => 2,
    }
}

/// Earlier deadlines sort first; a record with no deadline sorts after
/// every record that has one.
pub open spec fn deadline_rank(d: Option<UnixTime>) -> u64 {
    match d {
        Option::Some(ts) => (ts + TS_ABS_BOUND) as u64,
        Option::None => 0xffff_ffff_ffff_ffffu64,
    }
}

/// The ghost content of an executable sort key.
pub open spec fn item_view(i: (u64, String, u64)) -> (u64, Seq<char>, u64) {
    (i.0, i.1@, i.2)
}

/// The key a record sorts by under the given dimension, with its position
/// `idx` as the final tiebreak.
pub open spec fn sort_key_view(sort: Option<QuerySort>, t: TodoV, idx: u64) -> (u64, Seq<char>, u64) {
    match sort {
        Option::Some(QuerySort::Priority) => (priority_rank(t.priority), Seq::<char>::empty(), idx),
        Option::Some(QuerySort::Status) => (status_rank(t.status), Seq::<char>::empty(), idx),
        Option::Some(QuerySort::Deadline) => (deadline_rank(t.deadline), Seq::<char>::empty(), idx),
        Option::None => (0u64, t.title, idx),
    }
}

/// Strict lexicographic order on character sequences, by code point.
pub open spec fn seq_lt(a: Seq<char>, b: Seq<char>) -> bool
    decreases a.len(),
{
    if b.len() == 0 {
        false
    } else if a.len() == 0 {
        true
    } else if (a[0] as int) < (b[0] as int) {
        true
    } else if (a[0] as int) > (b[0] as int) {
        false
    } else {
        seq_lt(a.drop_first(), b.drop_first())
    }
}

pub open spec fn seq_le(a: Seq<char>, b: Seq<char>) -> bool {
    seq_lt(a, b) || a == b
}

/// Strict lexicographic order on key triples.
pub open spec fn key_lt(a: (u64, Seq<char>, u64), b: (u64, Seq<char>, u64)) -> bool {
    if a.0 != b.0 {
        a.0 < b.0
    } else if a.1 != b.1 {
        seq_lt(a.1, b.1)
    } else {
        a.2 < b.2
    }
}

pub open spec fn key_le(a: (u64, Seq<char>, u64), b: (u64, Seq<char>, u64)) -> bool {
    key_lt(a, b) || a == b
}

/// How two records compare in the caller-visible part of the key: the
/// dimension alone, with the position tiebreak ignored.
pub open spec fn dim_le(sort: Option<QuerySort>, t1: TodoV, t2: TodoV) -> bool {
    let a = sort_key_view(sort, t1, 0);
    let b = sort_key_view(sort, t2, 0);
    a.0 < b.0 || (a.0 == b.0 && seq_le(a.1, b.1))
}

pub proof fn lemma_seq_lt_trans(a: Seq<char>, b: Seq<char>, c: Seq<char>)
    requires
        seq_lt(a, b),
        seq_lt(b, c),
    ensures
        seq_lt(a, c),
    decreases a.len(),
{
    if a.len() > 0 && b.len() > 0 && c.len() > 0 && (a[0] as int) == (b[0] as int) && (b[0] as int)
        == (c[0] as int) {
        lemma_seq_lt_trans(a.drop_first(), b.drop_first(), c.drop_first());
    }
}

pub proof fn lemma_seq_lt_total(a: Seq<char>, b: Seq<char>)
    ensures
        seq_lt(a, b) || seq_lt(b, a) || a == b,
    decreases a.len(),
{
    if a.len() == 0 && b.len() == 0 {
        assert(a =~= b);
    } else if a.len() > 0 && b.len() > 0 && (a[0] as int) == (b[0] as int) {
        lemma_seq_lt_total(a.drop_first(), b.drop_first());
        if !seq_lt(a, b) && !seq_lt(b, a) {
            assert(a.drop_first() == b.drop_first());
            assert(a[0] == b[0]);
            assert forall|i: int| 0 <= i < a.len() implies a[i] == b[i] by {
                if i > 0 {
                    assert(a.drop_first()[i - 1] == b.drop_first()[i - 1]);
                }
            }
            assert(a =~= b);
        }
    }
}

pub proof fn lemma_seq_lt_asymm(a: Seq<char>, b: Seq<char>)
    requires
        seq_lt(a, b),
    ensures
        !seq_lt(b, a),
        a != b,
    decreases a.len(),
{
    if a.len() > 0 && b.len() > 0 && (a[0] as int) == (b[0] as int) {
        lemma_seq_lt_asymm(a.drop_first(), b.drop_first());
        if a == b {
            assert(a.drop_first() =~= b.drop_first());
        }
    } else if a == b {
        assert(a.len() == b.len());
    }
}

pub proof fn lemma_key_lt_trans(a: (u64, Seq<char>, u64), b: (u64, Seq<char>, u64), c: (u64, Seq<char>, u64))
    requires
        key_lt(a, b),
        key_lt(b, c),
    ensures
        key_lt(a, c),
{
    if a.0 == b.0 && b.0 == c.0 {
        if a.1 != b.1 && b.1 != c.1 {
            lemma_seq_lt_trans(a.1, b.1, c.1);
            lemma_seq_lt_asymm(a.1, b.1);
            if a.1 == c.1 {
                lemma_seq_lt_asymm(b.1, c.1);
                lemma_seq_lt_trans(a.1, b.1, a.1);
                lemma_seq_lt_asymm(a.1, a.1);
            }
        }
    }
}

pub proof fn lemma_key_le_trans(a: (u64, Seq<char>, u64), b: (u64, Seq<char>, u64), c: (u64, Seq<char>, u64))
    requires
        key_le(a, b),
        key_le(b, c),
    ensures
        key_le(a, c),
{
    if key_lt(a, b) && key_lt(b, c) {
        lemma_key_lt_trans(a, b, c);
    }
}

/// Totality: of two keys, one is at most the other.
pub proof fn lemma_key_total(a: (u64, Seq<char>, u64), b: (u64, Seq<char>, u64))
    ensures
        key_le(a, b) || key_le(b, a),
{
    if a.0 == b.0 {
        lemma_seq_lt_total(a.1, b.1);
        if a.1 == b.1 && a.2 == b.2 {
            assert(a == b);
        }
    }
}

/// The dimension part of the key order follows from the full key order.
pub proof fn lemma_key_le_dim(
    sort: Option<QuerySort>,
    t1: TodoV,
    t2: TodoV,
    i1: u64,
    i2: u64,
)
    requires
        key_le(sort_key_view(sort, t1, i1), sort_key_view(sort, t2, i2)),
    ensures
        dim_le(sort, t1, t2),
{
    let a = sort_key_view(sort, t1, i1);
    let b = sort_key_view(sort, t2, i2);
    let a0 = sort_key_view(sort, t1, 0);
    let b0 = sort_key_view(sort, t2, 0);
    assert(a0.0 == a.0 && a0.1 == a.1);
    assert(b0.0 == b.0 && b0.1 == b.1);
}

fn priority_rank_exec(p: Priority) -> (r: u64)
    ensures
        r == priority_rank(p),
{
    match p {
        Priority::High => 0,
        Priority::Medium => 1,
        Priority::Low => 2,
    }
}

fn status_rank_exec(s: Status) -> (r: u64)
    ensures
        r == status_rank(s),
{
    match s {
        Status::InProgress => 0,
        Status::Backlog => 1,
        Status::Done => 2,
    }
}

fn deadline_rank_exec(d: Option<UnixTime>) -> (r: u64)
    requires
        d matches Some(ts) ==> deadline_in_bounds_def(ts),
    ensures
        r == deadline_rank(d),
{
    match d {
        Some(ts) => (ts + TS_ABS_BOUND) as u64,
        None => u64::MAX,
    }
}

/// Builds the executable sort key of a record at position `idx`.
pub fn sort_key_exec(sort: &Option<QuerySort>, t: &Todo, idx: u64) -> (k: (u64, String, u64))
    requires
        t@.deadline matches Some(d) ==> deadline_in_bounds_def(d),
    ensures
        item_view(k) == sort_key_view(*sort, t@, idx),
{
    match sort {
        Some(QuerySort::Priority) => (priority_rank_exec(t.priority()), String::new(), idx),
        Some(QuerySort::Status) => (status_rank_exec(t.status()), String::new(), idx),
        Some(QuerySort::Deadline) => (deadline_rank_exec(t.deadline()), String::new(), idx),
        None => (0, t.title().clone(), idx),
    }
}

} // verus!
