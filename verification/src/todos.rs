//! The keyed in-memory store of todo records and its record types. Records
//! are created only by `add`, mutated only by `update`, and removed by the
//! delete operations. The store owns its records; operations hand out copies.

use vstd::prelude::*;
use crate::app_error::{AppError, AppResult, TodoId, UnixTime};
use crate::calendar::deadline_in_bounds_def;
use crate::deadline::{deadline_ok, deadline_ts, OptionalDeadlineInput, USER_DATE_TIME_FORMAT};
use crate::heap::{
    heap_contents, heap_into_sorted_vec, heap_push, heap_replace_root_if_less, heap_with_capacity,
    is_max_of,
};
use crate::query::{matches_spec, Query, QuerySort, QueryV};
use crate::result_limit::resolve_limit;
use crate::sort_key::{
    dim_le, item_view, key_le, key_lt, lemma_key_le_dim, lemma_key_le_trans, lemma_key_total,
    sort_key_exec, sort_key_view,
};
use crate::sys::{now_unix, random_id};
use crate::text::trim_spec;
use crate::title::{byte_len, title_ok, Title, MAX_TITLE_LEN};
use vstd::multiset::Multiset;

verus! {

/// Whether an optional raw deadline resolves without error.
pub open spec fn new_deadline_ok(dl: Option<Seq<char>>) -> bool {
    dl matches Some(s) ==> deadline_ok(trim_spec(s))
}

/// The resolved value of an optional raw deadline, assuming it resolves.
pub open spec fn new_deadline_val(dl: Option<Seq<char>>) -> Option<UnixTime> {
    match dl {
        Option::None => Option::None,
        Option::Some(s) => Option::Some(deadline_ts(trim_spec(s)) as UnixTime),
    }
}

/// Workflow state of a record. A search sorted by status orders the states
/// in this declaration order: InProgress, then Backlog, then Done.
#[derive(Clone, Copy, Debug, PartialEq, Eq, Hash, Structural)]
pub enum Status {
    InProgress,
    Backlog,
    Done,
}

/// Importance of a record. A search sorted by priority orders High before
/// Medium before Low.
#[derive(Clone, Copy, Debug, PartialEq, Eq, Hash, Structural)]
pub enum Priority {
    Low,
    Medium,
    High,
}

/// The mathematical content of a stored record.
pub ghost struct TodoV {
    pub id: TodoId,
    pub title: Seq<char>,
    pub priority: Priority,
    pub status: Status,
    pub created_timestamp: UnixTime,
    pub updated_timestamp: UnixTime,
    pub deadline: Option<UnixTime>,
}

/// A stored task record. Only the store constructs these; callers receive
/// copies and read them through the accessors.
#[derive(Debug, PartialEq, Eq, Hash)]
pub struct Todo {
    id: TodoId,
    title: String,
    priority: Priority,
    status: Status,
    created_timestamp: UnixTime,
    updated_timestamp: UnixTime,
    deadline: Option<UnixTime>,
}

impl View for Todo {
    type V = TodoV;

    closed spec fn view(&self) -> TodoV {
        TodoV {
            id: self.id,
            title: self.title@,
            priority: self.priority,
            status: self.status,
            created_timestamp: self.created_timestamp,
            updated_timestamp: self.updated_timestamp,
            deadline: self.deadline,
        }
    }
}

impl Clone for Todo {
    fn clone(&self) -> (r: Self)
        ensures
            r == *self,
    {
        Todo {
            id: self.id,
            title: self.title.clone(),
            priority: self.priority,
            status: self.status,
            created_timestamp: self.created_timestamp,
            updated_timestamp: self.updated_timestamp,
            deadline: self.deadline,
        }
    }
}

impl Todo {
    /// The globally unique identifier, immutable after creation.
    pub fn id(&self) -> (r: TodoId)
        ensures
            r == self@.id,
    {
        self.id
    }

    /// The validated title.
    pub fn title(&self) -> (r: &String)
        ensures
            r@ == self@.title,
    {
        &self.title
    }

    pub fn priority(&self) -> (r: Priority)
        ensures
            r == self@.priority,
    {
        self.priority
    }

    pub fn status(&self) -> (r: Status)
        ensures
            r == self@.status,
    {
        self.status
    }

    /// Unix seconds at which the record was created; set once.
    pub fn created_timestamp(&self) -> (r: UnixTime)
        ensures
            r == self@.created_timestamp,
    {
        self.created_timestamp
    }

    /// Unix seconds of the last applied change; never moves backwards.
    pub fn updated_timestamp(&self) -> (r: UnixTime)
        ensures
            r == self@.updated_timestamp,
    {
        self.updated_timestamp
    }

    /// The optional deadline, as unix seconds.
    pub fn deadline(&self) -> (r: Option<UnixTime>)
        ensures
            r == self@.deadline,
    {
        self.deadline
    }
}

/// Creation input: a raw title, a priority, and an optional raw deadline.
#[derive(Clone)]
pub struct NewTodo {
    pub title: Title,
    pub priority: Priority,
    pub deadline: OptionalDeadlineInput,
}

/// The mathematical content of a creation input.
pub ghost struct NewTodoV {
    pub title: Seq<char>,
    pub priority: Priority,
    pub deadline: Option<Seq<char>>,
}

impl View for NewTodo {
    type V = NewTodoV;

    open spec fn view(&self) -> NewTodoV {
        NewTodoV { title: self.title@, priority: self.priority, deadline: self.deadline@ }
    }
}

/// Partial-update input. The three plain fields are applied only when
/// present; the deadline wrapper distinguishes "field omitted" from "clear
/// the value", and is re-resolved on every update call that carries any
/// change at all.
pub struct UpdateTodo {
    title: Option<Title>,
    priority: Option<Priority>,
    status: Option<Status>,
    deadline: OptionalDeadlineInput,
}

/// The mathematical content of a partial-update input.
pub ghost struct UpdateTodoV {
    pub title: Option<Seq<char>>,
    pub priority: Option<Priority>,
    pub status: Option<Status>,
    pub deadline: Option<Seq<char>>,
}

impl View for UpdateTodo {
    type V = UpdateTodoV;

    closed spec fn view(&self) -> UpdateTodoV {
        UpdateTodoV {
            title: match self.title {
                Option::Some(ref t) => Option::Some(t@),
                Option::None => Option::None,
            },
            priority: self.priority,
            status: self.status,
            deadline: self.deadline@,
        }
    }
}

/// Whether an update request carries any field at all.
pub open spec fn has_change(u: UpdateTodoV) -> bool {
    u.title is Some || u.priority is Some || u.status is Some || u.deadline is Some
}

impl UpdateTodo {
    /// Starts building an update request; every field defaults to absent.
    pub fn builder() -> (b: UpdateTodoBuilder)
        ensures
            b@.title is None,
            b@.priority is None,
            b@.status is None,
            b@.deadline is None,
    {
        UpdateTodoBuilder {
            u: UpdateTodo {
                title: None,
                priority: None,
                status: None,
                deadline: OptionalDeadlineInput::none(),
            },
        }
    }

    /// Whether any field is present in the request.
    pub fn change_is_present(&self) -> (b: bool)
        ensures
            b == has_change(self@),
    {
        self.title.is_some() || self.priority.is_some() || self.status.is_some()
            || self.deadline.is_some()
    }
}

/// Builds an update request field by field.
pub struct UpdateTodoBuilder {
    u: UpdateTodo,
}

impl View for UpdateTodoBuilder {
    type V = UpdateTodoV;

    closed spec fn view(&self) -> UpdateTodoV {
        self.u@
    }
}

impl UpdateTodoBuilder {
    pub fn title(self, v: Option<Title>) -> (b: UpdateTodoBuilder)
        ensures
            b@ == (UpdateTodoV {
                title: match v {
                    Option::Some(t) => Option::Some(t@),
                    Option::None => Option::None,
                },
                ..self@
            }),
    {
        UpdateTodoBuilder { u: UpdateTodo { title: v, ..self.u } }
    }

    pub fn priority(self, v: Option<Priority>) -> (b: UpdateTodoBuilder)
        ensures
            b@ == (UpdateTodoV { priority: v, ..self@ }),
    {
        UpdateTodoBuilder { u: UpdateTodo { priority: v, ..self.u } }
    }

    pub fn status(self, v: Option<Status>) -> (b: UpdateTodoBuilder)
        ensures
            b@ == (UpdateTodoV { status: v, ..self@ }),
    {
        UpdateTodoBuilder { u: UpdateTodo { status: v, ..self.u } }
    }

    pub fn deadline(self, v: OptionalDeadlineInput) -> (b: UpdateTodoBuilder)
        ensures
            b@ == (UpdateTodoV { deadline: v@, ..self@ }),
    {
        UpdateTodoBuilder { u: UpdateTodo { deadline: v, ..self.u } }
    }

    pub fn build(self) -> (u: UpdateTodo)
        ensures
            u@ == self@,
    {
        self.u
    }
}

/// Whether some record in the sequence carries the identifier.
pub open spec fn contains_id(s: Seq<TodoV>, id: TodoId) -> bool {
    exists|i: int| 0 <= i < s.len() && s[i].id == id
}

/// The index of the record carrying the identifier.
pub open spec fn idx_of(s: Seq<TodoV>, id: TodoId) -> int {
    choose|i: int| 0 <= i < s.len() && s[i].id == id
}

/// No two records share an identifier.
pub open spec fn ids_distinct(s: Seq<TodoV>) -> bool {
    forall|i: int, j: int| 0 <= i < j < s.len() ==> s[i].id != s[j].id
}

/// What holds of every stored record: a validated title, an update stamp at
/// or after creation, and a deadline the calendar can produce.
pub open spec fn todo_wf(t: TodoV) -> bool {
    &&& title_ok(t.title)
    &&& t.created_timestamp <= t.updated_timestamp
    &&& (t.deadline matches Some(d) ==> deadline_in_bounds_def(d))
}

/// The store's invariant over its sequence of records.
pub open spec fn store_inv(s: Seq<TodoV>) -> bool {
    &&& ids_distinct(s)
    &&& forall|i: int| 0 <= i < s.len() ==> todo_wf(#[trigger] s[i])
}

proof fn lemma_idx_of(s: Seq<TodoV>, id: TodoId, i: int)
    requires
        ids_distinct(s),
        0 <= i < s.len(),
        s[i].id == id,
    ensures
        idx_of(s, id) == i,
        contains_id(s, id),
{
    let j = idx_of(s, id);
    assert(0 <= j < s.len() && s[j].id == id);
}

/// The keyed collection of records.
pub struct TodoList {
    todos: Vec<Todo>,
}

impl View for TodoList {
    type V = Seq<TodoV>;

    closed spec fn view(&self) -> Seq<TodoV> {
        self.todos@.map_values(|t: Todo| t@)
    }
}

impl TodoList {
    /// The store's invariant: distinct identifiers and well-formed records.
    pub open spec fn wf(&self) -> bool {
        store_inv(self@)
    }

    /// An empty store.
    pub fn new() -> (r: TodoList)
        ensures
            r@ == Seq::<TodoV>::empty(),
            r.wf(),
    {
        let r = TodoList { todos: Vec::new() };
        proof {
            assert(r@ =~= Seq::<TodoV>::empty());
        }
        r
    }

    /// Total record count.
    pub fn count_all(&self) -> (n: usize)
        ensures
            n == self@.len(),
    {
        self.todos.len()
    }

    fn find_index(&self, id: TodoId) -> (r: Option<usize>)
        ensures
            r matches Some(i) ==> 0 <= i < self@.len() && self@[i as int].id == id,
            r is None ==> !contains_id(self@, id),
    {
        let n = self.todos.len();
        let mut i: usize = 0;
        while i < n
            invariant
                0 <= i <= n,
                n == self@.len(),
                forall|j: int| 0 <= j < i ==> self@[j].id != id,
            decreases n - i,
        {
            if self.todos[i].id() == id {
                return Some(i);
            }
            i = i + 1;
        }
        None
    }

    /// A copy of the record with the given identifier, or `TodoNotFound`.
    pub fn get(&self, id: TodoId) -> (r: AppResult<Todo>)
        requires
            self.wf(),
        ensures
            contains_id(self@, id) ==> (r matches Ok(t) && t@ == self@[idx_of(self@, id)]),
            !contains_id(self@, id) ==> r == AppResult::<Todo>::Err(AppError::TodoNotFound(id)),
    {
        match self.find_index(id) {
            Some(i) => {
                proof {
                    lemma_idx_of(self@, id, i as int);
                }
                Ok(self.todos[i].clone())
            },
            None => Err(AppError::TodoNotFound(id)),
        }
    }

    /// Removes the record with the given identifier, or fails with
    /// `TodoNotFound` and leaves the store unchanged.
    pub fn delete(&mut self, id: TodoId) -> (r: AppResult<()>)
        requires
            old(self).wf(),
        ensures
            final(self).wf(),
            contains_id(old(self)@, id) ==> (r matches Ok(u) && final(self)@ == old(self)@.remove(
                idx_of(old(self)@, id),
            )),
            !contains_id(old(self)@, id) ==> r == AppResult::<()>::Err(
                AppError::TodoNotFound(id),
            ) && final(self)@ == old(self)@,
    {
        match self.find_index(id) {
            Some(i) => {
                proof {
                    lemma_idx_of(self@, id, i as int);
                }
                self.todos.remove(i);
                proof {
                    assert(self@ =~= old(self)@.remove(idx_of(old(self)@, id)));
                }
                Ok(())
            },
            None => Err(AppError::TodoNotFound(id)),
        }
    }

    /// Clears the store and returns how many records it held.
    pub fn delete_all(&mut self) -> (n: usize)
        requires
            old(self).wf(),
        ensures
            final(self).wf(),
            n == old(self)@.len(),
            final(self)@ == Seq::<TodoV>::empty(),
    {
        let n = self.todos.len();
        self.todos.clear();
        proof {
            assert(self@ =~= Seq::<TodoV>::empty());
        }
        n
    }

    fn contains_id_exec(&self, id: TodoId) -> (b: bool)
        ensures
            b == contains_id(self@, id),
    {
        match self.find_index(id) {
            Some(i) => {
                proof {
                    assert(contains_id(self@, id));
                }
                true
            },
            None => false,
        }
    }

    /// An identifier no current record carries: a fresh random identifier,
    /// or, on the astronomically unlikely collision, the smallest free one.
    fn fresh_id(&self) -> (id: TodoId)
        requires
            self.wf(),
        ensures
            !contains_id(self@, id),
    {
        let cand = random_id();
        if !self.contains_id_exec(cand) {
            return cand;
        }
        let n = self.todos.len();
        let mut k: u128 = 0;
        while k <= n as u128
            invariant
                self.wf(),
                n == self@.len(),
                0 <= k <= n as u128 + 1,
                forall|j: u128| j < k ==> contains_id(self@, j),
            decreases n as u128 + 1 - k,
        {
            if !self.contains_id_exec(k) {
                return k;
            }
            k = k + 1;
        }
        proof {
            assert(forall|j: u128| j <= n as u128 ==> #[trigger] contains_id(self@, j));
            lemma_ids_pigeonhole(self@, n as u128);
            assert(false);
        }
        0
    }

    /// Creates a record: resolves the deadline first, then validates the
    /// title (so a bad deadline wins when both are invalid), assigns a fresh
    /// identifier, stamps creation and update time with the current time,
    /// starts the record in `Backlog`, stores it and returns a copy. A
    /// validation failure leaves the store unchanged.
    pub fn add(&mut self, item: &NewTodo) -> (r: AppResult<Todo>)
        requires
            old(self).wf(),
        ensures
            final(self).wf(),
            item@.deadline matches Some(ds) ==> (!deadline_ok(trim_spec(ds)) ==> (r matches Err(
                AppError::DateTimeParseError { input, expected_format },
            ) && input@ == ds && expected_format@ == USER_DATE_TIME_FORMAT@ && final(self)@ == old(
                self,
            )@)),
            new_deadline_ok(item@.deadline) && item@.title.len() == 0 ==> r
                == AppResult::<Todo>::Err(AppError::EmptyTodoTitle) && final(self)@ == old(self)@,
            new_deadline_ok(item@.deadline) && item@.title.len() > 0 && byte_len(item@.title)
                > MAX_TITLE_LEN ==> (r matches Err(
                AppError::TooLongTodoTitle { input, expected_len },
            ) && input@ == item@.title && expected_len == MAX_TITLE_LEN && final(self)@ == old(
                self,
            )@),
            new_deadline_ok(item@.deadline) && title_ok(item@.title) ==> (r matches Ok(t)
                && add_post(old(self)@, final(self)@, t@) && t@.title == item@.title && t@.priority
                == item@.priority && t@.status == Status::Backlog && t@.deadline
                == new_deadline_val(item@.deadline) && t@.created_timestamp
                == t@.updated_timestamp),
    {
        let deadline = match item.deadline.unix_time() {
            Ok(d) => d,
            Err(e) => {
                return Err(e);
            },
        };
        let title = match item.title.validated() {
            Ok(t) => t,
            Err(e) => {
                return Err(e);
            },
        };
        let id = self.fresh_id();
        let now = now_unix();
        let todo = Todo {
            id,
            title,
            priority: item.priority,
            status: Status::Backlog,
            created_timestamp: now,
            updated_timestamp: now,
            deadline,
        };
        let result = todo.clone();
        self.todos.push(todo);
        proof {
            assert(self@ =~= old(self)@.push(result@));
        }
        Ok(result)
    }

    /// Counts the records matching the query's filters, ignoring its sort
    /// dimension and result cap. Fails only when the query's deadline bound
    /// does not parse.
    pub fn count_by(&self, query: &Query) -> (r: AppResult<usize>)
        requires
            self.wf(),
        ensures
            query@.deadline matches Some(ds) ==> (!deadline_ok(trim_spec(ds)) ==> (r matches Err(
                AppError::DateTimeParseError { input, expected_format },
            ) && input@ == ds && expected_format@ == USER_DATE_TIME_FORMAT@)),
            new_deadline_ok(query@.deadline) ==> (r matches Ok(n) && n == matched(
                self@,
                query@,
                new_deadline_val(query@.deadline),
            ).len()),
    {
        let bound = match query.deadline().unix_time() {
            Ok(d) => d,
            Err(e) => {
                return Err(e);
            },
        };
        let ghost pred = |t: TodoV| matches_spec(query@, bound, t);
        let n = self.todos.len();
        let mut count: usize = 0;
        let mut i: usize = 0;
        while i < n
            invariant
                0 <= i <= n,
                n == self@.len(),
                count == self@.take(i as int).filter(pred).len(),
                count <= i,
                pred == (|t: TodoV| matches_spec(query@, bound, t)),
            decreases n - i,
        {
            proof {
                lemma_filter_step(self@, i as int, pred);
            }
            if query.matches(&bound, &self.todos[i]) {
                count = count + 1;
            }
            i = i + 1;
        }
        proof {
            assert(self@.take(n as int) =~= self@);
        }
        Ok(count)
    }
}

/// The records of `s` that pass the query's filters, in store order.
pub open spec fn matched(s: Seq<TodoV>, q: QueryV, bound: Option<UnixTime>) -> Seq<TodoV> {
    s.filter(|t: TodoV| matches_spec(q, bound, t))
}

/// What a successful `add` guarantees: the new record's identifier was free
/// and the store grew by exactly that record.
pub open spec fn add_post(pre: Seq<TodoV>, post: Seq<TodoV>, t: TodoV) -> bool {
    &&& !contains_id(pre, t.id)
    &&& post == pre.push(t)
}

proof fn lemma_ids_pigeonhole(s: Seq<TodoV>, n: u128)
    requires
        n < 0x1_0000_0000_0000_0000,
        ids_distinct(s),
        forall|k: u128| k <= n ==> #[trigger] contains_id(s, k),
    ensures
        s.len() >= n + 1,
    decreases n,
{
    assert(contains_id(s, n));
    let i = choose|i: int| 0 <= i < s.len() && s[i].id == n;
    if n == 0 {
    } else {
        let s2 = s.remove(i);
        assert(ids_distinct(s2)) by {
            assert forall|a: int, b: int| 0 <= a < b < s2.len() implies s2[a].id != s2[b].id by {
                let fa: int = if a < i {
                    a
                } else {
                    a + 1
                };
                let fb: int = if b < i {
                    b
                } else {
                    b + 1
                };
                assert(s2[a] == s[fa]);
                assert(s2[b] == s[fb]);
            }
        }
        assert forall|k: u128| k <= n - 1 implies #[trigger] contains_id(s2, k) by {
            assert(contains_id(s, k));
            let j = choose|j: int| 0 <= j < s.len() && s[j].id == k;
            assert(j != i);
            if j < i {
                assert(s2[j] == s[j]);
            } else {
                assert(s2[j - 1] == s[j]);
            }
        }
        lemma_ids_pigeonhole(s2, (n - 1) as u128);
    }
}

/// Steps a prefix filter by one element.
proof fn lemma_filter_step(s: Seq<TodoV>, i: int, pred: spec_fn(TodoV) -> bool)
    requires
        0 <= i < s.len(),
    ensures
        pred(s[i]) ==> s.take(i + 1).filter(pred) == s.take(i).filter(pred).push(s[i]),
        !pred(s[i]) ==> s.take(i + 1).filter(pred) == s.take(i).filter(pred),
{
    reveal(Seq::filter);
    assert(s.take(i + 1).drop_last() =~= s.take(i));
    assert(s.take(i + 1).last() == s[i]);
}

/// What holds of the record a valid update returns, and of the store after
/// it: every field pinned, the update stamp advanced only on a value change.
pub open spec fn update_applied_post(
    pre: Seq<TodoV>,
    post: Seq<TodoV>,
    id: TodoId,
    u: UpdateTodoV,
    res: TodoV,
) -> bool {
    let i = idx_of(pre, id);
    let t = pre[i];
    let dlv = new_deadline_val(u.deadline);
    &&& res.id == t.id
    &&& res.title == (match u.title {
        Option::Some(s) => s,
        Option::None => t.title,
    })
    &&& res.priority == (match u.priority {
        Option::Some(p) => p,
        Option::None => t.priority,
    })
    &&& res.status == (match u.status {
        Option::Some(st) => st,
        Option::None => t.status,
    })
    &&& res.created_timestamp == t.created_timestamp
    &&& res.deadline == dlv
    &&& update_modified(t, u, dlv) ==> res.updated_timestamp >= t.updated_timestamp
    &&& !update_modified(t, u, dlv) ==> res == t
    &&& post == pre.update(i, res)
}

/// Whether applying the update would change any stored value.
pub open spec fn update_modified(t: TodoV, u: UpdateTodoV, dlv: Option<UnixTime>) -> bool {
    ||| (u.title matches Some(s) && s != t.title)
    ||| (u.priority matches Some(p) && p != t.priority)
    ||| (u.status matches Some(st) && st != t.status)
    ||| dlv != t.deadline
}

/// Whether the update's title field, if present, passes validation.
pub open spec fn update_title_ok(u: UpdateTodoV) -> bool {
    u.title matches Some(tt) ==> title_ok(tt)
}

/// The record a valid update produces from a stored record, with the clock
/// reading `now`: present fields replace stored ones, the deadline is
/// re-resolved unconditionally, and the update stamp advances to `now` (but
/// never backwards) exactly when some value changed.
pub open spec fn updated_todo(t: TodoV, u: UpdateTodoV, dlv: Option<UnixTime>, now: UnixTime) -> TodoV {
    let modified = update_modified(t, u, dlv);
    TodoV {
        id: t.id,
        title: match u.title {
            Option::Some(s) => s,
            Option::None => t.title,
        },
        priority: match u.priority {
            Option::Some(p) => p,
            Option::None => t.priority,
        },
        status: match u.status {
            Option::Some(st) => st,
            Option::None => t.status,
        },
        created_timestamp: t.created_timestamp,
        updated_timestamp: if modified {
            if now > t.updated_timestamp {
                now
            } else {
                t.updated_timestamp
            }
        } else {
            t.updated_timestamp
        },
        deadline: dlv,
    }
}

fn opt_time_ne(a: Option<UnixTime>, b: Option<UnixTime>) -> (r: bool)
    ensures
        r == (a != b),
{
    match (a, b) {
        (Some(x), Some(y)) => x != y,
        (None, None) => false,
        _ => true,
    }
}

impl TodoList {
    /// Applies a partial update against an explicit clock reading `now`.
    /// Validation runs in a fixed order: an empty request fails first, then
    /// the deadline is resolved (even for an unknown identifier), then the
    /// identifier is looked up, then a present title is validated. Any
    /// failure leaves the store unchanged; otherwise each present field is
    /// applied and the update stamp advances exactly when a value changed.
    pub fn apply_update(&mut self, id: TodoId, change: &UpdateTodo, now: UnixTime) -> (r: AppResult<
        Todo,
    >)
        requires
            old(self).wf(),
        ensures
            final(self).wf(),
            !has_change(change@) ==> r == AppResult::<Todo>::Err(AppError::UpdateHasNoChanges)
                && final(self)@ == old(self)@,
            has_change(change@) && !new_deadline_ok(change@.deadline) ==> (r matches Err(
                AppError::DateTimeParseError { input, expected_format },
            ) && Some(input@) == change@.deadline && expected_format@ == USER_DATE_TIME_FORMAT@
                && final(self)@ == old(self)@),
            has_change(change@) && new_deadline_ok(change@.deadline) && !contains_id(
                old(self)@,
                id,
            ) ==> r == AppResult::<Todo>::Err(AppError::TodoNotFound(id)) && final(self)@ == old(
                self,
            )@,
            has_change(change@) && new_deadline_ok(change@.deadline) && contains_id(old(self)@, id)
                ==> {
                let t = old(self)@[idx_of(old(self)@, id)];
                &&& (change@.title matches Some(tt) ==> {
                    &&& (tt.len() == 0 ==> r == AppResult::<Todo>::Err(AppError::EmptyTodoTitle)
                        && final(self)@ == old(self)@)
                    &&& (tt.len() > 0 && byte_len(tt) > MAX_TITLE_LEN ==> (r matches Err(
                        AppError::TooLongTodoTitle { input, expected_len },
                    ) && input@ == tt && expected_len == MAX_TITLE_LEN) && final(self)@ == old(
                        self,
                    )@)
                })
                &&& (update_title_ok(change@) ==> (r matches Ok(out) && out@ == updated_todo(
                    t,
                    change@,
                    new_deadline_val(change@.deadline),
                    now,
                ) && final(self)@ == old(self)@.update(idx_of(old(self)@, id), out@)))
            },
    {
        if !change.change_is_present() {
            return Err(AppError::UpdateHasNoChanges);
        }
        let dlv = match change.deadline.unix_time() {
            Ok(d) => d,
            Err(e) => {
                return Err(e);
            },
        };
        let i = match self.find_index(id) {
            Some(i) => i,
            None => {
                return Err(AppError::TodoNotFound(id));
            },
        };
        proof {
            lemma_idx_of(self@, id, i as int);
        }
        let new_title: Option<String> = match &change.title {
            Some(t) => match t.validated() {
                Ok(s) => Some(s),
                Err(e) => {
                    return Err(e);
                },
            },
            None => None,
        };
        let cur = self.todos[i].clone();
        let mut modified = false;
        let title_next: String = match new_title {
            Some(s) => {
                if !(s == cur.title) {
                    modified = true;
                }
                s
            },
            None => cur.title.clone(),
        };
        let priority_next = match change.priority {
            Some(p) => {
                if p != cur.priority {
                    modified = true;
                }
                p
            },
            None => cur.priority,
        };
        let status_next = match change.status {
            Some(st) => {
                if st != cur.status {
                    modified = true;
                }
                st
            },
            None => cur.status,
        };
        if opt_time_ne(dlv, cur.deadline) {
            modified = true;
        }
        let stamp_next = if modified {
            if now > cur.updated_timestamp {
                now
            } else {
                cur.updated_timestamp
            }
        } else {
            cur.updated_timestamp
        };
        let updated = Todo {
            id: cur.id,
            title: title_next,
            priority: priority_next,
            status: status_next,
            created_timestamp: cur.created_timestamp,
            updated_timestamp: stamp_next,
            deadline: dlv,
        };
        let result = updated.clone();
        self.todos[i] = updated;
        proof {
            assert(self@ =~= old(self)@.update(i as int, result@));
        }
        Ok(result)
    }

    /// Applies a partial update using the current clock time; see
    /// `apply_update` for the validation order. The update stamp of the
    /// returned record never moves backwards, and stays put when no value
    /// changed.
    pub fn update(&mut self, id: TodoId, change: &UpdateTodo) -> (r: AppResult<Todo>)
        requires
            old(self).wf(),
        ensures
            final(self).wf(),
            !has_change(change@) ==> r == AppResult::<Todo>::Err(AppError::UpdateHasNoChanges)
                && final(self)@ == old(self)@,
            has_change(change@) && !new_deadline_ok(change@.deadline) ==> (r matches Err(
                AppError::DateTimeParseError { input, expected_format },
            ) && Some(input@) == change@.deadline && expected_format@ == USER_DATE_TIME_FORMAT@
                && final(self)@ == old(self)@),
            has_change(change@) && new_deadline_ok(change@.deadline) && !contains_id(
                old(self)@,
                id,
            ) ==> r == AppResult::<Todo>::Err(AppError::TodoNotFound(id)) && final(self)@ == old(
                self,
            )@,
            has_change(change@) && new_deadline_ok(change@.deadline) && contains_id(old(self)@, id)
                ==> {
                let t = old(self)@[idx_of(old(self)@, id)];
                &&& (change@.title matches Some(tt) ==> {
                    &&& (tt.len() == 0 ==> r == AppResult::<Todo>::Err(AppError::EmptyTodoTitle)
                        && final(self)@ == old(self)@)
                    &&& (tt.len() > 0 && byte_len(tt) > MAX_TITLE_LEN ==> (r matches Err(
                        AppError::TooLongTodoTitle { input, expected_len },
                    ) && input@ == tt && expected_len == MAX_TITLE_LEN) && final(self)@ == old(
                        self,
                    )@)
                })
                &&& (update_title_ok(change@) ==> (r matches Ok(out) && update_applied_post(
                    old(self)@,
                    final(self)@,
                    id,
                    change@,
                    out@,
                )))
            },
    {
        let now = now_unix();
        self.apply_update(id, change, now)
    }
}


/// Filtering keeps identifiers distinct, and every kept record is one of
/// the original records.
proof fn lemma_filter_distinct(s: Seq<TodoV>, pred: spec_fn(TodoV) -> bool)
    requires
        ids_distinct(s),
    ensures
        ids_distinct(s.filter(pred)),
        forall|i: int| 0 <= i < s.filter(pred).len() ==> s.contains(#[trigger] s.filter(pred)[i]),
    decreases s.len(),
{
    reveal(Seq::filter);
    if s.len() > 0 {
        let d = s.drop_last();
        assert(ids_distinct(d)) by {
            assert forall|a: int, b: int| 0 <= a < b < d.len() implies d[a].id != d[b].id by {
                assert(d[a] == s[a]);
                assert(d[b] == s[b]);
            }
        }
        lemma_filter_distinct(d, pred);
        let f = s.filter(pred);
        let fd = d.filter(pred);
        assert forall|i: int| 0 <= i < f.len() implies s.contains(#[trigger] f[i]) by {
            if pred(s.last()) && i == f.len() - 1 {
                assert(f[i] == s[s.len() - 1]);
            } else {
                assert(f[i] == fd[i]);
                assert(d.contains(fd[i]));
                let j = choose|j: int| 0 <= j < d.len() && d[j] == fd[i];
                assert(s[j] == fd[i]);
            }
        }
        assert forall|a: int, b: int| 0 <= a < b < f.len() implies f[a].id != f[b].id by {
            if pred(s.last()) && b == f.len() - 1 {
                assert(f[a] == fd[a]);
                assert(d.contains(fd[a]));
                let j = choose|j: int| 0 <= j < d.len() && d[j] == fd[a];
                assert(s[j] == f[a]);
                assert(f[b] == s[s.len() - 1]);
            } else {
                assert(f[a] == fd[a]);
                assert(f[b] == fd[b]);
            }
        }
    }
}

/// Two pointwise-equal predicates filter a sequence identically.
pub(crate) proof fn lemma_filter_ext(s: Seq<TodoV>, p1: spec_fn(TodoV) -> bool, p2: spec_fn(TodoV) -> bool)
    requires
        forall|t: TodoV| #[trigger] p1(t) == p2(t),
    ensures
        s.filter(p1) == s.filter(p2),
    decreases s.len(),
{
    reveal(Seq::filter);
    if s.len() > 0 {
        lemma_filter_ext(s.drop_last(), p1, p2);
    }
}

fn status_in(targets: &Vec<Status>, st: Status) -> (b: bool)
    ensures
        b == targets@.contains(st),
{
    let n = targets.len();
    let mut i: usize = 0;
    while i < n
        invariant
            0 <= i <= n,
            n == targets@.len(),
            forall|j: int| 0 <= j < i ==> targets@[j] != st,
        decreases n - i,
    {
        if targets[i] == st {
            return true;
        }
        i = i + 1;
    }
    false
}

fn priority_in(targets: &Vec<Priority>, p: Priority) -> (b: bool)
    ensures
        b == targets@.contains(p),
{
    let n = targets.len();
    let mut i: usize = 0;
    while i < n
        invariant
            0 <= i <= n,
            n == targets@.len(),
            forall|j: int| 0 <= j < i ==> targets@[j] != p,
        decreases n - i,
    {
        if targets[i] == p {
            return true;
        }
        i = i + 1;
    }
    false
}

fn id_in(targets: &Vec<TodoId>, id: TodoId) -> (b: bool)
    ensures
        b == targets@.contains(id),
{
    let n = targets.len();
    let mut i: usize = 0;
    while i < n
        invariant
            0 <= i <= n,
            n == targets@.len(),
            forall|j: int| 0 <= j < i ==> targets@[j] != id,
        decreases n - i,
    {
        if targets[i] == id {
            return true;
        }
        i = i + 1;
    }
    false
}

impl TodoList {
    /// Removes every record whose status is in the non-empty target set and
    /// returns how many were removed; an empty target set fails with
    /// `CollectionIsEmpty` and removes nothing.
    pub fn delete_by_statuses(&mut self, targets: &Vec<Status>) -> (r: AppResult<usize>)
        requires
            old(self).wf(),
        ensures
            final(self).wf(),
            targets@.len() == 0 ==> r == AppResult::<usize>::Err(AppError::CollectionIsEmpty)
                && final(self)@ == old(self)@,
            targets@.len() > 0 ==> (r matches Ok(n) && final(self)@ == old(self)@.filter(
                |t: TodoV| !targets@.contains(t.status),
            ) && n == old(self)@.len() - final(self)@.len()),
    {
        if targets.len() == 0 {
            return Err(AppError::CollectionIsEmpty);
        }
        let ghost keep = |t: TodoV| !targets@.contains(t.status);
        let n = self.todos.len();
        let mut out: Vec<Todo> = Vec::new();
        let mut i: usize = 0;
        while i < n
            invariant
                0 <= i <= n,
                n == old(self)@.len(),
                self@ == old(self)@,
                out@.map_values(|t: Todo| t@) == old(self)@.take(i as int).filter(keep),
                keep == (|t: TodoV| !targets@.contains(t.status)),
            decreases n - i,
        {
            proof {
                lemma_filter_step(old(self)@, i as int, keep);
            }
            let t = &self.todos[i];
            if !status_in(targets, t.status()) {
                out.push(t.clone());
                proof {
                    assert(out@.map_values(|t: Todo| t@) =~= old(self)@.take(i as int).filter(
                        keep,
                    ).push(self@[i as int]));
                }
            }
            i = i + 1;
        }
        proof {
            assert(old(self)@.take(n as int) =~= old(self)@);
            lemma_filter_distinct(old(self)@, keep);
            broadcast use vstd::seq_lib::group_filter_ensures;

        }
        let removed = n - out.len();
        self.todos = out;
        proof {
            assert forall|i: int| 0 <= i < self@.len() implies todo_wf(#[trigger] self@[i]) by {
                assert(old(self)@.contains(self@[i]));
                let j = choose|j: int| 0 <= j < old(self)@.len() && old(self)@[j] == self@[i];
            }
        }
        Ok(removed)
    }

    /// Removes every record whose priority is in the non-empty target set
    /// and returns how many were removed; an empty target set fails with
    /// `CollectionIsEmpty` and removes nothing.
    pub fn delete_by_priorities(&mut self, targets: &Vec<Priority>) -> (r: AppResult<usize>)
        requires
            old(self).wf(),
        ensures
            final(self).wf(),
            targets@.len() == 0 ==> r == AppResult::<usize>::Err(AppError::CollectionIsEmpty)
                && final(self)@ == old(self)@,
            targets@.len() > 0 ==> (r matches Ok(n) && final(self)@ == old(self)@.filter(
                |t: TodoV| !targets@.contains(t.priority),
            ) && n == old(self)@.len() - final(self)@.len()),
    {
        if targets.len() == 0 {
            return Err(AppError::CollectionIsEmpty);
        }
        let ghost keep = |t: TodoV| !targets@.contains(t.priority);
        let n = self.todos.len();
        let mut out: Vec<Todo> = Vec::new();
        let mut i: usize = 0;
        while i < n
            invariant
                0 <= i <= n,
                n == old(self)@.len(),
                self@ == old(self)@,
                out@.map_values(|t: Todo| t@) == old(self)@.take(i as int).filter(keep),
                keep == (|t: TodoV| !targets@.contains(t.priority)),
            decreases n - i,
        {
            proof {
                lemma_filter_step(old(self)@, i as int, keep);
            }
            let t = &self.todos[i];
            if !priority_in(targets, t.priority()) {
                out.push(t.clone());
                proof {
                    assert(out@.map_values(|t: Todo| t@) =~= old(self)@.take(i as int).filter(
                        keep,
                    ).push(self@[i as int]));
                }
            }
            i = i + 1;
        }
        proof {
            assert(old(self)@.take(n as int) =~= old(self)@);
            lemma_filter_distinct(old(self)@, keep);
            broadcast use vstd::seq_lib::group_filter_ensures;

        }
        let removed = n - out.len();
        self.todos = out;
        proof {
            assert forall|i: int| 0 <= i < self@.len() implies todo_wf(#[trigger] self@[i]) by {
                assert(old(self)@.contains(self@[i]));
                let j = choose|j: int| 0 <= j < old(self)@.len() && old(self)@[j] == self@[i];
            }
        }
        Ok(removed)
    }

    /// Removes every record whose identifier is in the non-empty target set
    /// and returns how many were removed; an empty target set fails with
    /// `CollectionIsEmpty` and removes nothing.
    pub fn delete_by_ids(&mut self, targets: &Vec<TodoId>) -> (r: AppResult<usize>)
        requires
            old(self).wf(),
        ensures
            final(self).wf(),
            targets@.len() == 0 ==> r == AppResult::<usize>::Err(AppError::CollectionIsEmpty)
                && final(self)@ == old(self)@,
            targets@.len() > 0 ==> (r matches Ok(n) && final(self)@ == old(self)@.filter(
                |t: TodoV| !targets@.contains(t.id),
            ) && n == old(self)@.len() - final(self)@.len()),
    {
        if targets.len() == 0 {
            return Err(AppError::CollectionIsEmpty);
        }
        let ghost keep = |t: TodoV| !targets@.contains(t.id);
        let n = self.todos.len();
        let mut out: Vec<Todo> = Vec::new();
        let mut i: usize = 0;
        while i < n
            invariant
                0 <= i <= n,
                n == old(self)@.len(),
                self@ == old(self)@,
                out@.map_values(|t: Todo| t@) == old(self)@.take(i as int).filter(keep),
                keep == (|t: TodoV| !targets@.contains(t.id)),
            decreases n - i,
        {
            proof {
                lemma_filter_step(old(self)@, i as int, keep);
            }
            let t = &self.todos[i];
            if !id_in(targets, t.id()) {
                out.push(t.clone());
                proof {
                    assert(out@.map_values(|t: Todo| t@) =~= old(self)@.take(i as int).filter(
                        keep,
                    ).push(self@[i as int]));
                }
            }
            i = i + 1;
        }
        proof {
            assert(old(self)@.take(n as int) =~= old(self)@);
            lemma_filter_distinct(old(self)@, keep);
            broadcast use vstd::seq_lib::group_filter_ensures;

        }
        let removed = n - out.len();
        self.todos = out;
        proof {
            assert forall|i: int| 0 <= i < self@.len() implies todo_wf(#[trigger] self@[i]) by {
                assert(old(self)@.contains(self@[i]));
                let j = choose|j: int| 0 <= j < old(self)@.len() && old(self)@[j] == self@[i];
            }
        }
        Ok(removed)
    }

    /// Removes exactly the records carrying the one given status and returns
    /// how many were removed.
    pub fn delete_by_status(&mut self, target: &Status) -> (n: usize)
        requires
            old(self).wf(),
        ensures
            final(self).wf(),
            final(self)@ == old(self)@.filter(|t: TodoV| t.status != *target),
            n == old(self)@.len() - final(self)@.len(),
    {
        let mut targets: Vec<Status> = Vec::new();
        targets.push(*target);
        let r = match self.delete_by_statuses(&targets) {
            Ok(n) => n,
            Err(_) => 0,
        };
        proof {
            assert forall|t: TodoV| (!targets@.contains(t.status)) == (t.status != *target) by {
                if t.status == *target {
                    assert(targets@[0] == t.status);
                    assert(targets@.contains(t.status));
                }
            }
            lemma_filter_ext(
                old(self)@,
                |t: TodoV| !targets@.contains(t.status),
                |t: TodoV| t.status != *target,
            );
        }
        r
    }
}


/// The ghost contents of a vector of records.
pub open spec fn views_of(s: Seq<Todo>) -> Seq<TodoV> {
    s.map_values(|t: Todo| t@)
}

/// What a well-formed heap entry stands for during a search: a matching
/// record of the store at the entry's own index, keyed by the sort
/// dimension.
pub open spec fn entry_ok(
    s: Seq<TodoV>,
    q: QueryV,
    bound: Option<UnixTime>,
    e: (u64, Seq<char>, u64),
) -> bool {
    &&& e.2 < s.len()
    &&& matches_spec(q, bound, s[e.2 as int])
    &&& e == sort_key_view(q.sort, s[e.2 as int], e.2)
}

/// Every member of the multiset is at most `k`.
pub open spec fn all_le(c: Multiset<(u64, Seq<char>, u64)>, k: (u64, Seq<char>, u64)) -> bool {
    forall|e: (u64, Seq<char>, u64)| #[trigger] c.count(e) > 0 ==> key_le(e, k)
}

/// What `search` guarantees of its result sequence: as many records as the
/// cap and the match count allow, each a matching record of the store,
/// pairwise distinct, in ascending key order; when everything fits, exactly
/// the matching records; and never a worse record than one left out.
pub open spec fn search_post(s: Seq<TodoV>, q: QueryV, rv: Seq<TodoV>) -> bool {
    let bound = new_deadline_val(q.deadline);
    let m = matched(s, q, bound);
    let lim = resolve_limit(q.limit);
    &&& rv.len() == (if m.len() <= lim {
        m.len() as int
    } else {
        lim
    })
    &&& (forall|i: int|
        0 <= i < rv.len() ==> s.contains(#[trigger] rv[i]) && matches_spec(q, bound, rv[i]))
    &&& (forall|i: int, j: int|
        0 <= i < j < rv.len() ==> dim_le(q.sort, #[trigger] rv[i], #[trigger] rv[j]))
    &&& ids_distinct(rv)
    &&& (m.len() <= lim ==> rv.to_multiset() == m.to_multiset())
    &&& (forall|j: int|
        0 <= j < s.len() && matches_spec(q, bound, #[trigger] s[j]) && !rv.contains(s[j]) ==> (
        forall|i: int| 0 <= i < rv.len() ==> dim_le(q.sort, #[trigger] rv[i], s[j])))
}

/// A non-empty multiset of keys has a maximal member.
proof fn lemma_heap_has_max(c: Multiset<(u64, Seq<char>, u64)>)
    requires
        c.len() > 0,
    ensures
        exists|m: (u64, Seq<char>, u64)| #[trigger] is_max_of(c, m),
    decreases c.len(),
{
    broadcast use vstd::multiset::group_multiset_axioms;

    let x = c.choose();
    assert(c.count(x) > 0);
    let c2 = c.remove(x);
    if c2.len() == 0 {
        vstd::multiset::lemma_multiset_empty_len(c2);
        assert(is_max_of(c, x)) by {
            assert forall|e: (u64, Seq<char>, u64)| #[trigger] c.count(e) > 0 implies key_le(
                e,
                x,
            ) by {
                if e != x {
                    assert(c2.count(e) == c.count(e));
                    assert(false);
                }
            }
        }
    } else {
        lemma_heap_has_max(c2);
        let m2 = choose|m: (u64, Seq<char>, u64)| is_max_of(c2, m);
        lemma_key_total(m2, x);
        if key_le(m2, x) {
            assert(is_max_of(c, x)) by {
                assert forall|e: (u64, Seq<char>, u64)| #[trigger] c.count(e) > 0 implies key_le(
                    e,
                    x,
                ) by {
                    if e != x {
                        assert(c2.count(e) == c.count(e));
                        lemma_key_le_trans(e, m2, x);
                    }
                }
            }
        } else {
            assert(c.count(m2) > 0);
            assert(is_max_of(c, m2)) by {
                assert forall|e: (u64, Seq<char>, u64)| #[trigger] c.count(e) > 0 implies key_le(
                    e,
                    m2,
                ) by {
                    if e != x {
                        assert(c2.count(e) == c.count(e));
                    }
                }
            }
        }
    }
}

impl TodoList {
    /// Search: resolves the deadline bound and the result cap, filters all
    /// records, keeps a bounded candidate set of the best keys in a single
    /// pass over the store (replacing the worst candidate whenever a better
    /// match appears), and returns the survivors in ascending key order.
    /// Fails only when the deadline bound does not parse.
    #[verifier::loop_isolation(false)]
    #[verifier::rlimit(60)]
    pub fn search(&self, query: &Query) -> (r: AppResult<Vec<Todo>>)
        requires
            self.wf(),
        ensures
            query@.deadline matches Some(ds) ==> (!deadline_ok(trim_spec(ds)) ==> (r matches Err(
                AppError::DateTimeParseError { input, expected_format },
            ) && input@ == ds && expected_format@ == USER_DATE_TIME_FORMAT@)),
            new_deadline_ok(query@.deadline) ==> (r matches Ok(v) && search_post(
                self@,
                query@,
                views_of(v@),
            )),
    {
        broadcast use vstd::multiset::group_multiset_axioms;
        broadcast use vstd::seq_lib::group_to_multiset_ensures;

        let bound = match query.deadline().unix_time() {
            Ok(d) => d,
            Err(e) => {
                return Err(e);
            },
        };
        let limit = match query.validate_limit() {
            Ok(l) => l,
            Err(e) => {
                return Err(e);
            },
        };
        let sort: Option<QuerySort> = *query.sort();
        let ghost q = query@;
        let ghost pred = |t: TodoV| matches_spec(q, bound, t);
        let n = self.todos.len();
        let mut heap = heap_with_capacity(limit);
        let mut count: usize = 0;
        let mut i: usize = 0;
        while i < n
            invariant
                0 <= i <= n,
                count == ({
                    let ml = self@.take(i as int).filter(pred).len() as int;
                    if ml <= limit {
                        ml
                    } else {
                        limit as int
                    }
                }),
                heap_contents(heap).len() == count,
                forall|e: (u64, Seq<char>, u64)| #[trigger]
                    heap_contents(heap).count(e) > 0 ==> entry_ok(self@, q, bound, e) && e.2 < i,
                forall|e: (u64, Seq<char>, u64)| #[trigger] heap_contents(heap).count(e) <= 1,
                forall|j: int|
                    0 <= j < i && pred(self@[j]) && heap_contents(heap).count(
                        #[trigger] sort_key_view(q.sort, self@[j], j as u64),
                    ) == 0 ==> all_le(
                        heap_contents(heap),
                        sort_key_view(q.sort, self@[j], j as u64),
                    ),
                self@.take(i as int).filter(pred).len() <= limit ==> forall|j: int|
                    0 <= j < i && pred(self@[j]) ==> heap_contents(heap).count(
                        #[trigger] sort_key_view(q.sort, self@[j], j as u64),
                    ) > 0,
            decreases n - i,
        {
            proof {
                lemma_filter_step(self@, i as int, pred);
                assert(todo_wf(self@[i as int]));
            }
            let ghost pre_heap = heap_contents(heap);
            let ghost prefix_len = self@.take(i as int).filter(pred).len() as int;
            let t = &self.todos[i];
            if query.matches(&bound, t) {
                let key = sort_key_exec(&sort, t, i as u64);
                let ghost ki = sort_key_view(q.sort, self@[i as int], i as u64);
                proof {
                    assert(item_view(key) == ki);
                    assert(pre_heap.count(ki) == 0) by {
                        if pre_heap.count(ki) > 0 {
                            assert(entry_ok(self@, q, bound, ki));
                        }
                    }
                }
                if count < limit {
                    heap_push(&mut heap, key);
                    count = count + 1;
                    proof {
                        let c2 = heap_contents(heap);
                        assert(c2 == pre_heap.insert(ki));
                        assert(prefix_len < limit);
                        assert forall|j: int|
                            0 <= j < i + 1 && pred(self@[j]) implies c2.count(
                            #[trigger] sort_key_view(q.sort, self@[j], j as u64),
                        ) > 0 by {
                            if j < i {
                                assert(pre_heap.count(sort_key_view(q.sort, self@[j], j as u64))
                                    > 0);
                            } else {
                                assert(c2.count(ki) > 0);
                            }
                        }
                    }
                } else {
                    proof {
                        lemma_heap_has_max(pre_heap);
                    }
                    let replaced = heap_replace_root_if_less(&mut heap, key);
                    proof {
                        let c2 = heap_contents(heap);
                        let m = choose|m: (u64, Seq<char>, u64)| is_max_of(pre_heap, m);
                        assert(is_max_of(pre_heap, m));
                        assert(entry_ok(self@, q, bound, m));
                        assert(prefix_len >= limit);
                        if key_lt(ki, m) {
                            assert(c2 == pre_heap.remove(m).insert(ki));
                            assert(m != ki);
                            assert(c2.len() == count);
                            // every member of the new heap is at most m
                            assert forall|e: (u64, Seq<char>, u64)| #[trigger]
                                c2.count(e) > 0 implies key_le(e, m) by {
                                if e != ki {
                                    assert(pre_heap.count(e) > 0);
                                } else {
                                    assert(key_lt(ki, m));
                                }
                            }
                            // exclusion invariant for the new heap
                            assert forall|j: int|
                                0 <= j < i + 1 && pred(self@[j]) && c2.count(
                                    #[trigger] sort_key_view(q.sort, self@[j], j as u64),
                                ) == 0 implies all_le(
                                c2,
                                sort_key_view(q.sort, self@[j], j as u64),
                            ) by {
                                let kj = sort_key_view(q.sort, self@[j], j as u64);
                                if j == i {
                                    assert(c2.count(ki) > 0);
                                    assert(false);
                                } else if pre_heap.count(kj) > 0 {
                                    // only m left the heap, so kj == m
                                    assert(kj == m);
                                    assert forall|e: (u64, Seq<char>, u64)| #[trigger]
                                        c2.count(e) > 0 implies key_le(e, kj) by {}
                                } else {
                                    // j was already excluded
                                    assert(all_le(pre_heap, kj));
                                    assert(pre_heap.count(m) > 0);
                                    assert(key_le(m, kj));
                                    assert forall|e: (u64, Seq<char>, u64)| #[trigger]
                                        c2.count(e) > 0 implies key_le(e, kj) by {
                                        if e == ki {
                                            lemma_key_le_trans(ki, m, kj);
                                        } else {
                                            assert(pre_heap.count(e) > 0);
                                        }
                                    }
                                }
                            }
                        } else {
                            assert(c2 == pre_heap);
                            lemma_key_total(ki, m);
                            assert(key_le(m, ki));
                            assert forall|j: int|
                                0 <= j < i + 1 && pred(self@[j]) && c2.count(
                                    #[trigger] sort_key_view(q.sort, self@[j], j as u64),
                                ) == 0 implies all_le(
                                c2,
                                sort_key_view(q.sort, self@[j], j as u64),
                            ) by {
                                let kj = sort_key_view(q.sort, self@[j], j as u64);
                                if j == i {
                                    assert(kj == ki);
                                    assert forall|e: (u64, Seq<char>, u64)| #[trigger]
                                        c2.count(e) > 0 implies key_le(e, kj) by {
                                        assert(key_le(e, m));
                                        lemma_key_le_trans(e, m, ki);
                                    }
                                } else {
                                    assert(all_le(pre_heap, kj));
                                }
                            }
                        }
                    }
                }
            }
            i = i + 1;
        }
        proof {
            assert(self@.take(n as int) =~= self@);
        }
        let items = heap_into_sorted_vec(heap);
        let ghost fin = heap_contents(heap);
        let ghost iv = items@.map_values(|x: (u64, String, u64)| item_view(x));
        proof {
            assert(iv.to_multiset().len() == iv.len());
            assert(items@.len() == iv.len());
            assert forall|p: int| 0 <= p < iv.len() implies fin.count(#[trigger] iv[p]) > 0 by {
                assert(iv.contains(iv[p]));
                assert(iv.to_multiset().count(iv[p]) > 0);
            }
        }
        let m_items = items.len();
        let mut out: Vec<Todo> = Vec::new();
        let mut k: usize = 0;
        while k < m_items
            invariant
                0 <= k <= m_items,
                out@.len() == k,
                forall|p: int|
                    0 <= p < k ==> (#[trigger] out@[p])@ == self@[iv[p].2 as int],
            decreases m_items - k,
        {
            proof {
                assert(fin.count(iv[k as int]) > 0);
                assert(entry_ok(self@, q, bound, iv[k as int]));
            }
            let idx = items[k].2;
            let picked = self.todos[idx as usize].clone();
            out.push(picked);
            k = k + 1;
        }
        proof {
            let rv = views_of(out@);
            let bd = new_deadline_val(q.deadline);
            assert(bound == bd);
            let mtc = matched(self@, q, bd);
            let lim = resolve_limit(q.limit);
            assert(mtc == self@.filter(pred));
            assert(rv.len() == count);
            assert forall|p: int| 0 <= p < rv.len() implies rv[p] == self@[iv[p].2 as int] by {
                assert(out@[p]@ == self@[iv[p].2 as int]);
            }
            assert forall|p: int| 0 <= p < rv.len() implies entry_ok(self@, q, bound, iv[p])
                && iv[p] == sort_key_view(q.sort, rv[p], iv[p].2) by {
                assert(fin.count(iv[p]) > 0);
            }
            // membership and matching
            assert forall|p: int|
                0 <= p < rv.len() implies self@.contains(#[trigger] rv[p]) && matches_spec(
                q,
                bd,
                rv[p],
            ) by {
                assert(0 <= iv[p].2 < self@.len() && self@[iv[p].2 as int] == rv[p]);
            }
            // no duplicate keys, hence distinct indices, hence distinct ids
            assert forall|p1: int, p2: int| 0 <= p1 < p2 < iv.len() implies iv[p1] != iv[p2] by {
                if iv[p1] == iv[p2] {
                    let dropped = iv.remove(p1);
                    assert(dropped.to_multiset() == iv.to_multiset().remove(iv[p1]));
                    assert(dropped[p2 - 1] == iv[p2]);
                    assert(dropped.contains(iv[p2]));
                    assert(dropped.to_multiset().count(iv[p2]) > 0);
                    assert(iv.to_multiset().count(iv[p1]) >= 2);
                    assert(fin.count(iv[p1]) >= 2);
                }
            }
            assert(ids_distinct(rv)) by {
                assert forall|p1: int, p2: int|
                    0 <= p1 < p2 < rv.len() implies rv[p1].id != rv[p2].id by {
                    if iv[p1].2 == iv[p2].2 {
                        assert(iv[p1] == sort_key_view(q.sort, self@[iv[p1].2 as int], iv[p1].2));
                        assert(iv[p2] == sort_key_view(q.sort, self@[iv[p2].2 as int], iv[p2].2));
                        assert(iv[p1] == iv[p2]);
                        assert(false);
                    } else {
                        assert(rv[p1] == self@[iv[p1].2 as int]);
                        assert(rv[p2] == self@[iv[p2].2 as int]);
                    }
                }
            }
            // ordering
            assert forall|p1: int, p2: int|
                0 <= p1 < p2 < rv.len() implies dim_le(q.sort, #[trigger] rv[p1], #[trigger] rv[p2]) by {
                assert(key_le(item_view(items@[p1]), item_view(items@[p2])));
                assert(iv[p1] == item_view(items@[p1]));
                assert(iv[p2] == item_view(items@[p2]));
                lemma_key_le_dim(q.sort, rv[p1], rv[p2], iv[p1].2, iv[p2].2);
            }
            // a key in the heap puts its record in the output
            assert forall|j: int|
                0 <= j < self@.len() && pred(self@[j]) && fin.count(
                    sort_key_view(q.sort, self@[j], j as u64),
                ) > 0 implies rv.contains(self@[j]) by {
                let kj = sort_key_view(q.sort, self@[j], j as u64);
                assert(iv.to_multiset().count(kj) > 0);
                assert(iv.contains(kj));
                let p = choose|p: int| 0 <= p < iv.len() && iv[p] == kj;
                assert(entry_ok(self@, q, bound, iv[p]));
                assert(iv[p].2 == j as u64);
                assert(rv[p] == self@[j]);
            }
            // length
            lemma_filter_distinct(self@, pred);
            assert(rv.len() == (if mtc.len() <= lim {
                mtc.len() as int
            } else {
                lim
            }));
            // completeness when everything fits
            if mtc.len() <= lim {
                assert forall|j: int|
                    0 <= j < self@.len() && pred(#[trigger] self@[j]) implies rv.contains(
                    self@[j],
                ) by {
                    assert(fin.count(sort_key_view(q.sort, self@[j], j as u64)) > 0);
                }
                assert(rv.no_duplicates()) by {
                    assert forall|p1: int, p2: int|
                        0 <= p1 < p2 < rv.len() implies rv[p1] != rv[p2] by {
                        assert(rv[p1].id != rv[p2].id);
                    }
                }
                assert(mtc.no_duplicates()) by {
                    assert forall|p1: int, p2: int|
                        0 <= p1 < p2 < mtc.len() implies mtc[p1] != mtc[p2] by {
                        assert(mtc[p1].id != mtc[p2].id);
                    }
                }
                rv.lemma_multiset_has_no_duplicates();
                mtc.lemma_multiset_has_no_duplicates();
                assert forall|x: TodoV| rv.to_multiset().count(x) == mtc.to_multiset().count(
                    x,
                ) by {
                    if rv.to_multiset().count(x) > 0 {
                        assert(rv.contains(x));
                        let p = choose|p: int| 0 <= p < rv.len() && rv[p] == x;
                        assert(self@.contains(x) && pred(x));
                        assert(mtc.contains(x));
                        assert(mtc.to_multiset().count(x) > 0);
                        assert(rv.to_multiset().count(x) == 1);
                        assert(mtc.to_multiset().count(x) == 1);
                    } else if mtc.to_multiset().count(x) > 0 {
                        assert(mtc.contains(x));
                        let p = choose|p: int| 0 <= p < mtc.len() && mtc[p] == x;
                        assert(self@.contains(mtc[p]));
                        let j = choose|j: int| 0 <= j < self@.len() && self@[j] == mtc[p];
                        assert(pred(self@[j]));
                        assert(rv.contains(self@[j]));
                        assert(rv.to_multiset().count(x) > 0);
                    }
                }
                assert(rv.to_multiset() =~= mtc.to_multiset());
            }
            // optimality: nothing in the output is worse than anything left out
            assert forall|j: int|
                0 <= j < self@.len() && matches_spec(q, bd, #[trigger] self@[j]) && !rv.contains(
                    self@[j],
                ) implies (forall|p: int| 0 <= p < rv.len() ==> dim_le(q.sort, #[trigger] rv[p], self@[j])) by {
                let kj = sort_key_view(q.sort, self@[j], j as u64);
                assert(fin.count(kj) == 0) by {
                    if fin.count(kj) > 0 {
                        assert(rv.contains(self@[j]));
                    }
                }
                assert(all_le(fin, kj));
                assert forall|p: int| 0 <= p < rv.len() implies dim_le(q.sort, #[trigger] rv[p], self@[j]) by {
                    assert(fin.count(iv[p]) > 0);
                    assert(key_le(iv[p], kj));
                    lemma_key_le_dim(q.sort, rv[p], self@[j], iv[p].2, j as u64);
                }
            }
            assert(search_post(self@, q, rv));
        }
        Ok(out)
    }
}

} // verus!
