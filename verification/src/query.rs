//! The search query: optional keyword, priority, status, deadline upper
//! bound, sort dimension and result cap. Four independent predicates, each
//! true when its filter is unset, combined with logical AND.

use vstd::prelude::*;
use crate::app_error::{AppResult, UnixTime};
use crate::deadline::OptionalDeadlineInput;
use crate::result_limit::{resolve_limit, OptionalResultLimit, QUERY_MAX_LIMIT};
use crate::text::{contains_seq, contains_str};
use crate::todos::{Priority, Status, Todo, TodoV};

verus! {

/// The dimension a search orders its results by; when absent, results are
/// ordered by title.
#[derive(Clone, Copy, Debug, PartialEq, Eq, Structural)]
pub enum QuerySort {
    Deadline,
    Priority,
    Status,
}

/// The mathematical content of a query.
pub ghost struct QueryV {
    pub keyword: Option<Seq<char>>,
    pub priority: Option<Priority>,
    pub status: Option<Status>,
    pub deadline: Option<Seq<char>>,
    pub sort: Option<QuerySort>,
    pub limit: Option<u32>,
}

/// Filter, sort and cap criteria for a search over the store.
pub struct Query {
    keyword: Option<String>,
    priority: Option<Priority>,
    status: Option<Status>,
    deadline: OptionalDeadlineInput,
    sort: Option<QuerySort>,
    limit: OptionalResultLimit,
}

impl View for Query {
    type V = QueryV;

    closed spec fn view(&self) -> QueryV {
        QueryV {
            keyword: match self.keyword {
                Option::Some(ref s) => Option::Some(s@),
                Option::None => Option::None,
            },
            priority: self.priority,
            status: self.status,
            deadline: self.deadline@,
            sort: self.sort,
            limit: self.limit@,
        }
    }
}

/// Whether a record passes the four filters, given the query and its
/// resolved deadline upper bound. A record with no deadline always passes a
/// deadline bound.
pub open spec fn matches_spec(q: QueryV, bound: Option<UnixTime>, t: TodoV) -> bool {
    &&& (q.keyword matches Some(k) ==> contains_seq(t.title, k))
    &&& (q.priority matches Some(p) ==> t.priority == p)
    &&& (q.status matches Some(s) ==> t.status == s)
    &&& (bound matches Some(b) ==> (t.deadline matches Some(d) ==> d <= b))
}

impl Query {
    /// A query with every filter unset: it matches every record, orders by
    /// title and caps results at the default limit.
    pub fn empty() -> (q: Query)
        ensures
            q@.keyword is None,
            q@.priority is None,
            q@.status is None,
            q@.deadline is None,
            q@.sort is None,
            q@.limit is None,
    {
        Query {
            keyword: None,
            priority: None,
            status: None,
            deadline: OptionalDeadlineInput::none(),
            sort: None,
            limit: OptionalResultLimit::none(),
        }
    }

    /// Starts building a query; every criterion defaults to unset.
    pub fn builder() -> (b: QueryBuilder)
        ensures
            b@.keyword is None,
            b@.priority is None,
            b@.status is None,
            b@.deadline is None,
            b@.sort is None,
            b@.limit is None,
    {
        QueryBuilder { q: Query::empty() }
    }

    /// The raw deadline upper bound of the query.
    pub fn deadline(&self) -> (r: &OptionalDeadlineInput)
        ensures
            r@ == self@.deadline,
    {
        &self.deadline
    }

    /// The requested sort dimension.
    pub fn sort(&self) -> (r: &Option<QuerySort>)
        ensures
            *r == self@.sort,
    {
        &self.sort
    }

    /// The raw result cap of the query.
    pub fn limit(&self) -> (r: &OptionalResultLimit)
        ensures
            r@ == self@.limit,
    {
        &self.limit
    }

    /// Clamps the query's raw result cap into range; never fails.
    pub fn validate_limit(&self) -> (r: AppResult<usize>)
        ensures
            r matches Ok(n) && n == resolve_limit(self@.limit),
            1 <= resolve_limit(self@.limit) <= QUERY_MAX_LIMIT,
    {
        self.limit.validated()
    }

    /// The keyword predicate: true when unset, else true exactly when the
    /// record's title contains the keyword as a substring.
    pub fn match_keyword(&self, todo: &Todo) -> (b: bool)
        ensures
            b == (self@.keyword matches Some(k) ==> contains_seq(todo@.title, k)),
    {
        match &self.keyword {
            None => true,
            Some(k) => contains_str(todo.title().as_str(), k.as_str()),
        }
    }

    /// The priority predicate: true when unset, else exact equality.
    pub fn match_priority(&self, todo: &Todo) -> (b: bool)
        ensures
            b == (self@.priority matches Some(p) ==> todo@.priority == p),
    {
        match self.priority {
            None => true,
            Some(p) => p == todo.priority(),
        }
    }

    /// The status predicate: true when unset, else exact equality.
    pub fn match_status(&self, todo: &Todo) -> (b: bool)
        ensures
            b == (self@.status matches Some(s) ==> todo@.status == s),
    {
        match self.status {
            None => true,
            Some(s) => s == todo.status(),
        }
    }

    /// The deadline predicate, over an already-resolved upper bound: true
    /// when the bound is unset or the record has no deadline, else true
    /// exactly when the record's deadline is at most the bound.
    pub fn match_deadline(bound: &Option<UnixTime>, todo: &Todo) -> (b: bool)
        ensures
            b == (*bound matches Some(bd) ==> (todo@.deadline matches Some(d) ==> d <= bd)),
    {
        match bound {
            None => true,
            Some(bd) => match todo.deadline() {
                Some(d) => d <= *bd,
                None => true,
            },
        }
    }

    /// All four predicates combined with AND.
    pub fn matches(&self, bound: &Option<UnixTime>, todo: &Todo) -> (b: bool)
        ensures
            b == matches_spec(self@, *bound, todo@),
    {
        self.match_keyword(todo) && self.match_priority(todo) && self.match_status(todo)
            && Query::match_deadline(bound, todo)
    }
}

/// Builds a query criterion by criterion.
pub struct QueryBuilder {
    q: Query,
}

impl View for QueryBuilder {
    type V = QueryV;

    closed spec fn view(&self) -> QueryV {
        self.q@
    }
}

impl QueryBuilder {
    pub fn keyword(self, v: Option<String>) -> (b: QueryBuilder)
        ensures
            b@ == (QueryV {
                keyword: match v {
                    Option::Some(s) => Option::Some(s@),
                    Option::None => Option::None,
                },
                ..self@
            }),
    {
        QueryBuilder { q: Query { keyword: v, ..self.q } }
    }

    pub fn priority(self, v: Option<Priority>) -> (b: QueryBuilder)
        ensures
            b@ == (QueryV { priority: v, ..self@ }),
    {
        QueryBuilder { q: Query { priority: v, ..self.q } }
    }

    pub fn status(self, v: Option<Status>) -> (b: QueryBuilder)
        ensures
            b@ == (QueryV { status: v, ..self@ }),
    {
        QueryBuilder { q: Query { status: v, ..self.q } }
    }

    pub fn deadline(self, v: OptionalDeadlineInput) -> (b: QueryBuilder)
        ensures
            b@ == (QueryV { deadline: v@, ..self@ }),
    {
        QueryBuilder { q: Query { deadline: v, ..self.q } }
    }

    pub fn sort(self, v: Option<QuerySort>) -> (b: QueryBuilder)
        ensures
            b@ == (QueryV { sort: v, ..self@ }),
    {
        QueryBuilder { q: Query { sort: v, ..self.q } }
    }

    pub fn limit(self, v: OptionalResultLimit) -> (b: QueryBuilder)
        ensures
            b@ == (QueryV { limit: v@, ..self@ }),
    {
        QueryBuilder { q: Query { limit: v, ..self.q } }
    }

    pub fn build(self) -> (q: Query)
        ensures
            q@ == self@,
    {
        self.q
    }
}

} // verus!
