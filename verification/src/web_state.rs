//! State kept by the web front end: the set of running background tasks and the
//! manual expansion of table-of-contents nodes.

use crate::text::{is_blank, str_eq, trim_spec, views};
use vstd::prelude::*;

verus! {

/// The delay before a typed dictionary search runs, in milliseconds.
pub const VLACKU_SEARCH_DEBOUNCE_MS: i32 = 900;

/// The delay before the dictionary page updates its address, in milliseconds.
pub const VLACKU_URL_DEBOUNCE_MS: i32 = 450;

/// The delay before the parser page updates its address, in milliseconds.
pub const GENTUFA_URL_DEBOUNCE_MS: i32 = 650;

/// The page that a background task works for.
#[derive(Debug, Clone, Copy, PartialEq, Eq, Structural)]
pub enum AsyncTaskKind {
    Gentufa,
    Cukta,
    Vlacku,
    Settings,
    Export,
}

/// A running background task.
#[derive(Debug, Clone, Copy, PartialEq, Eq, Structural)]
pub struct AsyncActivityTask {
    pub id: u64,
    pub kind: AsyncTaskKind,
}

/// The running background tasks, in the order they began, and the id the next task
/// gets.
#[derive(Debug, Clone)]
pub struct AsyncActivityState {
    pub next_task_id: u64,
    pub active_tasks: Vec<AsyncActivityTask>,
}

/// Whether a task with `id` is among `tasks`.
pub open spec fn has_task(tasks: Seq<AsyncActivityTask>, id: u64) -> bool {
    exists|i: int| 0 <= i < tasks.len() && #[trigger] tasks[i].id == id
}

/// The position of the first task with `id`, or `tasks.len()`.
pub open spec fn task_index(tasks: Seq<AsyncActivityTask>, id: u64) -> int
    decreases tasks.len(),
{
    if tasks.len() == 0 {
        0
    } else if tasks[0].id == id {
        0
    } else {
        1 + task_index(tasks.subrange(1, tasks.len() as int), id)
    }
}

/// The tasks after `begin`: the new one is added last, and the next id advances,
/// staying at the largest id once there.
pub open spec fn begin_tasks(
    tasks: Seq<AsyncActivityTask>,
    next: u64,
    kind: AsyncTaskKind,
) -> Seq<AsyncActivityTask> {
    tasks.push(AsyncActivityTask { id: next, kind })
}

/// The next id after `next`.
pub open spec fn advance_id(next: u64) -> u64 {
    if next == u64::MAX {
        u64::MAX
    } else {
        (next + 1) as u64
    }
}

/// The tasks after `finish(id)`: the first task with `id` is removed, if any.
pub open spec fn finish_tasks(tasks: Seq<AsyncActivityTask>, id: u64) -> Seq<AsyncActivityTask> {
    let k = task_index(tasks, id);
    if k < tasks.len() {
        tasks.remove(k)
    } else {
        tasks
    }
}

/// The ids are positive, below the next id, and distinct.
pub open spec fn activity_wf(next: u64, tasks: Seq<AsyncActivityTask>) -> bool {
    &&& next > 0
    &&& forall|i: int| 0 <= i < tasks.len() ==> 0 < #[trigger] tasks[i].id < next
    &&& forall|i: int, j: int|
        0 <= i < j < tasks.len() ==> #[trigger] tasks[i].id != #[trigger] tasks[j].id
}

pub proof fn lemma_task_index(tasks: Seq<AsyncActivityTask>, id: u64)
    ensures
        0 <= task_index(tasks, id) <= tasks.len(),
        task_index(tasks, id) < tasks.len() ==> tasks[task_index(tasks, id)].id == id,
        forall|j: int| 0 <= j < task_index(tasks, id) ==> #[trigger] tasks[j].id != id,
        task_index(tasks, id) < tasks.len() <==> has_task(tasks, id),
    decreases tasks.len(),
{
    if tasks.len() > 0 && tasks[0].id != id {
        let rest = tasks.subrange(1, tasks.len() as int);
        lemma_task_index(rest, id);
        assert forall|j: int| 0 <= j < task_index(tasks, id) implies #[trigger] tasks[j].id != id by {
            if j > 0 {
                assert(tasks[j] == rest[j - 1]);
            }
        }
        if has_task(tasks, id) {
            let i = choose|i: int| 0 <= i < tasks.len() && #[trigger] tasks[i].id == id;
            assert(rest[i - 1].id == id);
        }
        if has_task(rest, id) {
            let i = choose|i: int| 0 <= i < rest.len() && #[trigger] rest[i].id == id;
            assert(tasks[i + 1].id == id);
        }
    } else if tasks.len() > 0 {
        assert(tasks[0].id == id);
    }
}

impl Default for AsyncActivityState {
    fn default() -> (r: Self)
        ensures
            r.next_task_id == 1,
            r.active_tasks@ == Seq::<AsyncActivityTask>::empty(),
    {
        AsyncActivityState::new()
    }
}

impl AsyncActivityState {
    /// No running task; the first id is one.
    pub fn new() -> (r: Self)
        ensures
            r.next_task_id == 1,
            r.active_tasks@ == Seq::<AsyncActivityTask>::empty(),
    {
        AsyncActivityState { next_task_id: 1, active_tasks: Vec::new() }
    }

    /// Records a new running task of `kind` and returns its id.
    pub fn begin(&mut self, kind: AsyncTaskKind) -> (id: u64)
        requires
            old(self).next_task_id > 0,
        ensures
            id == old(self).next_task_id,
            final(self).next_task_id == advance_id(old(self).next_task_id),
            final(self).active_tasks@ == begin_tasks(
                old(self).active_tasks@,
                old(self).next_task_id,
                kind,
            ),
    {
        let id = self.next_task_id;
        self.next_task_id = self.next_task_id.saturating_add(1);
        self.active_tasks.push(AsyncActivityTask { id, kind });
        id
    }

    /// Records that the task `task_id` ended; whether it was running.
    pub fn finish(&mut self, task_id: u64) -> (r: bool)
        ensures
            r == has_task(old(self).active_tasks@, task_id),
            final(self).next_task_id == old(self).next_task_id,
            final(self).active_tasks@ == finish_tasks(old(self).active_tasks@, task_id),
    {
        let ghost tasks = self.active_tasks@;
        let mut i: usize = 0;
        while i < self.active_tasks.len()
            invariant
                i <= self.active_tasks.len(),
                self.active_tasks@ == tasks,
                self.next_task_id == old(self).next_task_id,
                tasks == old(self).active_tasks@,
                forall|j: int| 0 <= j < i ==> #[trigger] tasks[j].id != task_id,
            decreases self.active_tasks.len() - i,
        {
            if self.active_tasks[i].id == task_id {
                proof {
                    lemma_task_index(tasks, task_id);
                    let k = task_index(tasks, task_id);
                    if (i as int) < k {
                        assert(tasks[i as int].id != task_id);
                    }
                    if (i as int) > k {
                        assert(tasks[k].id != task_id);
                    }
                }
                self.active_tasks.remove(i);
                return true;
            }
            i = i + 1;
        }
        proof {
            lemma_task_index(tasks, task_id);
            let k = task_index(tasks, task_id);
            if k < tasks.len() {
                assert(tasks[k].id != task_id);
            }
        }
        false
    }

    /// Whether any task is running.
    pub fn is_active(&self) -> (r: bool)
        ensures
            r == (self.active_tasks@.len() > 0),
    {
        self.active_tasks.len() > 0
    }

    /// Whether a task of `kind` is running.
    pub fn has_kind(&self, kind: AsyncTaskKind) -> (r: bool)
        ensures
            r == exists|i: int|
                0 <= i < self.active_tasks@.len() && #[trigger] self.active_tasks@[i].kind == kind,
    {
        let mut i: usize = 0;
        while i < self.active_tasks.len()
            invariant
                i <= self.active_tasks.len(),
                forall|j: int| 0 <= j < i ==> #[trigger] self.active_tasks@[j].kind != kind,
            decreases self.active_tasks.len() - i,
        {
            if self.active_tasks[i].kind == kind {
                return true;
            }
            i = i + 1;
        }
        false
    }
}

/// A task that begins while the ids have not run out gets an id that no running task
/// has, and the state stays well formed.
pub proof fn law_begin_gives_fresh_id(
    next: u64,
    tasks: Seq<AsyncActivityTask>,
    kind: AsyncTaskKind,
)
    requires
        activity_wf(next, tasks),
        next < u64::MAX,
    ensures
        !has_task(tasks, next),
        activity_wf(advance_id(next), begin_tasks(tasks, next, kind)),
{
    let t2 = begin_tasks(tasks, next, kind);
    assert forall|i: int, j: int| 0 <= i < j < t2.len() implies #[trigger] t2[i].id
        != #[trigger] t2[j].id by {
        if j == tasks.len() {
            assert(t2[i] == tasks[i]);
        } else {
            assert(t2[i] == tasks[i] && t2[j] == tasks[j]);
        }
    }
    assert forall|i: int| 0 <= i < t2.len() implies 0 < #[trigger] t2[i].id < advance_id(next) by {
        if i < tasks.len() {
            assert(t2[i] == tasks[i]);
        }
    }
}

/// Finishing a task removes it for good: a well-formed state holds no task with that
/// id afterwards, so a second `finish` of it reports that it was not running, and the
/// state stays well formed.
pub proof fn law_finish_is_idempotent(next: u64, tasks: Seq<AsyncActivityTask>, id: u64)
    requires
        activity_wf(next, tasks),
    ensures
        !has_task(finish_tasks(tasks, id), id),
        finish_tasks(finish_tasks(tasks, id), id) == finish_tasks(tasks, id),
        activity_wf(next, finish_tasks(tasks, id)),
{
    lemma_task_index(tasks, id);
    let k = task_index(tasks, id);
    let t2 = finish_tasks(tasks, id);
    if k < tasks.len() {
        assert forall|i: int| 0 <= i < t2.len() implies #[trigger] t2[i].id != id by {
            if i < k {
                assert(t2[i] == tasks[i]);
            } else {
                assert(t2[i] == tasks[i + 1]);
            }
        }
        assert forall|i: int, j: int| 0 <= i < j < t2.len() implies #[trigger] t2[i].id
            != #[trigger] t2[j].id by {
            let a = if i < k {
                i
            } else {
                i + 1
            };
            let b = if j < k {
                j
            } else {
                j + 1
            };
            assert(t2[i] == tasks[a] && t2[j] == tasks[b]);
        }
        assert forall|i: int| 0 <= i < t2.len() implies 0 < #[trigger] t2[i].id < next by {
            if i < k {
                assert(t2[i] == tasks[i]);
            } else {
                assert(t2[i] == tasks[i + 1]);
            }
        }
    }
    lemma_task_index(t2, id);
}

/// Finishing the task that just began gives back the running tasks from before it
/// began, and `finish` reports that it was running.
pub proof fn law_finish_undoes_begin(next: u64, tasks: Seq<AsyncActivityTask>, kind: AsyncTaskKind)
    requires
        activity_wf(next, tasks),
    ensures
        has_task(begin_tasks(tasks, next, kind), next),
        finish_tasks(begin_tasks(tasks, next, kind), next) == tasks,
{
    let t2 = begin_tasks(tasks, next, kind);
    lemma_task_index(t2, next);
    assert(t2[tasks.len() as int].id == next);
    let k = task_index(t2, next);
    if k < tasks.len() {
        assert(t2[k] == tasks[k]);
    }
    assert(t2.remove(tasks.len() as int) =~= tasks);
}

/// The manual expansion of table-of-contents nodes: those opened and those closed
/// against their default.
#[derive(Debug, Clone)]
pub struct CuktaTocExpansionState {
    pub expanded: Vec<String>,
    pub collapsed: Vec<String>,
}

/// No node id is empty, and no node is both opened and closed.
pub open spec fn toc_expansion_wf(expanded: Seq<Seq<char>>, collapsed: Seq<Seq<char>>) -> bool {
    &&& forall|i: int| 0 <= i < expanded.len() ==> (#[trigger] expanded[i]).len() > 0
    &&& forall|i: int| 0 <= i < collapsed.len() ==> (#[trigger] collapsed[i]).len() > 0
    &&& forall|x: Seq<char>| expanded.contains(x) ==> !collapsed.contains(x)
}

/// Whether a node is expanded: opened or closed by hand, else as its default says.
pub open spec fn expanded_spec(
    expanded: Seq<Seq<char>>,
    collapsed: Seq<Seq<char>>,
    node: Seq<char>,
    default_expanded: bool,
) -> bool {
    if expanded.contains(node) {
        true
    } else if collapsed.contains(node) {
        false
    } else {
        default_expanded
    }
}

/// `list` without the entries equal to `x`.
pub open spec fn without(list: Seq<Seq<char>>, x: Seq<char>) -> Seq<Seq<char>>
    decreases list.len(),
{
    if list.len() == 0 {
        seq![]
    } else if list.last() == x {
        without(list.drop_last(), x)
    } else {
        without(list.drop_last(), x).push(list.last())
    }
}

pub proof fn lemma_without(list: Seq<Seq<char>>, x: Seq<char>)
    ensures
        forall|y: Seq<char>| #[trigger] without(list, x).contains(y) <==> (list.contains(y) && y
            != x),
        forall|i: int|
            0 <= i < without(list, x).len() ==> exists|j: int|
                0 <= j < list.len() && list[j] == #[trigger] without(list, x)[i],
    decreases list.len(),
{
    if list.len() > 0 {
        let l = list.drop_last();
        lemma_without(l, x);
        assert forall|y: Seq<char>| #[trigger] without(list, x).contains(y) <==> (list.contains(y)
            && y != x) by {
            if list.contains(y) && y != x {
                let j = choose|j: int| 0 <= j < list.len() && list[j] == y;
                if j < l.len() {
                    assert(l[j] == y);
                    assert(without(l, x).contains(y));
                    let k = choose|k: int| 0 <= k < without(l, x).len() && without(l, x)[k] == y;
                    if list.last() != x {
                        assert(without(list, x)[k] == y);
                    }
                } else {
                    assert(without(list, x).last() == y);
                }
            }
            if without(list, x).contains(y) {
                let k = choose|k: int| 0 <= k < without(list, x).len() && without(list, x)[k] == y;
                if list.last() != x && k == without(list, x).len() - 1 {
                    assert(list[list.len() - 1] == y);
                } else {
                    assert(without(l, x)[k] == y);
                    assert(without(l, x).contains(y));
                    let j = choose|j: int| 0 <= j < l.len() && l[j] == y;
                    assert(list[j] == y);
                }
            }
        }
        assert forall|i: int| 0 <= i < without(list, x).len() implies exists|j: int|
            0 <= j < list.len() && list[j] == #[trigger] without(list, x)[i] by {
            if list.last() != x && i == without(list, x).len() - 1 {
                assert(list[list.len() - 1] == without(list, x)[i]);
            } else {
                assert(without(list, x)[i] == without(l, x)[i]);
                let j = choose|j: int| 0 <= j < l.len() && l[j] == without(l, x)[i];
                assert(list[j] == l[j]);
            }
        }
    }
}

/// The lists after setting `node` to `desired`: the node leaves both lists, and is
/// added to the matching list only when `desired` differs from its default.
pub open spec fn with_node_state_spec(
    expanded: Seq<Seq<char>>,
    collapsed: Seq<Seq<char>>,
    node: Seq<char>,
    default_expanded: bool,
    desired: bool,
) -> (Seq<Seq<char>>, Seq<Seq<char>>) {
    let e = without(expanded, node);
    let c = without(collapsed, node);
    if desired != default_expanded {
        if desired {
            (e.push(node), c)
        } else {
            (e, c.push(node))
        }
    } else {
        (e, c)
    }
}

fn without_exec(list: &Vec<String>, x: &str) -> (r: Vec<String>)
    ensures
        views(r@) == without(views(list@), x@),
{
    let mut out: Vec<String> = Vec::new();
    let mut i: usize = 0;
    while i < list.len()
        invariant
            i <= list.len(),
            views(out@) == without(views(list@).subrange(0, i as int), x@),
        decreases list.len() - i,
    {
        let ghost s = views(list@).subrange(0, i + 1);
        assert(s.drop_last() =~= views(list@).subrange(0, i as int));
        assert(s.last() == list@[i as int]@);
        if !str_eq(list[i].as_str(), x) {
            let ghost before = views(out@);
            out.push(list[i].clone());
            assert(views(out@) =~= before.push(list@[i as int]@));
        }
        i = i + 1;
    }
    assert(views(list@).subrange(0, list.len() as int) =~= views(list@));
    out
}

fn contains_exec(list: &Vec<String>, x: &str) -> (r: bool)
    ensures
        r == views(list@).contains(x@),
{
    let mut i: usize = 0;
    while i < list.len()
        invariant
            i <= list.len(),
            forall|j: int| 0 <= j < i ==> #[trigger] list@[j]@ != x@,
        decreases list.len() - i,
    {
        if str_eq(list[i].as_str(), x) {
            assert(views(list@)[i as int] == x@);
            return true;
        }
        i = i + 1;
    }
    proof {
        if views(list@).contains(x@) {
            let j = choose|j: int| 0 <= j < views(list@).len() && views(list@)[j] == x@;
            assert(list@[j]@ == x@);
        }
    }
    false
}

impl Default for CuktaTocExpansionState {
    fn default() -> (r: Self)
        ensures
            r.expanded@.len() == 0,
            r.collapsed@.len() == 0,
    {
        CuktaTocExpansionState::new()
    }
}

impl CuktaTocExpansionState {
    /// No node opened or closed by hand.
    pub fn new() -> (r: Self)
        ensures
            r.expanded@.len() == 0,
            r.collapsed@.len() == 0,
    {
        CuktaTocExpansionState { expanded: Vec::new(), collapsed: Vec::new() }
    }
}

/// Whether a table-of-contents node is expanded.
pub fn cukta_toc_node_expanded_with_default(
    node_id: &str,
    default_expanded: bool,
    expansion: &CuktaTocExpansionState,
) -> (r: bool)
    ensures
        r == expanded_spec(
            views(expansion.expanded@),
            views(expansion.collapsed@),
            node_id@,
            default_expanded,
        ),
{
    if contains_exec(&expansion.expanded, node_id) {
        true
    } else if contains_exec(&expansion.collapsed, node_id) {
        false
    } else {
        default_expanded
    }
}

/// Whether a node is shown expanded: every node is while a filter is typed.
pub fn toc_node_expanded(
    node_id: &str,
    node_active: bool,
    filter: &str,
    expansion: &CuktaTocExpansionState,
) -> (r: bool)
    ensures
        r == (trim_spec(filter@).len() > 0 || expanded_spec(
            views(expansion.expanded@),
            views(expansion.collapsed@),
            node_id@,
            node_active,
        )),
{
    if !is_blank(filter) {
        return true;
    }
    cukta_toc_node_expanded_with_default(node_id, node_active, expansion)
}

/// The expansion state after setting `node_id` to `desired_expanded`.
pub fn cukta_toc_expansion_with_node_state(
    expansion: &CuktaTocExpansionState,
    node_id: &str,
    default_expanded: bool,
    desired_expanded: bool,
) -> (r: CuktaTocExpansionState)
    ensures
        (views(r.expanded@), views(r.collapsed@)) == with_node_state_spec(
            views(expansion.expanded@),
            views(expansion.collapsed@),
            node_id@,
            default_expanded,
            desired_expanded,
        ),
{
    let mut expanded = without_exec(&expansion.expanded, node_id);
    let mut collapsed = without_exec(&expansion.collapsed, node_id);
    if desired_expanded != default_expanded {
        if desired_expanded {
            let ghost before = views(expanded@);
            expanded.push(crate::text::owned(node_id));
            assert(views(expanded@) =~= before.push(node_id@));
        } else {
            let ghost before = views(collapsed@);
            collapsed.push(crate::text::owned(node_id));
            assert(views(collapsed@) =~= before.push(node_id@));
        }
    }
    CuktaTocExpansionState { expanded, collapsed }
}

/// Setting a node's expansion takes effect whatever the state was, leaves every other
/// node as it was, keeps the state well formed, and leaves no override behind when the
/// node is set to its default.
pub proof fn law_toc_node_state(
    expanded: Seq<Seq<char>>,
    collapsed: Seq<Seq<char>>,
    node: Seq<char>,
    default_expanded: bool,
    desired: bool,
    other: Seq<char>,
    other_default: bool,
)
    requires
        toc_expansion_wf(expanded, collapsed),
        node.len() > 0,
    ensures
        ({
            let (e, c) = with_node_state_spec(expanded, collapsed, node, default_expanded, desired);
            &&& expanded_spec(e, c, node, default_expanded) == desired
            &&& other != node ==> expanded_spec(e, c, other, other_default) == expanded_spec(
                expanded,
                collapsed,
                other,
                other_default,
            )
            &&& toc_expansion_wf(e, c)
            &&& desired == default_expanded ==> !e.contains(node) && !c.contains(node)
        }),
{
    lemma_without(expanded, node);
    lemma_without(collapsed, node);
    let e0 = without(expanded, node);
    let c0 = without(collapsed, node);
    let (e, c) = with_node_state_spec(expanded, collapsed, node, default_expanded, desired);
    assert forall|y: Seq<char>| #[trigger] e.contains(y) <==> (e0.contains(y) || (y == node
        && desired && desired != default_expanded)) by {
        if desired && desired != default_expanded {
            if e.contains(y) && !e0.contains(y) {
                let k = choose|k: int| 0 <= k < e.len() && e[k] == y;
                if k < e0.len() {
                    assert(e0[k] == y);
                }
            }
            if e0.contains(y) {
                let k = choose|k: int| 0 <= k < e0.len() && e0[k] == y;
                assert(e[k] == y);
            }
            if y == node {
                assert(e[e.len() - 1] == y);
            }
        }
    }
    assert forall|y: Seq<char>| #[trigger] c.contains(y) <==> (c0.contains(y) || (y == node
        && !desired && desired != default_expanded)) by {
        if !desired && desired != default_expanded {
            if c.contains(y) && !c0.contains(y) {
                let k = choose|k: int| 0 <= k < c.len() && c[k] == y;
                if k < c0.len() {
                    assert(c0[k] == y);
                }
            }
            if c0.contains(y) {
                let k = choose|k: int| 0 <= k < c0.len() && c0[k] == y;
                assert(c[k] == y);
            }
            if y == node {
                assert(c[c.len() - 1] == y);
            }
        }
    }
    assert forall|i: int| 0 <= i < e.len() implies (#[trigger] e[i]).len() > 0 by {
        if i < e0.len() {
            assert(e[i] == e0[i]);
            let j = choose|j: int| 0 <= j < expanded.len() && expanded[j] == e0[i];
        }
    }
    assert forall|i: int| 0 <= i < c.len() implies (#[trigger] c[i]).len() > 0 by {
        if i < c0.len() {
            assert(c[i] == c0[i]);
            let j = choose|j: int| 0 <= j < collapsed.len() && collapsed[j] == c0[i];
        }
    }
}

/// The node ids among `ids` that are not empty and not among `excluded`, in order.
pub open spec fn kept_ids(ids: Seq<Seq<char>>, excluded: Seq<Seq<char>>) -> Seq<Seq<char>>
    decreases ids.len(),
{
    if ids.len() == 0 {
        seq![]
    } else {
        let acc = kept_ids(ids.drop_last(), excluded);
        if ids.last().len() > 0 && !excluded.contains(ids.last()) {
            acc.push(ids.last())
        } else {
            acc
        }
    }
}

proof fn lemma_kept_ids(ids: Seq<Seq<char>>, excluded: Seq<Seq<char>>)
    ensures
        forall|i: int| 0 <= i < kept_ids(ids, excluded).len() ==> (#[trigger] kept_ids(ids, excluded)[i]).len() > 0
            && !excluded.contains(kept_ids(ids, excluded)[i]),
        forall|x: Seq<char>| kept_ids(ids, excluded).contains(x) ==> !excluded.contains(x),
    decreases ids.len(),
{
    if ids.len() > 0 {
        lemma_kept_ids(ids.drop_last(), excluded);
        let acc = kept_ids(ids.drop_last(), excluded);
        let k = kept_ids(ids, excluded);
        assert forall|x: Seq<char>| k.contains(x) implies !excluded.contains(x) by {
            let j = choose|j: int| 0 <= j < k.len() && k[j] == x;
            if j < acc.len() {
                assert(k[j] == acc[j]);
            }
        }
    }
}

fn kept_ids_exec(ids: &Vec<String>, excluded: &Vec<String>) -> (r: Vec<String>)
    ensures
        views(r@) == kept_ids(views(ids@), views(excluded@)),
{
    let mut out: Vec<String> = Vec::new();
    let mut i: usize = 0;
    while i < ids.len()
        invariant
            i <= ids.len(),
            views(out@) == kept_ids(views(ids@).subrange(0, i as int), views(excluded@)),
        decreases ids.len() - i,
    {
        let ghost next = views(ids@).subrange(0, i + 1);
        assert(next.drop_last() =~= views(ids@).subrange(0, i as int));
        assert(next.last() == ids@[i as int]@);
        let id = ids[i].as_str();
        if !id.is_empty() && !contains_exec(excluded, id) {
            let ghost before = out@;
            out.push(crate::text::owned(id));
            assert(views(out@) =~= views(before).push(id@));
        }
        i = i + 1;
    }
    assert(views(ids@).subrange(0, ids.len() as int) =~= views(ids@));
    out
}

/// The manual expansion read back from storage: the stored node ids without empty
/// ones, and a node stored as both opened and closed counts as opened.
pub fn cukta_toc_expansion_from_stored(expanded: &Vec<String>, collapsed: &Vec<String>) -> (r:
    CuktaTocExpansionState)
    ensures
        views(r.expanded@) == kept_ids(views(expanded@), seq![]),
        views(r.collapsed@) == kept_ids(views(collapsed@), views(r.expanded@)),
        toc_expansion_wf(views(r.expanded@), views(r.collapsed@)),
{
    let none: Vec<String> = Vec::new();
    assert(views(none@) =~= seq![]);
    let opened = kept_ids_exec(expanded, &none);
    let closed = kept_ids_exec(collapsed, &opened);
    proof {
        lemma_kept_ids(views(expanded@), seq![]);
        lemma_kept_ids(views(collapsed@), views(opened@));
        let e = views(opened@);
        let c = views(closed@);
        assert forall|x: Seq<char>| e.contains(x) implies !c.contains(x) by {
            if c.contains(x) {
                assert(!e.contains(x));
            }
        }
    }
    CuktaTocExpansionState { expanded: opened, collapsed: closed }
}

} // verus!
