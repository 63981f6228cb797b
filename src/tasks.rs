use vstd::prelude::*;

use crate::text::{contains_text, has_substring, pop_char, push_char};

verus! {

/// A process as the task list shows it.
#[derive(Debug)]
pub struct Task {
    pub pid: String,
    pub name: String,
    pub state: String,
    pub cmdline: String,
}

impl Task {
    /// A task with every field empty.
    pub fn new() -> (r: Task)
        ensures
            r.pid@ == Seq::<char>::empty(),
            r.name@ == Seq::<char>::empty(),
            r.state@ == Seq::<char>::empty(),
            r.cmdline@ == Seq::<char>::empty(),
    {
        Task { pid: String::new(), name: String::new(), state: String::new(), cmdline: String::new() }
    }

    /// A copy of the task.
    pub fn clone(&self) -> (r: Task)
        ensures
            r == *self,
    {
        Task {
            pid: self.pid.clone(),
            name: self.name.clone(),
            state: self.state.clone(),
            cmdline: self.cmdline.clone(),
        }
    }
}

/// The selection after moving up a list of `len` entries: from the first
/// entry (or from none) to the last; nothing on an empty list.
pub open spec fn index_up(sel: Option<usize>, len: nat) -> Option<usize> {
    if len == 0 {
        None
    } else {
        match sel {
            Some(i) if 0 < i && i <= len => Some((i - 1) as usize),
            _ => Some((len - 1) as usize),
        }
    }
}

/// The selection after moving down a list of `len` entries: from the last
/// entry (or from none) to the first; nothing on an empty list.
pub open spec fn index_down(sel: Option<usize>, len: nat) -> Option<usize> {
    if len == 0 {
        None
    } else {
        match sel {
            Some(i) if i + 1 < len => Some((i + 1) as usize),
            _ => Some(0),
        }
    }
}

/// Moves a list selection one entry up, wrapping round from the first entry
/// to the last.
pub fn index_up_exec(sel: Option<usize>, len: usize) -> (r: Option<usize>)
    ensures
        r == index_up(sel, len as nat),
{
    if len == 0 {
        None
    } else {
        match sel {
            Some(i) if 0 < i && i <= len => Some(i - 1),
            _ => Some(len - 1),
        }
    }
}

/// Moves a list selection one entry down, wrapping round from the last entry
/// to the first.
pub fn index_down_exec(sel: Option<usize>, len: usize) -> (r: Option<usize>)
    ensures
        r == index_down(sel, len as nat),
{
    if len == 0 {
        None
    } else {
        match sel {
            Some(i) if i < len - 1 => Some(i + 1),
            _ => Some(0),
        }
    }
}

/// Moving up from the first entry selects the last, moving down from the
/// last selects the first, and `len` moves either way come back to where
/// they started; on an empty list no move selects anything.
pub proof fn lemma_navigation_wraps(len: nat, i: usize)
    requires
        i < len,
        len <= usize::MAX,
    ensures
        index_up(Some(0), len) == Some((len - 1) as usize),
        index_down(Some((len - 1) as usize), len) == Some(0usize),
        index_up(Some(i), len) == Some((if i == 0 { len - 1 } else { i - 1 }) as usize),
        index_down(Some(i), len) == Some((if i + 1 == len { 0 } else { i + 1 }) as usize),
        index_up(index_down(Some(i), len), len) == Some(i),
        index_down(index_up(Some(i), len), len) == Some(i),
        index_up(None, 0) is None,
        index_down(None, 0) is None,
{
}

/// Whether a task passes a filter on its name (`by_name`) or on its pid.
pub open spec fn task_matches(t: Task, needle: Seq<char>, by_name: bool) -> bool {
    if by_name {
        has_substring(t.name@, needle)
    } else {
        has_substring(t.pid@, needle)
    }
}

/// The positions, among the first `n` tasks, of those that pass the filter.
pub open spec fn filter_prefix(tasks: Seq<Task>, needle: Seq<char>, by_name: bool, n: int) -> Seq<
    usize,
>
    decreases n,
{
    if n <= 0 {
        Seq::empty()
    } else {
        let rest = filter_prefix(tasks, needle, by_name, n - 1);
        if task_matches(tasks[n - 1], needle, by_name) {
            rest.push((n - 1) as usize)
        } else {
            rest
        }
    }
}

/// The positions of the tasks that pass the filter, in list order.
pub open spec fn filter_positions(tasks: Seq<Task>, needle: Seq<char>, by_name: bool) -> Seq<usize> {
    filter_prefix(tasks, needle, by_name, tasks.len() as int)
}

/// The task list with its filter and selection. While a filter mode is on
/// and its text is not empty, only the tasks whose name (or pid) contains
/// the text are listed; otherwise the whole list is.
#[derive(Debug)]
pub struct TaskSelection {
    pub task_list: Vec<Task>,
    /// The selected entry of the listed tasks.
    pub selected: Option<usize>,
    pub name_search: bool,
    pub pid_search: bool,
    pub search_string: String,
    /// Positions in `task_list` of the listed tasks, while a filter applies.
    pub filtered_task_list: Option<Vec<usize>>,
    pub ui_msg: Option<String>,
}

impl TaskSelection {
    /// The filter that the modes and text call for, if any.
    pub open spec fn filter_spec(&self) -> Option<Seq<usize>> {
        if (self.name_search || self.pid_search) && self.search_string@.len() > 0 {
            Some(filter_positions(self.task_list@, self.search_string@, self.name_search))
        } else {
            None
        }
    }

    /// How many tasks are listed.
    pub open spec fn visible_len_spec(&self) -> nat {
        match self.filtered_task_list {
            Some(v) => v@.len(),
            None => self.task_list@.len(),
        }
    }

    /// The task listed at `i`.
    pub open spec fn visible_at(&self, i: int) -> Task {
        match self.filtered_task_list {
            Some(v) => self.task_list@[v@[i] as int],
            None => self.task_list@[i],
        }
    }

    pub open spec fn wf(&self) -> bool {
        &&& !(self.name_search && self.pid_search)
        &&& match self.filtered_task_list {
            Some(v) => self.filter_spec() == Some(v@),
            None => self.filter_spec() is None,
        }
        &&& self.selected matches Some(i) ==> i < self.visible_len_spec()
    }

    /// An empty list with no filter and nothing selected.
    pub fn new() -> (r: TaskSelection)
        ensures
            r.wf(),
            r.task_list@.len() == 0,
            r.selected is None,
            !r.name_search,
            !r.pid_search,
            r.search_string@.len() == 0,
            r.filtered_task_list is None,
            r.ui_msg is None,
    {
        TaskSelection {
            task_list: Vec::new(),
            selected: None,
            name_search: false,
            pid_search: false,
            search_string: String::new(),
            filtered_task_list: None,
            ui_msg: None,
        }
    }

    /// How many tasks are listed.
    pub fn visible_len(&self) -> (r: usize)
        requires
            self.wf(),
        ensures
            r == self.visible_len_spec(),
    {
        match &self.filtered_task_list {
            Some(v) => v.len(),
            None => self.task_list.len(),
        }
    }

    /// The task listed at `i`.
    pub fn visible_task(&self, i: usize) -> (r: &Task)
        requires
            self.wf(),
            i < self.visible_len_spec(),
        ensures
            *r == self.visible_at(i as int),
    {
        match &self.filtered_task_list {
            Some(v) => {
                proof {
                    lemma_filter_prefix_bounds(self.task_list@, self.search_string@, self.name_search,
                        self.task_list@.len() as int);
                }
                &self.task_list[v[i]]
            },
            None => &self.task_list[i],
        }
    }

    /// Copies of the listed tasks, in list order.
    pub fn visible_tasks(&self) -> (r: Vec<Task>)
        requires
            self.wf(),
        ensures
            r@.len() == self.visible_len_spec(),
            forall|i: int| 0 <= i < r@.len() ==> #[trigger] r@[i] == self.visible_at(i),
    {
        let n = self.visible_len();
        let mut r: Vec<Task> = Vec::new();
        let mut i: usize = 0;
        while i < n
            invariant
                self.wf(),
                n == self.visible_len_spec(),
                i <= n,
                r@.len() == i,
                forall|k: int| 0 <= k < i ==> #[trigger] r@[k] == self.visible_at(k),
            decreases n - i,
        {
            r.push(self.visible_task(i).clone());
            i += 1;
        }
        r
    }

    /// Recomputes the listed tasks from the filter modes and text, and
    /// clears the selection, which may no longer point at the same task.
    pub fn update_filtered_list(&mut self)
        requires
            !(old(self).name_search && old(self).pid_search),
        ensures
            final(self).wf(),
            final(self).selected is None,
            final(self).task_list == old(self).task_list,
            final(self).name_search == old(self).name_search,
            final(self).pid_search == old(self).pid_search,
            final(self).search_string == old(self).search_string,
            final(self).ui_msg == old(self).ui_msg,
    {
        self.selected = None;
        if !(self.name_search || self.pid_search) || self.search_string.as_str().is_empty() {
            self.filtered_task_list = None;
            return;
        }
        let by_name = self.name_search;
        let mut filtered: Vec<usize> = Vec::new();
        let mut i: usize = 0;
        while i < self.task_list.len()
            invariant
                i <= self.task_list@.len(),
                by_name == self.name_search,
                filtered@ == filter_prefix(self.task_list@, self.search_string@, by_name, i as int),
            decreases self.task_list@.len() - i,
        {
            let t = &self.task_list[i];
            let hit = if by_name {
                contains_text(t.name.as_str(), self.search_string.as_str())
            } else {
                contains_text(t.pid.as_str(), self.search_string.as_str())
            };
            if hit {
                filtered.push(i);
            }
            i += 1;
        }
        self.filtered_task_list = Some(filtered);
    }

    /// Replaces the task list (with an empty one where the tasks could not be
    /// read), re-applies the filter and clears the selection.
    pub fn refresh_list(&mut self, tasks: Option<Vec<Task>>)
        requires
            old(self).wf(),
        ensures
            final(self).wf(),
            match tasks {
                Some(t) => final(self).task_list@ == t@,
                None => final(self).task_list@.len() == 0,
            },
            final(self).selected is None,
            final(self).name_search == old(self).name_search,
            final(self).pid_search == old(self).pid_search,
            final(self).search_string == old(self).search_string,
    {
        self.task_list = match tasks {
            Some(t) => t,
            None => Vec::new(),
        };
        self.update_filtered_list();
    }

    /// Selects the next listed task, wrapping round to the first.
    pub fn increment_index(&mut self)
        requires
            old(self).wf(),
        ensures
            final(self).wf(),
            final(self).selected == index_down(old(self).selected, old(self).visible_len_spec()),
            final(self).task_list == old(self).task_list,
            final(self).filtered_task_list == old(self).filtered_task_list,
            final(self).name_search == old(self).name_search,
            final(self).pid_search == old(self).pid_search,
            final(self).search_string == old(self).search_string,
            final(self).ui_msg == old(self).ui_msg,
    {
        let n = self.visible_len();
        self.selected = index_down_exec(self.selected, n);
    }

    /// Selects the previous listed task, wrapping round to the last.
    pub fn decrement_index(&mut self)
        requires
            old(self).wf(),
        ensures
            final(self).wf(),
            final(self).selected == index_up(old(self).selected, old(self).visible_len_spec()),
            final(self).task_list == old(self).task_list,
            final(self).filtered_task_list == old(self).filtered_task_list,
            final(self).name_search == old(self).name_search,
            final(self).pid_search == old(self).pid_search,
            final(self).search_string == old(self).search_string,
            final(self).ui_msg == old(self).ui_msg,
    {
        let n = self.visible_len();
        self.selected = index_up_exec(self.selected, n);
    }

    /// Clears the selection.
    pub fn deselect_index(&mut self)
        requires
            old(self).wf(),
        ensures
            final(self).wf(),
            final(self).selected is None,
            final(self).task_list == old(self).task_list,
            final(self).filtered_task_list == old(self).filtered_task_list,
            final(self).name_search == old(self).name_search,
            final(self).pid_search == old(self).pid_search,
            final(self).search_string == old(self).search_string,
            final(self).ui_msg == old(self).ui_msg,
    {
        self.selected = None;
    }

    /// Leaves filtering: every task is listed again and nothing is selected;
    /// the filter text is kept.
    pub fn stop_search(&mut self)
        requires
            old(self).wf(),
        ensures
            final(self).wf(),
            !final(self).name_search,
            !final(self).pid_search,
            final(self).search_string == old(self).search_string,
            final(self).filtered_task_list is None,
            final(self).selected is None,
            final(self).task_list == old(self).task_list,
            final(self).ui_msg == old(self).ui_msg,
    {
        self.pid_search = false;
        self.name_search = false;
        self.filtered_task_list = None;
        self.selected = None;
    }

    /// Filters by pid from now on, in place of any name filter.
    pub fn start_pid_search(&mut self)
        requires
            old(self).wf(),
        ensures
            final(self).wf(),
            final(self).pid_search,
            !final(self).name_search,
            final(self).selected is None,
            final(self).task_list == old(self).task_list,
            final(self).search_string == old(self).search_string,
            final(self).ui_msg == old(self).ui_msg,
    {
        self.pid_search = true;
        self.name_search = false;
        self.update_filtered_list();
    }

    /// Filters by name from now on, in place of any pid filter.
    pub fn start_name_search(&mut self)
        requires
            old(self).wf(),
        ensures
            final(self).wf(),
            final(self).name_search,
            !final(self).pid_search,
            final(self).selected is None,
            final(self).task_list == old(self).task_list,
            final(self).search_string == old(self).search_string,
            final(self).ui_msg == old(self).ui_msg,
    {
        self.name_search = true;
        self.pid_search = false;
        self.update_filtered_list();
    }

    /// Adds a character to the filter text and filters again.
    pub fn push_search_char(&mut self, c: char)
        requires
            old(self).wf(),
        ensures
            final(self).wf(),
            final(self).search_string@ == old(self).search_string@.push(c),
            final(self).selected is None,
            final(self).task_list == old(self).task_list,
            final(self).name_search == old(self).name_search,
            final(self).pid_search == old(self).pid_search,
            final(self).ui_msg == old(self).ui_msg,
    {
        push_char(&mut self.search_string, c);
        self.update_filtered_list();
    }

    /// Removes the last character of the filter text, if any, and filters
    /// again.
    pub fn pop_search_char(&mut self)
        requires
            old(self).wf(),
        ensures
            final(self).wf(),
            old(self).search_string@.len() > 0 ==> final(self).search_string@
                == old(self).search_string@.drop_last(),
            old(self).search_string@.len() == 0 ==> final(self).search_string@
                == old(self).search_string@,
            final(self).selected is None,
            final(self).task_list == old(self).task_list,
            final(self).name_search == old(self).name_search,
            final(self).pid_search == old(self).pid_search,
            final(self).ui_msg == old(self).ui_msg,
    {
        let _ = pop_char(&mut self.search_string);
        self.update_filtered_list();
    }
}

proof fn lemma_filter_prefix_bounds(tasks: Seq<Task>, needle: Seq<char>, by_name: bool, n: int)
    requires
        n <= tasks.len(),
    ensures
        forall|k: int|
            0 <= k < filter_prefix(tasks, needle, by_name, n).len() ==> #[trigger] filter_prefix(
                tasks,
                needle,
                by_name,
                n,
            )[k] < n,
    decreases n,
{
    if n > 0 {
        lemma_filter_prefix_bounds(tasks, needle, by_name, n - 1);
        let rest = filter_prefix(tasks, needle, by_name, n - 1);
        if task_matches(tasks[n - 1], needle, by_name) {
            assert forall|k: int| 0 <= k < rest.len() + 1 implies #[trigger] rest.push(
                (n - 1) as usize,
            )[k] < n by {
                if k < rest.len() {
                    assert(rest.push((n - 1) as usize)[k] == rest[k]);
                }
            }
        }
    }
}

proof fn lemma_filter_prefix_exact(tasks: Seq<Task>, needle: Seq<char>, by_name: bool, n: int)
    requires
        0 <= n <= tasks.len(),
        tasks.len() <= usize::MAX,
    ensures
        forall|k: int|
            0 <= k < filter_prefix(tasks, needle, by_name, n).len() ==> {
                &&& #[trigger] filter_prefix(tasks, needle, by_name, n)[k] < n
                &&& task_matches(
                    tasks[filter_prefix(tasks, needle, by_name, n)[k] as int],
                    needle,
                    by_name,
                )
            },
        forall|k: int, l: int|
            0 <= k < l < filter_prefix(tasks, needle, by_name, n).len() ==> #[trigger] filter_prefix(
                tasks,
                needle,
                by_name,
                n,
            )[k] < #[trigger] filter_prefix(tasks, needle, by_name, n)[l],
        forall|j: int|
            0 <= j < n && #[trigger] task_matches(tasks[j], needle, by_name) ==> filter_prefix(
                tasks,
                needle,
                by_name,
                n,
            ).contains(j as usize),
    decreases n,
{
    if n > 0 {
        lemma_filter_prefix_exact(tasks, needle, by_name, n - 1);
        let rest = filter_prefix(tasks, needle, by_name, n - 1);
        if task_matches(tasks[n - 1], needle, by_name) {
            let all = rest.push((n - 1) as usize);
            assert forall|k: int| 0 <= k < all.len() implies #[trigger] all[k] < n && task_matches(
                tasks[all[k] as int],
                needle,
                by_name,
            ) by {
                if k < rest.len() {
                    assert(all[k] == rest[k]);
                }
            }
            assert forall|k: int, l: int| 0 <= k < l < all.len() implies #[trigger] all[k]
                < #[trigger] all[l] by {
                assert(all[k] == rest[k]);
                if l < rest.len() {
                    assert(all[l] == rest[l]);
                }
            }
            assert forall|j: int| 0 <= j < n && #[trigger] task_matches(tasks[j], needle, by_name)
                implies all.contains(j as usize) by {
                if j < n - 1 {
                    let k = choose|k: int| 0 <= k < rest.len() && rest[k] == j as usize;
                    assert(all[k] == j as usize);
                } else {
                    assert(all[rest.len() as int] == j as usize);
                }
            }
        }
    }
}

/// Without a filter text every task is listed, in list order; with one,
/// exactly the tasks whose name (or pid) contains it are listed, in list
/// order.
pub proof fn lemma_filter_lists_matching(sel: TaskSelection)
    requires
        sel.wf(),
        sel.task_list@.len() <= usize::MAX,
    ensures
        !(sel.name_search || sel.pid_search) || sel.search_string@.len() == 0 ==> {
            &&& sel.visible_len_spec() == sel.task_list@.len()
            &&& forall|i: int| 0 <= i < sel.task_list@.len() ==> #[trigger] sel.visible_at(i) == sel.task_list@[i]
        },
        (sel.name_search || sel.pid_search) && sel.search_string@.len() > 0 ==> {
            let v = sel.filtered_task_list->0@;
            &&& forall|i: int|
                0 <= i < sel.visible_len_spec() ==> task_matches(
                    #[trigger] sel.visible_at(i),
                    sel.search_string@,
                    sel.name_search,
                )
            &&& forall|i: int, k: int| 0 <= i < k < v.len() ==> #[trigger] v[i] < #[trigger] v[k]
            &&& forall|j: int|
                0 <= j < sel.task_list@.len() && #[trigger] task_matches(
                    sel.task_list@[j],
                    sel.search_string@,
                    sel.name_search,
                ) ==> exists|i: int| 0 <= i < sel.visible_len_spec() && v[i] == j
        },
{
    lemma_filter_prefix_exact(
        sel.task_list@,
        sel.search_string@,
        sel.name_search,
        sel.task_list@.len() as int,
    );
    if (sel.name_search || sel.pid_search) && sel.search_string@.len() > 0 {
        let v = sel.filtered_task_list->0@;
        assert forall|i: int| 0 <= i < sel.visible_len_spec() implies task_matches(
            #[trigger] sel.visible_at(i),
            sel.search_string@,
            sel.name_search,
        ) by {
            assert(v[i] < sel.task_list@.len());
        }
    }
}

} // verus!
