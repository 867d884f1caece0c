//! The to-do list: sections of tasks.

use vstd::prelude::*;

verus! {

/// One thing to do.
#[derive(Debug, PartialEq, Eq)]
pub struct Task {
    pub text: String,
    pub done: bool,
    pub edit: bool,
    pub delete: bool,
}

/// What a [`Task`] holds, with its text as a sequence of characters.
pub struct TaskView {
    pub text: Seq<char>,
    pub done: bool,
    pub edit: bool,
    pub delete: bool,
}

impl View for Task {
    type V = TaskView;

    open spec fn view(&self) -> TaskView {
        TaskView { text: self.text@, done: self.done, edit: self.edit, delete: self.delete }
    }
}

/// The view of a task that was just added: not done, not marked for deletion.
pub open spec fn fresh_task(text: Seq<char>, edit: bool) -> TaskView {
    TaskView { text, done: false, edit, delete: false }
}

impl Task {
    /// The task that a new section starts with.
    pub fn default() -> (task: Task)
        ensures
            task@ == fresh_task("New task"@, false),
    {
        Task { text: "New task".to_owned(), done: false, edit: false, delete: false }
    }
}

/// A titled group of tasks.
#[derive(Debug, PartialEq, Eq)]
pub struct Section {
    pub title: String,
    pub tasks: Vec<Task>,
    pub edit: bool,
    pub delete: bool,
}

/// What a [`Section`] holds, as mathematical values.
pub struct SectionView {
    pub title: Seq<char>,
    pub tasks: Seq<TaskView>,
    pub edit: bool,
    pub delete: bool,
}

/// The views of a run of tasks.
pub open spec fn task_views(tasks: Seq<Task>) -> Seq<TaskView> {
    tasks.map_values(|t: Task| t@)
}

/// The views of a run of sections.
pub open spec fn section_views(sections: Seq<Section>) -> Seq<SectionView> {
    sections.map_values(|s: Section| s@)
}

impl View for Section {
    type V = SectionView;

    open spec fn view(&self) -> SectionView {
        SectionView {
            title: self.title@,
            tasks: task_views(self.tasks@),
            edit: self.edit,
            delete: self.delete,
        }
    }
}

/// The tasks that are left when the finished ones are cleared away.
pub open spec fn unfinished(tasks: Seq<TaskView>) -> Seq<TaskView> {
    tasks.filter(|t: TaskView| !t.done)
}

/// The tasks that are left when the ones marked for deletion are swept out.
pub open spec fn unmarked(tasks: Seq<TaskView>) -> Seq<TaskView> {
    tasks.filter(|t: TaskView| !t.delete)
}

impl SectionView {
    /// The section after task `t` was opened for editing or closed again.
    pub open spec fn with_task_edit(self, t: int, edit: bool) -> SectionView {
        SectionView { tasks: self.tasks.update(t, TaskView { edit, ..self.tasks[t] }), ..self }
    }

    /// The section after task `t` was marked for deletion.
    pub open spec fn with_task_removed(self, t: int) -> SectionView {
        SectionView {
            tasks: self.tasks.update(t, TaskView { delete: true, ..self.tasks[t] }),
            ..self
        }
    }

    /// The section after an empty task was added to it and opened for editing.
    pub open spec fn with_task_appended(self) -> SectionView {
        SectionView { tasks: self.tasks.push(fresh_task(Seq::empty(), true)), ..self }
    }

    /// The section after the tasks marked for deletion were swept out.
    pub open spec fn swept(self) -> SectionView {
        SectionView { tasks: unmarked(self.tasks), ..self }
    }

    /// The section after its finished tasks were cleared away. One that is left
    /// without tasks is marked for deletion.
    pub open spec fn cleaned(self) -> SectionView {
        SectionView {
            tasks: unfinished(self.tasks),
            delete: self.delete || unfinished(self.tasks).len() == 0,
            ..self
        }
    }
}

/// The sections after a clean-up: each without its finished tasks, and those marked for
/// deletion, by the clean-up or before it, removed.
pub open spec fn cleaned(sections: Seq<SectionView>) -> Seq<SectionView> {
    sections.map_values(|s: SectionView| s.cleaned()).filter(|s: SectionView| !s.delete)
}

impl Section {
    /// The view of the section that a new list starts with.
    pub open spec fn default_view() -> SectionView {
        SectionView {
            title: "New Section"@,
            tasks: seq![fresh_task("New task"@, false)],
            edit: true,
            delete: false,
        }
    }

    /// The section that a new list starts with: one task, and its title open for
    /// editing.
    pub fn default() -> (section: Section)
        ensures
            section@ == Section::default_view(),
    {
        let mut tasks: Vec<Task> = Vec::new();
        tasks.push(Task::default());
        assert(task_views(tasks@) =~= seq![fresh_task("New task"@, false)]);
        Section { title: "New Section".to_owned(), tasks, edit: true, delete: false }
    }

    /// Adds a task with the given text at the end of the section.
    pub fn add_task(&mut self, task: &str, edit: bool)
        ensures
            final(self)@ == (SectionView {
                tasks: old(self)@.tasks.push(fresh_task(task@, edit)),
                ..old(self)@
            }),
    {
        self.tasks.push(Task { text: task.to_owned(), done: false, edit, delete: false });
        assert(task_views(self.tasks@) =~= task_views(old(self).tasks@).push(
            fresh_task(task@, edit),
        ));
    }

    /// Clears the finished tasks away, and marks the section for deletion if none is
    /// left.
    pub fn clean(&mut self)
        ensures
            final(self)@ == old(self)@.cleaned(),
    {
        let ghost before = task_views(self.tasks@);
        let ghost mut seen: int = 0;
        let mut i: usize = 0;
        while i < self.tasks.len()
            invariant
                self.title == old(self).title,
                self.edit == old(self).edit,
                self.delete == old(self).delete,
                before == task_views(old(self).tasks@),
                0 <= seen <= before.len(),
                i <= self.tasks.len(),
                self.tasks.len() - i == before.len() - seen,
                task_views(self.tasks@).take(i as int) == unfinished(before.take(seen)),
                task_views(self.tasks@).skip(i as int) == before.skip(seen),
            decreases self.tasks.len() - i,
        {
            let ghost now = task_views(self.tasks@);
            proof {
                lemma_filter_take(before, |t: TaskView| !t.done, seen);
                lemma_next_of_rest(now, before, i as int, seen);
            }
            if self.tasks[i].done {
                self.tasks.remove(i);
            } else {
                i += 1;
            }
            proof {
                seen = seen + 1;
            }
        }
        proof {
            assert(before.take(seen) =~= before);
            assert(task_views(self.tasks@).take(i as int) =~= task_views(self.tasks@));
        }
        if self.tasks.len() == 0 {
            self.delete = true;
        }
    }

    /// Sweeps out the tasks that are marked for deletion.
    pub fn sweep(&mut self)
        ensures
            final(self)@ == old(self)@.swept(),
    {
        let ghost before = task_views(self.tasks@);
        let ghost mut seen: int = 0;
        let mut i: usize = 0;
        while i < self.tasks.len()
            invariant
                self.title == old(self).title,
                self.edit == old(self).edit,
                self.delete == old(self).delete,
                before == task_views(old(self).tasks@),
                0 <= seen <= before.len(),
                i <= self.tasks.len(),
                self.tasks.len() - i == before.len() - seen,
                task_views(self.tasks@).take(i as int) == unmarked(before.take(seen)),
                task_views(self.tasks@).skip(i as int) == before.skip(seen),
            decreases self.tasks.len() - i,
        {
            let ghost now = task_views(self.tasks@);
            proof {
                lemma_filter_take(before, |t: TaskView| !t.delete, seen);
                lemma_next_of_rest(now, before, i as int, seen);
            }
            if self.tasks[i].delete {
                self.tasks.remove(i);
            } else {
                i += 1;
            }
            proof {
                seen = seen + 1;
            }
        }
        proof {
            assert(before.take(seen) =~= before);
            assert(task_views(self.tasks@).take(i as int) =~= task_views(self.tasks@));
        }
    }
}

/// Clears the finished tasks out of every section, and removes the sections that are
/// left without tasks or were marked for deletion.
pub fn clean_sections(sections: &mut Vec<Section>)
    ensures
        section_views(final(sections)@) == cleaned(section_views(old(sections)@)),
{
    let ghost before = section_views(sections@);
    let mut i: usize = 0;
    while i < sections.len()
        invariant
            i <= sections.len(),
            sections.len() == before.len(),
            forall|k: int| 0 <= k < i ==> section_views(sections@)[k] == before[k].cleaned(),
            forall|k: int| i <= k < before.len() ==> section_views(sections@)[k] == before[k],
        decreases sections.len() - i,
    {
        let ghost prev = section_views(sections@);
        sections[i].clean();
        proof {
            let next = section_views(sections@);
            assert forall|k: int| 0 <= k < i + 1 implies next[k] == before[k].cleaned() by {
                assert(k < i ==> prev[k] == before[k].cleaned());
            }
        }
        i += 1;
    }
    let ghost tidy = before.map_values(|s: SectionView| s.cleaned());
    let ghost mut seen: int = 0;
    let mut j: usize = 0;
    while j < sections.len()
        invariant
            0 <= seen <= tidy.len(),
            j <= sections.len(),
            sections.len() - j == tidy.len() - seen,
            section_views(sections@).take(j as int) == tidy.take(seen).filter(
                |s: SectionView| !s.delete,
            ),
            section_views(sections@).skip(j as int) == tidy.skip(seen),
        decreases sections.len() - j,
    {
        let ghost now = section_views(sections@);
        proof {
            lemma_filter_take(tidy, |s: SectionView| !s.delete, seen);
            lemma_next_of_rest(now, tidy, j as int, seen);
        }
        if sections[j].delete {
            sections.remove(j);
        } else {
            j += 1;
        }
        proof {
            seen = seen + 1;
        }
    }
    proof {
        assert(tidy.take(seen) =~= tidy);
    }
}

/// What a filter keeps of the first `k + 1` elements is what it keeps of the first
/// `k`, and element `k` after that if it keeps it.
proof fn lemma_filter_take<A>(s: Seq<A>, keep: spec_fn(A) -> bool, k: int)
    requires
        0 <= k < s.len(),
    ensures
        s.take(k + 1).filter(keep) == if keep(s[k]) {
            s.take(k).filter(keep).push(s[k])
        } else {
            s.take(k).filter(keep)
        },
{
    reveal(Seq::filter);
    assert(s.take(k + 1).drop_last() =~= s.take(k));
}

/// Where the rest of `now` from `i` on is the rest of `before` from `seen` on, the
/// next element of the one is the next element of the other.
proof fn lemma_next_of_rest<A>(now: Seq<A>, before: Seq<A>, i: int, seen: int)
    requires
        0 <= i < now.len(),
        0 <= seen <= before.len(),
        now.skip(i) == before.skip(seen),
    ensures
        seen < before.len(),
        now[i] == before[seen],
        now.skip(i + 1) == before.skip(seen + 1),
{
    assert(now.skip(i)[0] == now[i]);
    assert(now.skip(i + 1) =~= now.skip(i).skip(1));
}

} // verus!
