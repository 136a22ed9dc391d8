//! Tasks, the changes a client may ask for, and the events that report them.

use vstd::prelude::*;

verus! {

/// View of an optional text.
pub open spec fn text_of(t: Option<String>) -> Option<Seq<char>> {
    match t {
        Some(s) => Some(s@),
        None => None,
    }
}

/// One task of one user. The owner is not part of the record: it is the
/// user under whose key the record is kept.
#[derive(Debug, Clone, PartialEq, Eq)]
pub struct Task {
    pub id: u128,
    pub category: String,
    pub text: String,
    pub completed: bool,
    /// Unix timestamp by which the task is due, if any.
    pub due: Option<i32>,
}

/// Mathematical value of a [`Task`].
pub ghost struct TaskView {
    pub id: u128,
    pub category: Seq<char>,
    pub text: Seq<char>,
    pub completed: bool,
    pub due: Option<i32>,
}

impl View for Task {
    type V = TaskView;

    open spec fn view(&self) -> TaskView {
        TaskView {
            id: self.id,
            category: self.category@,
            text: self.text@,
            completed: self.completed,
            due: self.due,
        }
    }
}

/// What a client supplies to create a task: everything but the identifier.
#[derive(Debug, Clone, PartialEq, Eq)]
pub struct TaskFields {
    pub category: String,
    pub text: String,
    pub completed: bool,
    pub due: Option<i32>,
}

/// Mathematical value of [`TaskFields`].
pub ghost struct TaskFieldsView {
    pub category: Seq<char>,
    pub text: Seq<char>,
    pub completed: bool,
    pub due: Option<i32>,
}

impl View for TaskFields {
    type V = TaskFieldsView;

    open spec fn view(&self) -> TaskFieldsView {
        TaskFieldsView {
            category: self.category@,
            text: self.text@,
            completed: self.completed,
            due: self.due,
        }
    }
}

/// A partial update: only the fields that are present are changed.
#[derive(Debug, Clone, PartialEq, Eq)]
pub struct TaskPatch {
    pub category: Option<String>,
    pub text: Option<String>,
    pub completed: Option<bool>,
    pub due: Option<i32>,
}

/// Mathematical value of a [`TaskPatch`].
pub ghost struct TaskPatchView {
    pub category: Option<Seq<char>>,
    pub text: Option<Seq<char>>,
    pub completed: Option<bool>,
    pub due: Option<i32>,
}

impl View for TaskPatch {
    type V = TaskPatchView;

    open spec fn view(&self) -> TaskPatchView {
        TaskPatchView {
            category: text_of(self.category),
            text: text_of(self.text),
            completed: self.completed,
            due: self.due,
        }
    }
}

/// The task that `fields` describe under the identifier `id`.
pub open spec fn task_from(id: u128, fields: TaskFieldsView) -> TaskView {
    TaskView {
        id,
        category: fields.category,
        text: fields.text,
        completed: fields.completed,
        due: fields.due,
    }
}

/// The task after a partial update: each field takes the patch's value where
/// the patch has one and keeps its own where it has none. The identifier is
/// never changed, and a due date, once set, can be moved but not removed.
pub open spec fn merged(task: TaskView, patch: TaskPatchView) -> TaskView {
    TaskView {
        id: task.id,
        category: match patch.category {
            Some(c) => c,
            None => task.category,
        },
        text: match patch.text {
            Some(t) => t,
            None => task.text,
        },
        completed: match patch.completed {
            Some(c) => c,
            None => task.completed,
        },
        due: match patch.due {
            Some(d) => Some(d),
            None => task.due,
        },
    }
}

impl Task {
    /// Makes the task that `fields` describe under the identifier `id`.
    pub fn new(id: u128, fields: TaskFields) -> (task: Task)
        ensures
            task@ == task_from(id, fields@),
    {
        Task {
            id,
            category: fields.category,
            text: fields.text,
            completed: fields.completed,
            due: fields.due,
        }
    }

    /// Applies a partial update.
    pub fn patched(self, patch: TaskPatch) -> (task: Task)
        ensures
            task@ == merged(self@, patch@),
    {
        let category = match patch.category {
            Some(c) => c,
            None => self.category,
        };
        let text = match patch.text {
            Some(t) => t,
            None => self.text,
        };
        let completed = match patch.completed {
            Some(c) => c,
            None => self.completed,
        };
        let due = match patch.due {
            Some(d) => Some(d),
            None => self.due,
        };
        Task { id: self.id, category, text, completed, due }
    }

    /// A second copy of the task.
    pub fn duplicate(&self) -> (copy: Task)
        ensures
            copy@ == self@,
    {
        Task {
            id: self.id,
            category: self.category.clone(),
            text: self.text.clone(),
            completed: self.completed,
            due: self.due,
        }
    }
}

/// A partial update that changes nothing but the completion mark leaves
/// category, text and due date as they were.
pub proof fn law_completion_patch_keeps_the_rest(task: TaskView, done: bool)
    ensures
        ({
            let patch = TaskPatchView {
                category: None,
                text: None,
                completed: Some(done),
                due: None,
            };
            let after = merged(task, patch);
            &&& after.completed == done
            &&& after.id == task.id
            &&& after.category == task.category
            &&& after.text == task.text
            &&& after.due == task.due
        }),
{
}

/// A field that a partial update does not name keeps its value, and one that
/// it names takes the named value.
pub proof fn law_merge_patch(task: TaskView, patch: TaskPatchView)
    ensures
        merged(task, patch).id == task.id,
        patch.category is None ==> merged(task, patch).category == task.category,
        patch.text is None ==> merged(task, patch).text == task.text,
        patch.completed is None ==> merged(task, patch).completed == task.completed,
        patch.due is None ==> merged(task, patch).due == task.due,
        patch.category matches Some(c) ==> merged(task, patch).category == c,
        patch.text matches Some(t) ==> merged(task, patch).text == t,
        patch.completed matches Some(c) ==> merged(task, patch).completed == c,
        patch.due matches Some(d) ==> merged(task, patch).due == Some(d),
{
}

/// The stored record of a user.
#[derive(Debug, Clone, PartialEq, Eq)]
pub struct User {
    pub username: String,
    pub password_hash: String,
}

/// Mathematical value of a [`User`].
pub ghost struct UserView {
    pub username: Seq<char>,
    pub password_hash: Seq<char>,
}

impl View for User {
    type V = UserView;

    open spec fn view(&self) -> UserView {
        UserView { username: self.username@, password_hash: self.password_hash@ }
    }
}

impl User {
    /// A second copy of the record.
    pub fn duplicate(&self) -> (copy: User)
        ensures
            copy@ == self@,
    {
        User { username: self.username.clone(), password_hash: self.password_hash.clone() }
    }
}

/// One mutation of one user's tasks, as told to that user's live connections.
#[derive(Debug, Clone, PartialEq, Eq)]
pub enum ChangeEvent {
    Created(Task),
    Updated(Task),
    Deleted(u128),
}

/// Mathematical value of a [`ChangeEvent`].
pub ghost enum ChangeEventView {
    Created(TaskView),
    Updated(TaskView),
    Deleted(u128),
}

impl View for ChangeEvent {
    type V = ChangeEventView;

    open spec fn view(&self) -> ChangeEventView {
        match self {
            ChangeEvent::Created(t) => ChangeEventView::Created(t@),
            ChangeEvent::Updated(t) => ChangeEventView::Updated(t@),
            ChangeEvent::Deleted(id) => ChangeEventView::Deleted(*id),
        }
    }
}

} // verus!
