//! The data of the todo manager: priorities, subtasks, todos, groups, the
//! rows that the list shows, the modes of the interface and the whole
//! application state, each with its mathematical view.
use vstd::prelude::*;

verus! {

/// The models of a list of strings.
pub open spec fn strings_view(v: Seq<String>) -> Seq<Seq<char>> {
    v.map_values(|s: String| s@)
}

/// How urgent a todo is.
#[derive(Clone, Copy, Debug, PartialEq, Eq, Structural)]
pub enum Priority {
    Low,
    Medium,
    High,
}

/// The priority that follows `p` in the cycle Low, Medium, High, Low.
pub open spec fn next_priority(p: Priority) -> Priority {
    match p {
        Priority::Low => Priority::Medium,
        Priority::Medium => Priority::High,
        Priority::High => Priority::Low,
    }
}

impl Priority {
    /// The next priority in the cycle Low -> Medium -> High -> Low.
    pub fn cycle(&self) -> (r: Self)
        ensures
            r == next_priority(*self),
    {
        match self {
            Priority::Low => Priority::Medium,
            Priority::Medium => Priority::High,
            Priority::High => Priority::Low,
        }
    }
}

impl Default for Priority {
    /// New todos start with a low priority.
    fn default() -> (r: Self)
        ensures
            r == Priority::Low,
    {
        Priority::Low
    }
}

/// A subtask: a title and whether it is done.
#[derive(Clone, Debug)]
pub struct SubTask {
    pub title: String,
    pub completed: bool,
}

/// The model of a subtask.
pub struct SubTaskView {
    pub title: Seq<char>,
    pub completed: bool,
}

impl View for SubTask {
    type V = SubTaskView;

    open spec fn view(&self) -> SubTaskView {
        SubTaskView { title: self.title@, completed: self.completed }
    }
}

/// The models of a list of subtasks.
pub open spec fn subtasks_view(s: Seq<SubTask>) -> Seq<SubTaskView> {
    s.map_values(|t: SubTask| t@)
}

impl SubTask {
    /// A subtask that is not done yet.
    pub fn new(title: String) -> (r: Self)
        ensures
            r@ == (SubTaskView { title: title@, completed: false }),
    {
        SubTask { title, completed: false }
    }
}

/// A todo: its title, state, notes, priority, subtasks and whether the
/// subtasks are folded away in the list.
#[derive(Clone, Debug)]
pub struct TodoItem {
    pub title: String,
    pub completed: bool,
    pub notes: String,
    pub priority: Priority,
    pub subtasks: Vec<SubTask>,
    pub collapsed: bool,
}

/// The model of a todo.
pub struct TodoView {
    pub title: Seq<char>,
    pub completed: bool,
    pub notes: Seq<char>,
    pub priority: Priority,
    pub subtasks: Seq<SubTaskView>,
    pub collapsed: bool,
}

impl View for TodoItem {
    type V = TodoView;

    open spec fn view(&self) -> TodoView {
        TodoView {
            title: self.title@,
            completed: self.completed,
            notes: self.notes@,
            priority: self.priority,
            subtasks: subtasks_view(self.subtasks@),
            collapsed: self.collapsed,
        }
    }
}

/// The models of a list of todos.
pub open spec fn todos_view(s: Seq<TodoItem>) -> Seq<TodoView> {
    s.map_values(|t: TodoItem| t@)
}

/// The model of a todo just created with the given title.
pub open spec fn fresh_todo(title: Seq<char>) -> TodoView {
    TodoView {
        title,
        completed: false,
        notes: Seq::empty(),
        priority: Priority::Low,
        subtasks: Seq::empty(),
        collapsed: false,
    }
}

impl TodoItem {
    /// A todo that is not done, with no notes, a low priority and no subtasks.
    pub fn new(title: String) -> (r: Self)
        ensures
            r@ == fresh_todo(title@),
    {
        let r = TodoItem {
            title,
            completed: false,
            notes: String::new(),
            priority: Priority::Low,
            subtasks: Vec::new(),
            collapsed: false,
        };
        assert(subtasks_view(r.subtasks@) =~= Seq::<SubTaskView>::empty());
        r
    }
}

/// A named group of todos (a category).
#[derive(Clone, Debug)]
pub struct Group {
    pub name: String,
    pub todos: Vec<TodoItem>,
}

/// The model of a group.
pub struct GroupView {
    pub name: Seq<char>,
    pub todos: Seq<TodoView>,
}

impl View for Group {
    type V = GroupView;

    open spec fn view(&self) -> GroupView {
        GroupView { name: self.name@, todos: todos_view(self.todos@) }
    }
}

/// The models of a list of groups.
pub open spec fn groups_view(s: Seq<Group>) -> Seq<GroupView> {
    s.map_values(|g: Group| g@)
}

impl Group {
    /// An empty group with the given name.
    pub fn new(name: String) -> (r: Self)
        ensures
            r@ == (GroupView { name: name@, todos: Seq::empty() }),
    {
        let r = Group { name, todos: Vec::new() };
        assert(todos_view(r.todos@) =~= Seq::<TodoView>::empty());
        r
    }
}

/// A row of the list: a todo, or a subtask of a todo, by position in the
/// current group.
#[derive(Clone, Copy, Debug, PartialEq, Eq, Structural)]
pub enum RowRef {
    Todo(usize),
    Sub(usize, usize),
}

/// What the text being typed will become.
#[derive(Clone, Copy, Debug, PartialEq, Eq, Structural)]
pub enum InputTarget {
    NewTodo,
    NewSubtask(usize),
    EditTodo(usize),
    EditSubtask(usize, usize),
}

impl Default for InputTarget {
    /// Typing adds a new todo unless told otherwise.
    fn default() -> (r: Self)
        ensures
            r == InputTarget::NewTodo,
    {
        InputTarget::NewTodo
    }
}

/// The item that was deleted last, with where it stood, for undo.
#[derive(Clone, Debug)]
pub enum LastDeleted {
    Todo { group: usize, index: usize, item: TodoItem },
    Sub { group: usize, todo: usize, index: usize, item: SubTask },
}

/// The model of the last deletion.
pub enum DeletedView {
    Todo { group: usize, index: usize, item: TodoView },
    Sub { group: usize, todo: usize, index: usize, item: SubTaskView },
}

impl View for LastDeleted {
    type V = DeletedView;

    open spec fn view(&self) -> DeletedView {
        match self {
            LastDeleted::Todo { group, index, item } => DeletedView::Todo {
                group: *group,
                index: *index,
                item: item@,
            },
            LastDeleted::Sub { group, todo, index, item } => DeletedView::Sub {
                group: *group,
                todo: *todo,
                index: *index,
                item: item@,
            },
        }
    }
}

/// The model of an optional last deletion.
pub open spec fn deleted_view(d: Option<LastDeleted>) -> Option<DeletedView> {
    match d {
        Some(x) => Some(x@),
        None => None,
    }
}

/// The screens and popups of the interface.
#[derive(Clone, Copy, Debug, PartialEq, Eq, Structural)]
pub enum AppMode {
    Normal,
    Input,
    Help,
    EditingNotes,
    Search,
    CategoryPopup,
    GroupInput,
    GroupDeleteConfirm,
}

impl Default for AppMode {
    /// The interface starts in the list.
    fn default() -> (r: Self)
        ensures
            r == AppMode::Normal,
    {
        AppMode::Normal
    }
}

/// The whole state of the todo manager.
#[derive(Debug)]
pub struct App {
    pub groups: Vec<Group>,
    pub selected_group: usize,
    pub selected: usize,
    pub mode: AppMode,
    pub input_buffer: String,
    pub should_quit: bool,
    pub dirty: bool,
    pub input_target: InputTarget,
    pub last_deleted: Option<LastDeleted>,
    pub notes_buffer: String,
    pub search_query: String,
    pub category_cursor: usize,
    pub group_editing: Option<usize>,
}

/// The model of the application state.
pub struct AppView {
    pub groups: Seq<GroupView>,
    pub selected_group: usize,
    pub selected: usize,
    pub mode: AppMode,
    pub input_buffer: Seq<char>,
    pub should_quit: bool,
    pub dirty: bool,
    pub input_target: InputTarget,
    pub last_deleted: Option<DeletedView>,
    pub notes_buffer: Seq<char>,
    pub search_query: Seq<char>,
    pub category_cursor: usize,
    pub group_editing: Option<usize>,
}

impl View for App {
    type V = AppView;

    open spec fn view(&self) -> AppView {
        AppView {
            groups: groups_view(self.groups@),
            selected_group: self.selected_group,
            selected: self.selected,
            mode: self.mode,
            input_buffer: self.input_buffer@,
            should_quit: self.should_quit,
            dirty: self.dirty,
            input_target: self.input_target,
            last_deleted: deleted_view(self.last_deleted),
            notes_buffer: self.notes_buffer@,
            search_query: self.search_query@,
            category_cursor: self.category_cursor,
            group_editing: self.group_editing,
        }
    }
}

impl AppView {
    /// The state with the todos of group `g` replaced.
    pub open spec fn with_todos(self, g: int, todos: Seq<TodoView>) -> AppView {
        AppView {
            groups: self.groups.update(g, GroupView { name: self.groups[g].name, todos }),
            ..self
        }
    }

    /// The state with todo `i` of group `g` replaced.
    pub open spec fn with_todo(self, g: int, i: int, t: TodoView) -> AppView {
        self.with_todos(g, self.groups[g].todos.update(i, t))
    }
}

/// Replacing a group replaces its model.
pub proof fn lemma_groups_update(gs: Seq<Group>, k: int, g: Group)
    requires
        0 <= k < gs.len(),
    ensures
        groups_view(gs.update(k, g)) == groups_view(gs).update(k, g@),
{
    assert(groups_view(gs.update(k, g)) =~= groups_view(gs).update(k, g@));
}

/// Replacing a todo replaces its model.
pub proof fn lemma_todos_update(ts: Seq<TodoItem>, k: int, t: TodoItem)
    requires
        0 <= k < ts.len(),
    ensures
        todos_view(ts.update(k, t)) == todos_view(ts).update(k, t@),
{
    assert(todos_view(ts.update(k, t)) =~= todos_view(ts).update(k, t@));
}

/// Removing, inserting and appending todos does the same to their models.
pub proof fn lemma_todos_edit(ts: Seq<TodoItem>, k: int, t: TodoItem)
    ensures
        0 <= k < ts.len() ==> todos_view(ts.remove(k)) == todos_view(ts).remove(k),
        0 <= k <= ts.len() ==> todos_view(ts.insert(k, t)) == todos_view(ts).insert(k, t@),
        todos_view(ts.push(t)) == todos_view(ts).push(t@),
{
    if 0 <= k < ts.len() {
        assert(todos_view(ts.remove(k)) =~= todos_view(ts).remove(k));
    }
    if 0 <= k <= ts.len() {
        assert(todos_view(ts.insert(k, t)) =~= todos_view(ts).insert(k, t@));
    }
    assert(todos_view(ts.push(t)) =~= todos_view(ts).push(t@));
}

/// Replacing, removing, inserting and appending subtasks does the same to
/// their models.
pub proof fn lemma_subtasks_edit(ss: Seq<SubTask>, k: int, t: SubTask)
    ensures
        0 <= k < ss.len() ==> subtasks_view(ss.update(k, t)) == subtasks_view(ss).update(k, t@),
        0 <= k < ss.len() ==> subtasks_view(ss.remove(k)) == subtasks_view(ss).remove(k),
        0 <= k <= ss.len() ==> subtasks_view(ss.insert(k, t)) == subtasks_view(ss).insert(k, t@),
        subtasks_view(ss.push(t)) == subtasks_view(ss).push(t@),
{
    if 0 <= k < ss.len() {
        assert(subtasks_view(ss.update(k, t)) =~= subtasks_view(ss).update(k, t@));
        assert(subtasks_view(ss.remove(k)) =~= subtasks_view(ss).remove(k));
    }
    if 0 <= k <= ss.len() {
        assert(subtasks_view(ss.insert(k, t)) =~= subtasks_view(ss).insert(k, t@));
    }
    assert(subtasks_view(ss.push(t)) =~= subtasks_view(ss).push(t@));
}

/// Removing and appending groups does the same to their models.
pub proof fn lemma_groups_edit(gs: Seq<Group>, k: int, g: Group)
    ensures
        0 <= k < gs.len() ==> groups_view(gs.remove(k)) == groups_view(gs).remove(k),
        groups_view(gs.push(g)) == groups_view(gs).push(g@),
{
    if 0 <= k < gs.len() {
        assert(groups_view(gs.remove(k)) =~= groups_view(gs).remove(k));
    }
    assert(groups_view(gs.push(g)) =~= groups_view(gs).push(g@));
}

} // verus!
