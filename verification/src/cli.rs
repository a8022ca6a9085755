//! The command line: its arguments, and the decisions that pick what a run
//! of the client does.

use vstd::prelude::*;
use crate::alias::{args_from_dto, next_alias_id, AliasEntity, AliasType, ArgsDTO};
use crate::clickup::{
    comment_payload, is_assigned, is_assigned_spec, member_id, AuthorizedWorkspaces, Endpoint, Folder,
    Folders, List, Lists, MemberChoice, Space, Spaces, SubmitCommentPayload, Task, TaskListsFilters,
    Team,
};
use crate::text::{
    contains_seq, contains_str, copy_str, decimal, lowercase_of, parse_usize, parsed_usize,
    texts, to_lowercase, usize_to_string,
};

verus! {

/// What `--modify` changes on a task.
#[derive(Clone, Copy, PartialEq, Eq, Structural)]
pub enum Domain {
    Status,
    Name,
    Comment,
    Thread,
    Assignee,
}

/// What `--add` creates.
#[derive(Clone, Copy, PartialEq, Eq, Structural)]
pub enum Add {
    Task,
}

/// What `--delete` removes.
#[derive(Clone, Copy, PartialEq, Eq, Structural)]
pub enum Delete {
    Alias,
}

/// The command-line arguments. Each text argument defaults to the empty
/// string, which stands for "not given".
pub struct Args {
    pub token: String,
    pub modify: Option<Domain>,
    pub add: Option<Add>,
    pub delete: Option<Delete>,
    pub team_id: String,
    pub space_id: String,
    pub folder_id: String,
    pub list_id: String,
    pub task_id: String,
    /// if provided, filters tasks by status
    pub status: String,
    /// if provided, filters tasks by search query
    pub search: String,
    /// if provided, filters tasks by assignee (one assignee at most)
    pub assignee: String,
    /// if provided, gets comments for a thread
    pub thread_id: String,
    /// if provided, saves the request under this name
    pub alias: String,
    /// if true, prints all saved aliases
    pub list_alias: bool,
    /// if provided, runs a stored alias
    pub run: String,
    pub alias_id: String,
}

/// Whether `a` holds no argument at all: every text empty, no directive.
pub open spec fn is_default_args(a: Args) -> bool {
    &&& a.token@.len() == 0
    &&& a.modify is None
    &&& a.add is None
    &&& a.delete is None
    &&& a.team_id@.len() == 0
    &&& a.space_id@.len() == 0
    &&& a.folder_id@.len() == 0
    &&& a.list_id@.len() == 0
    &&& a.task_id@.len() == 0
    &&& a.status@.len() == 0
    &&& a.search@.len() == 0
    &&& a.assignee@.len() == 0
    &&& a.thread_id@.len() == 0
    &&& a.alias@.len() == 0
    &&& !a.list_alias
    &&& a.run@.len() == 0
    &&& a.alias_id@.len() == 0
}

impl Default for Args {
    fn default() -> (r: Self)
        ensures
            is_default_args(r),
    {
        Args {
            token: String::new(),
            modify: None,
            add: None,
            delete: None,
            team_id: String::new(),
            space_id: String::new(),
            folder_id: String::new(),
            list_id: String::new(),
            task_id: String::new(),
            status: String::new(),
            search: String::new(),
            assignee: String::new(),
            thread_id: String::new(),
            alias: String::new(),
            list_alias: false,
            run: String::new(),
            alias_id: String::new(),
        }
    }
}


// ---------------------------------------------------------------------------
// What a run does
// ---------------------------------------------------------------------------

/// What a run of the client does, once the token (if given) is saved.
#[derive(PartialEq, Eq, Structural)]
pub enum MainAction {
    /// Create what `--add` names.
    Add,
    /// Delete what `--delete` names.
    Delete,
    /// Change what `--modify` names on a task.
    Modify,
    /// Print the saved aliases.
    ListAliases,
    /// Run the saved alias with this id.
    RunAlias(usize),
    /// Fetch and show what the ids given select.
    Get,
}

/// The action for the arguments `a`: the first of `--add`, `--delete`,
/// `--modify`, `--list-alias` and a numeric `--run` that is given, else a
/// fetch.
pub open spec fn main_action(a: Args) -> MainAction {
    if a.add is Some {
        MainAction::Add
    } else if a.delete is Some {
        MainAction::Delete
    } else if a.modify is Some {
        MainAction::Modify
    } else if a.list_alias {
        MainAction::ListAliases
    } else if parsed_usize(a.run@) is Some {
        MainAction::RunAlias(parsed_usize(a.run@).unwrap())
    } else {
        MainAction::Get
    }
}

/// Picks what a run does.
pub fn plan_main(args: &Args) -> (r: MainAction)
    ensures
        r == main_action(*args),
{
    if args.add.is_some() {
        return MainAction::Add;
    }
    if args.delete.is_some() {
        return MainAction::Delete;
    }
    if args.modify.is_some() {
        return MainAction::Modify;
    }
    if args.list_alias {
        return MainAction::ListAliases;
    }
    match parse_usize(args.run.as_str()) {
        Some(id) => MainAction::RunAlias(id),
        None => MainAction::Get,
    }
}

/// What a fetch shows.
#[derive(PartialEq, Eq, Structural)]
pub enum GetAction {
    /// The replies of the thread `--thread-id`.
    Thread,
    /// The spaces of the workspace `--team-id`.
    Spaces,
    /// The lists of the folder `--folder-id`.
    Lists,
    /// The tasks of the list `--list-id`.
    Tasks,
    /// The folders of the space `--space-id`.
    Folders,
    /// The task `--task-id` with its comments.
    TaskDetails,
    /// The workspaces, when no id is given.
    Workspaces,
}

/// The fetch for the arguments `a`: the first id given, in the order
/// thread, team, folder, list, space, task; the workspaces when none is.
pub open spec fn get_action(a: Args) -> GetAction {
    if a.thread_id@.len() > 0 {
        GetAction::Thread
    } else if a.team_id@.len() > 0 {
        GetAction::Spaces
    } else if a.folder_id@.len() > 0 {
        GetAction::Lists
    } else if a.list_id@.len() > 0 {
        GetAction::Tasks
    } else if a.space_id@.len() > 0 {
        GetAction::Folders
    } else if a.task_id@.len() > 0 {
        GetAction::TaskDetails
    } else {
        GetAction::Workspaces
    }
}

/// Picks what a fetch shows.
pub fn plan_get(args: &Args) -> (r: GetAction)
    ensures
        r == get_action(*args),
        args.thread_id@.len() > 0 ==> r == GetAction::Thread,
{
    if !args.thread_id.as_str().is_empty() {
        GetAction::Thread
    } else if !args.team_id.as_str().is_empty() {
        GetAction::Spaces
    } else if !args.folder_id.as_str().is_empty() {
        GetAction::Lists
    } else if !args.list_id.as_str().is_empty() {
        GetAction::Tasks
    } else if !args.space_id.as_str().is_empty() {
        GetAction::Folders
    } else if !args.task_id.as_str().is_empty() {
        GetAction::TaskDetails
    } else {
        GetAction::Workspaces
    }
}

/// What `--delete` does.
#[derive(PartialEq, Eq, Structural)]
pub enum DeleteAction {
    /// Nothing to delete.
    Nothing,
    /// `--alias-id` is not a number: report it.
    InvalidAliasId,
    /// Delete the alias with this id.
    DeleteAlias(usize),
}

/// The deletion for the arguments `a`.
pub open spec fn delete_action(a: Args) -> DeleteAction {
    match a.delete {
        None => DeleteAction::Nothing,
        Some(Delete::Alias) => match parsed_usize(a.alias_id@) {
            Some(id) => DeleteAction::DeleteAlias(id),
            None => DeleteAction::InvalidAliasId,
        },
    }
}

/// Picks what `--delete` does.
pub fn plan_delete(args: &Args) -> (r: DeleteAction)
    ensures
        r == delete_action(*args),
{
    match args.delete {
        None => DeleteAction::Nothing,
        Some(Delete::Alias) => match parse_usize(args.alias_id.as_str()) {
            Some(id) => DeleteAction::DeleteAlias(id),
            None => DeleteAction::InvalidAliasId,
        },
    }
}

/// Whether `a` selects the list `list_id` and holds no other argument.
pub open spec fn is_list_only_args(a: Args, list_id: Seq<char>) -> bool {
    &&& a.list_id@ == list_id
    &&& a.token@.len() == 0
    &&& a.modify is None
    &&& a.add is None
    &&& a.delete is None
    &&& a.team_id@.len() == 0
    &&& a.space_id@.len() == 0
    &&& a.folder_id@.len() == 0
    &&& a.task_id@.len() == 0
    &&& a.status@.len() == 0
    &&& a.search@.len() == 0
    &&& a.assignee@.len() == 0
    &&& a.thread_id@.len() == 0
    &&& a.alias@.len() == 0
    &&& !a.list_alias
    &&& a.run@.len() == 0
    &&& a.alias_id@.len() == 0
}

/// The arguments that list the tasks of `list_id` and nothing else: what
/// `--add task` shows once the task is created.
pub fn list_tasks_args(list_id: &str) -> (r: Args)
    ensures
        is_list_only_args(r, list_id@),
{
    Args { list_id: copy_str(list_id), ..Default::default() }
}

// ---------------------------------------------------------------------------
// Changing a task
// ---------------------------------------------------------------------------

/// Where the comment that `--modify comment` or `--modify thread` writes is
/// sent, and whose comments are shown once it is sent: the comments of the
/// task `--task-id`, or the replies of the thread `--thread-id`. `None` for
/// any other change.
pub open spec fn comment_endpoint_of(a: Args) -> Option<Seq<char>> {
    match a.modify {
        Some(Domain::Comment) => Some(a.task_id@),
        Some(Domain::Thread) => Some(a.thread_id@),
        _ => None,
    }
}

/// The resource a new comment goes to, and that is read back after it.
pub fn comment_endpoint(args: &Args) -> (r: Option<Endpoint>)
    ensures
        match r {
            Some(Endpoint::TaskComments(id)) => args.modify == Some(Domain::Comment) && id@ == args.task_id@,
            Some(Endpoint::CommentReplies(id)) => args.modify == Some(Domain::Thread) && id@ == args.thread_id@,
            Some(_) => false,
            None => comment_endpoint_of(*args) is None,
        },
{
    match args.modify {
        Some(Domain::Comment) => Some(Endpoint::TaskComments(copy_str(args.task_id.as_str()))),
        Some(Domain::Thread) => Some(Endpoint::CommentReplies(copy_str(args.thread_id.as_str()))),
        _ => None,
    }
}

/// What the answer to "Send comment?" leads to.
pub enum CommentStep {
    /// Send this comment, then show the comments again.
    Send(SubmitCommentPayload),
    /// The answer was no: say it was cancelled.
    Cancelled,
    /// The prompt failed: say there was a problem.
    Failed,
}

/// The step after asking whether to send `comment`: `answer` is the answer,
/// `None` when the prompt failed.
pub fn confirm_comment(comment: String, answer: Option<bool>) -> (r: CommentStep)
    ensures
        match answer {
            Some(true) => r matches CommentStep::Send(p) && p.comment_text == comment && !p.notify_all,
            Some(false) => r is Cancelled,
            None => r is Failed,
        },
{
    match answer {
        Some(true) => CommentStep::Send(comment_payload(comment)),
        Some(false) => CommentStep::Cancelled,
        None => CommentStep::Failed,
    }
}

/// What picking a member to assign leads to.
#[derive(PartialEq, Eq, Structural)]
pub enum AssignStep {
    /// The member is already an assignee: say so and stop.
    AlreadyAssigned,
    /// Assign the member with this id, then show the task.
    Assign(usize),
    /// No member has that name: show the task.
    NotAMember,
}

/// The step after the member named `selected` is picked from `choices` to be
/// assigned to `task`.
pub fn assign_step(task: &Task, choices: &Vec<MemberChoice>, selected: &str) -> (r: AssignStep)
    ensures
        is_assigned_spec(*task, selected@) <==> r == AssignStep::AlreadyAssigned,
        r matches AssignStep::Assign(id) ==> exists|i: int|
            0 <= i < choices@.len() && choices@[i].username@ == selected@ && choices@[i].id == id,
        r == AssignStep::NotAMember <==> !is_assigned_spec(*task, selected@) && forall|i: int|
            0 <= i < choices@.len() ==> choices@[i].username@ != selected@,
{
    if is_assigned(task, selected) {
        return AssignStep::AlreadyAssigned;
    }
    match member_id(choices, selected) {
        Some(id) => AssignStep::Assign(id),
        None => AssignStep::NotAMember,
    }
}

// ---------------------------------------------------------------------------
// Listing tasks
// ---------------------------------------------------------------------------

/// The filters of a task listing for the arguments `a`: the assignee, when
/// given, read as a number, and the status, when given; `None` when the
/// assignee is not a number.
pub open spec fn task_filters_of(a: Args) -> Option<(Seq<usize>, Seq<Seq<char>>)> {
    let statuses = if a.status@.len() == 0 { Seq::<Seq<char>>::empty() } else { seq![a.status@] };
    if a.assignee@.len() == 0 {
        Some((Seq::<usize>::empty(), statuses))
    } else {
        match parsed_usize(a.assignee@) {
            Some(id) => Some((seq![id], statuses)),
            None => None,
        }
    }
}

/// The filters of the task listing.
pub fn task_filters(args: &Args) -> (r: Option<TaskListsFilters>)
    ensures
        match r {
            Some(f) => task_filters_of(*args) == Some((f.assignees@, texts(f.statuses@))),
            None => task_filters_of(*args) is None,
        },
        args.assignee@.len() == 0 ==> r is Some,
        r matches Some(f) ==> texts(f.statuses@) == if args.status@.len() == 0 {
            Seq::<Seq<char>>::empty()
        } else {
            seq![args.status@]
        },
        r matches Some(f) ==> (args.assignee@.len() == 0 ==> f.assignees@ == Seq::<usize>::empty()),
{
    let mut statuses: Vec<String> = Vec::new();
    if !args.status.as_str().is_empty() {
        statuses.push(copy_str(args.status.as_str()));
    }
    assert(texts(statuses@) =~= (if args.status@.len() == 0 { Seq::<Seq<char>>::empty() } else { seq![args.status@] }));
    if args.assignee.as_str().is_empty() {
        let assignees: Vec<usize> = Vec::new();
        assert(assignees@ =~= Seq::<usize>::empty());
        Some(TaskListsFilters { assignees, statuses })
    } else {
        match parse_usize(args.assignee.as_str()) {
            Some(id) => {
                let mut assignees: Vec<usize> = Vec::new();
                assignees.push(id);
                assert(assignees@ =~= seq![id]);
                Some(TaskListsFilters { assignees, statuses })
            },
            None => None,
        }
    }
}

/// Whether the task `t` matches the search text `search`: its lower-cased
/// name holds the lower-cased search text.
pub open spec fn matches_search(t: Task, search: Seq<char>) -> bool {
    contains_seq(lowercase_of(t.name@), lowercase_of(search))
}

/// The tasks of a listing that a search keeps: all of them when the search
/// is empty, else those that match it, in order.
pub open spec fn search_result(tasks: Seq<Task>, search: Seq<char>) -> Seq<Task> {
    if search.len() == 0 {
        tasks
    } else {
        tasks.filter(|t: Task| matches_search(t, search))
    }
}

/// Keeps the tasks that match the search text `search`.
pub fn filter_tasks_by_search(tasks: Vec<Task>, search: &str) -> (r: Vec<Task>)
    ensures
        r@ == search_result(tasks@, search@),
        search@.len() == 0 ==> r@ == tasks@,
        search@.len() > 0 ==> r@ == tasks@.filter(
            |t: Task| contains_seq(lowercase_of(t.name@), lowercase_of(search@)),
        ),
{
    if search.is_empty() {
        return tasks;
    }
    let needle = to_lowercase(search);
    let ghost pred = |t: Task| matches_search(t, search@);
    let ghost all = tasks@;
    let mut kept: Vec<Task> = Vec::new();
    assert(all.take(0).filter(pred) =~= Seq::<Task>::empty()) by {
        reveal(Seq::filter);
    }
    for t in it: tasks.into_iter()
        invariant
            it.seq() == all,
            kept@ == all.take(it.index()).filter(pred),
            needle@ == lowercase_of(search@),
            forall|x: Task| #[trigger] pred(x) == matches_search(x, search@),
    {
        let ghost i = it.index();
        assert(all.take(i + 1) == all.take(i).push(t));
        let lower = to_lowercase(t.name.as_str());
        let keep = contains_str(lower.as_str(), needle.as_str());
        assert(pred(t) == keep);
        proof {
            all.take(i).lemma_filter_push(t, pred);
        }
        if keep {
            kept.push(t);
        }
    }
    assert(all.take(all.len() as int) == all);
    proof {
        lemma_search_reads_names(all, search@);
    }
    kept
}

/// A task listing after the search: the tasks kept and how many the list
/// held before the search.
pub struct TaskListing {
    pub tasks: Vec<Task>,
    pub total: usize,
}

/// Applies the search text `search` to the tasks of a list, and keeps the
/// number of tasks the list held for the line under the table.
pub fn task_listing(tasks: Vec<Task>, search: &str) -> (r: TaskListing)
    ensures
        r.total == tasks@.len(),
        r.tasks@ == search_result(tasks@, search@),
{
    let total = tasks.len();
    let kept = filter_tasks_by_search(tasks, search);
    TaskListing { tasks: kept, total }
}

/// Whether `e` is the alias saved for the task listing of `a`: named by
/// `--alias`, holding the list, status and assignee and nothing else.
pub open spec fn is_list_alias_of(e: AliasEntity, a: Args) -> bool {
    &&& e.alias_type == AliasType::Task
    &&& e.name@ == a.alias@
    &&& e.args.list_id@ == a.list_id@
    &&& e.args.status@ == a.status@
    &&& e.args.assignee@ == a.assignee@
    &&& e.args.team_id@.len() == 0
    &&& e.args.space_id@.len() == 0
    &&& e.args.folder_id@.len() == 0
    &&& e.args.task_id@.len() == 0
    &&& e.args.search@.len() == 0
    &&& e.args.thread_id@.len() == 0
}

/// The alias that `--alias` saves for a task listing.
pub fn task_list_alias(args: &Args) -> (r: AliasEntity)
    ensures
        is_list_alias_of(r, *args),
{
    AliasEntity {
        name: copy_str(args.alias.as_str()),
        alias_type: AliasType::Task,
        args: ArgsDTO {
            list_id: copy_str(args.list_id.as_str()),
            status: copy_str(args.status.as_str()),
            assignee: copy_str(args.assignee.as_str()),
            ..Default::default()
        },
    }
}

/// Whether `e` is the alias saved for the details of the task of `a`:
/// named by `--alias`, holding the task and nothing else.
pub open spec fn is_details_alias_of(e: AliasEntity, a: Args) -> bool {
    &&& e.alias_type == AliasType::TaskDetails
    &&& e.name@ == a.alias@
    &&& e.args.task_id@ == a.task_id@
    &&& e.args.team_id@.len() == 0
    &&& e.args.space_id@.len() == 0
    &&& e.args.folder_id@.len() == 0
    &&& e.args.list_id@.len() == 0
    &&& e.args.status@.len() == 0
    &&& e.args.search@.len() == 0
    &&& e.args.assignee@.len() == 0
    &&& e.args.thread_id@.len() == 0
}

/// The alias that `--alias` saves for the details of a task.
pub fn task_details_alias(args: &Args) -> (r: AliasEntity)
    ensures
        is_details_alias_of(r, *args),
{
    AliasEntity {
        name: copy_str(args.alias.as_str()),
        alias_type: AliasType::TaskDetails,
        args: ArgsDTO { task_id: copy_str(args.task_id.as_str()), ..Default::default() },
    }
}

// ---------------------------------------------------------------------------
// Laws of saved aliases
// ---------------------------------------------------------------------------

/// Running the alias saved for a task listing lists the same list with the
/// same assignee and status filters: whatever the map `m` held, once the
/// alias is saved, the arguments run for its id select the task listing of
/// the same list, with the same filters.
pub proof fn lemma_saved_listing_reruns(m: Map<usize, AliasEntity>, a: Args, e: AliasEntity, rerun: Args)
    requires
        a.list_id@.len() > 0,
        is_list_alias_of(e, a),
        m.len() < usize::MAX,
        args_from_dto(rerun, m.insert(next_alias_id(m) as usize, e)[next_alias_id(m) as usize].args),
    ensures
        get_action(rerun) == GetAction::Tasks,
        rerun.list_id@ == a.list_id@,
        task_filters_of(rerun) == task_filters_of(a),
{
}

/// Running the alias saved for the details of a task shows the same task.
pub proof fn lemma_saved_details_reruns(m: Map<usize, AliasEntity>, a: Args, e: AliasEntity, rerun: Args)
    requires
        a.task_id@.len() > 0,
        is_details_alias_of(e, a),
        m.len() < usize::MAX,
        args_from_dto(rerun, m.insert(next_alias_id(m) as usize, e)[next_alias_id(m) as usize].args),
    ensures
        get_action(rerun) == GetAction::TaskDetails,
        rerun.task_id@ == a.task_id@,
{
}

// ---------------------------------------------------------------------------
// Tables
// ---------------------------------------------------------------------------

/// The text of a table: its header cells and the cells of each row.
pub struct TableText {
    pub header: Vec<String>,
    pub rows: Vec<Vec<String>>,
}

/// The cells of the rows of a table.
pub open spec fn row_texts(rows: Seq<Vec<String>>) -> Seq<Seq<Seq<char>>> {
    rows.map_values(|r: Vec<String>| texts(r@))
}

fn cells2(a: &str, b: &str) -> (r: Vec<String>)
    ensures
        texts(r@) == seq![a@, b@],
{
    let mut r: Vec<String> = Vec::new();
    r.push(copy_str(a));
    r.push(copy_str(b));
    assert(texts(r@) =~= seq![a@, b@]);
    r
}

fn cells3(a: &str, b: &str, c: &str) -> (r: Vec<String>)
    ensures
        texts(r@) == seq![a@, b@, c@],
{
    let mut r: Vec<String> = Vec::new();
    r.push(copy_str(a));
    r.push(copy_str(b));
    r.push(copy_str(c));
    assert(texts(r@) =~= seq![a@, b@, c@]);
    r
}

/// The row of a workspace: its id and name.
pub open spec fn team_row(t: Team) -> Seq<Seq<char>> {
    seq![t.id@, t.name@]
}

/// The table of workspaces.
pub fn workspaces_table(w: &AuthorizedWorkspaces) -> (r: TableText)
    ensures
        texts(r.header@) == seq!["ID"@, "Name"@],
        row_texts(r.rows@) == w.teams@.map_values(|t: Team| team_row(t)),
{
    let mut rows: Vec<Vec<String>> = Vec::new();
    let mut i: usize = 0;
    while i < w.teams.len()
        invariant
            i <= w.teams@.len(),
            rows@.len() == i,
            forall|j: int| 0 <= j < i ==> texts(#[trigger] rows@[j]@) == team_row(w.teams@[j]),
        decreases w.teams@.len() - i,
    {
        rows.push(cells2(w.teams[i].id.as_str(), w.teams[i].name.as_str()));
        i = i + 1;
    }
    assert(row_texts(rows@) =~= w.teams@.map_values(|t: Team| team_row(t)));
    TableText { header: cells2("ID", "Name"), rows }
}

/// The row of a space: its id and name.
pub open spec fn space_row(s: Space) -> Seq<Seq<char>> {
    seq![s.id@, s.name@]
}

/// The table of the spaces of a workspace.
pub fn spaces_table(spaces: &Spaces) -> (r: TableText)
    ensures
        texts(r.header@) == seq!["ID"@, "Name"@],
        row_texts(r.rows@) == spaces.spaces@.map_values(|s: Space| space_row(s)),
{
    let mut rows: Vec<Vec<String>> = Vec::new();
    let mut i: usize = 0;
    while i < spaces.spaces.len()
        invariant
            i <= spaces.spaces@.len(),
            rows@.len() == i,
            forall|j: int| 0 <= j < i ==> texts(#[trigger] rows@[j]@) == space_row(spaces.spaces@[j]),
        decreases spaces.spaces@.len() - i,
    {
        rows.push(cells2(spaces.spaces[i].id.as_str(), spaces.spaces[i].name.as_str()));
        i = i + 1;
    }
    assert(row_texts(rows@) =~= spaces.spaces@.map_values(|s: Space| space_row(s)));
    TableText { header: cells2("ID", "Name"), rows }
}

/// The row of a list: its id, name and number of tasks (0 when the list
/// does not say).
pub open spec fn list_row(l: List) -> Seq<Seq<char>> {
    let count: nat = match l.task_count {
        Some(n) => n as nat,
        None => 0,
    };
    seq![l.id@, l.name@, decimal(count)]
}

/// The table of the lists of a folder.
pub fn lists_table(lists: &Lists) -> (r: TableText)
    ensures
        texts(r.header@) == seq!["ID"@, "Name"@, "Task count"@],
        row_texts(r.rows@) == lists.lists@.map_values(|l: List| list_row(l)),
{
    let mut rows: Vec<Vec<String>> = Vec::new();
    let mut i: usize = 0;
    while i < lists.lists.len()
        invariant
            i <= lists.lists@.len(),
            rows@.len() == i,
            forall|j: int| 0 <= j < i ==> texts(#[trigger] rows@[j]@) == list_row(lists.lists@[j]),
        decreases lists.lists@.len() - i,
    {
        let l = &lists.lists[i];
        let count: usize = match l.task_count {
            Some(n) => n,
            None => 0,
        };
        let count_text = usize_to_string(count);
        rows.push(cells3(l.id.as_str(), l.name.as_str(), count_text.as_str()));
        i = i + 1;
    }
    assert(row_texts(rows@) =~= lists.lists@.map_values(|l: List| list_row(l)));
    TableText { header: cells3("ID", "Name", "Task count"), rows }
}

/// The row of a folder: its id, name and number of tasks (empty when the
/// folder does not say).
pub open spec fn folder_row(f: Folder) -> Seq<Seq<char>> {
    let count = match f.task_count {
        Some(n) => n@,
        None => Seq::<char>::empty(),
    };
    seq![f.id@, f.name@, count]
}

/// The table of the folders of a space.
pub fn folders_table(folders: &Folders) -> (r: TableText)
    ensures
        texts(r.header@) == seq!["ID"@, "Name"@, "Task count"@],
        row_texts(r.rows@) == folders.folders@.map_values(|f: Folder| folder_row(f)),
{
    let mut rows: Vec<Vec<String>> = Vec::new();
    let mut i: usize = 0;
    while i < folders.folders.len()
        invariant
            i <= folders.folders@.len(),
            rows@.len() == i,
            forall|j: int| 0 <= j < i ==> texts(#[trigger] rows@[j]@) == folder_row(folders.folders@[j]),
        decreases folders.folders@.len() - i,
    {
        let f = &folders.folders[i];
        proof {
            reveal_strlit("");
        }
        let row = match &f.task_count {
            Some(n) => cells3(f.id.as_str(), f.name.as_str(), n.as_str()),
            None => {
                assert(""@ =~= Seq::<char>::empty());
                cells3(f.id.as_str(), f.name.as_str(), "")
            },
        };
        assert(texts(row@) == folder_row(folders.folders@[i as int]));
        rows.push(row);
        i = i + 1;
    }
    assert(row_texts(rows@) =~= folders.folders@.map_values(|f: Folder| folder_row(f)));
    TableText { header: cells3("ID", "Name", "Task count"), rows }
}


// ---------------------------------------------------------------------------
// Laws of the search
// ---------------------------------------------------------------------------

/// A search keeps, in order, only tasks of the listing; so the task table
/// never shows more tasks than the list holds.
pub proof fn lemma_search_keeps_fewer(tasks: Seq<Task>, search: Seq<char>)
    ensures
        search_result(tasks, search).len() <= tasks.len(),
        forall|i: int| 0 <= i < search_result(tasks, search).len() ==>
            tasks.contains(#[trigger] search_result(tasks, search)[i]),
{
    if search.len() > 0 {
        let pred = |t: Task| matches_search(t, search);
        tasks.lemma_filter_len(pred);
        assert forall|i: int| 0 <= i < tasks.filter(pred).len() implies
            tasks.contains(#[trigger] tasks.filter(pred)[i]) by {
            assert(tasks.filter(pred).contains(tasks.filter(pred)[i]));
            tasks.lemma_filter_contains_rev(pred, tasks.filter(pred)[i]);
        }
    }
}

/// Every task the search keeps matches it, and every task of the listing
/// that matches it is kept.
pub proof fn lemma_search_keeps_exactly_matches(tasks: Seq<Task>, search: Seq<char>, t: Task)
    requires
        search.len() > 0,
    ensures
        search_result(tasks, search).contains(t) <==> (tasks.contains(t) && matches_search(t, search)),
{
    let pred = |x: Task| matches_search(x, search);
    if tasks.contains(t) && matches_search(t, search) {
        let i: int = choose|i: int| 0 <= i < tasks.len() && tasks[i] == t;
        tasks.lemma_filter_contains(pred, i);
    }
    if tasks.filter(pred).contains(t) {
        tasks.lemma_filter_contains_rev(pred, t);
    }
}

/// Searching the result of a search again with the same text changes
/// nothing.
pub proof fn lemma_search_idempotent(tasks: Seq<Task>, search: Seq<char>)
    ensures
        search_result(search_result(tasks, search), search) == search_result(tasks, search),
    decreases tasks.len(),
{
    if search.len() > 0 {
        let pred = |t: Task| matches_search(t, search);
        lemma_filter_twice(tasks, pred);
    }
}

proof fn lemma_filter_twice(s: Seq<Task>, pred: spec_fn(Task) -> bool)
    ensures
        s.filter(pred).filter(pred) == s.filter(pred),
    decreases s.len(),
{
    if s.len() > 0 {
        lemma_filter_twice(s.drop_last(), pred);
        assert(s == s.drop_last().push(s.last()));
        s.drop_last().lemma_filter_push(s.last(), pred);
        if pred(s.last()) {
            s.drop_last().filter(pred).lemma_filter_push(s.last(), pred);
        }
    } else {
        reveal(Seq::filter);
    }
}

/// An empty search keeps the whole listing; a non-empty one keeps, in
/// order, exactly the tasks whose lower-cased name holds the lower-cased
/// search text, whatever their other fields hold.
pub proof fn lemma_search_reads_names(tasks: Seq<Task>, search: Seq<char>)
    ensures
        search.len() == 0 ==> search_result(tasks, search) == tasks,
        search.len() > 0 ==> search_result(tasks, search) == tasks.filter(
            |t: Task| contains_seq(lowercase_of(t.name@), lowercase_of(search)),
        ),
        search.len() > 0 ==> forall|t: Task| #[trigger] tasks.contains(t) ==> (search_result(
            tasks,
            search,
        ).contains(t) <==> contains_seq(lowercase_of(t.name@), lowercase_of(search))),
{
    if search.len() > 0 {
        let by_name = |t: Task| contains_seq(lowercase_of(t.name@), lowercase_of(search));
        assert((|t: Task| matches_search(t, search)) =~= by_name);
        assert forall|t: Task| #[trigger] tasks.contains(t) implies (search_result(
            tasks,
            search,
        ).contains(t) <==> by_name(t)) by {
            lemma_search_keeps_exactly_matches(tasks, search, t);
        }
    }
}

// ---------------------------------------------------------------------------
// Laws of the filters and of the fetch
// ---------------------------------------------------------------------------

/// The status filter holds the status given, or nothing when none is given,
/// whatever assignee is given. Without an assignee the filters always exist
/// and filter no assignee; with one, they exist exactly when it is a number,
/// and filter that number.
pub proof fn lemma_task_filters_from_args(a: Args)
    ensures
        a.assignee@.len() == 0 ==> task_filters_of(a) is Some,
        a.assignee@.len() > 0 ==> (task_filters_of(a) is Some <==> parsed_usize(a.assignee@) is Some),
        task_filters_of(a) matches Some(f) ==> f.1 == if a.status@.len() == 0 {
            Seq::<Seq<char>>::empty()
        } else {
            seq![a.status@]
        },
        task_filters_of(a) matches Some(f) ==> (a.assignee@.len() == 0 ==> f.0 == Seq::<usize>::empty()),
        task_filters_of(a) matches Some(f) ==> (a.assignee@.len() > 0 ==> f.0 == seq![
            parsed_usize(a.assignee@).unwrap(),
        ]),
{
}

/// The ids a fetch can be given, in the order `thread`, `team`, `folder`,
/// `list`, `space`, `task`.
pub open spec fn fetch_ids(a: Args) -> Seq<Seq<char>> {
    seq![a.thread_id@, a.team_id@, a.folder_id@, a.list_id@, a.space_id@, a.task_id@]
}

/// The views of the ids of `fetch_ids`, in the same order.
pub open spec fn id_views() -> Seq<GetAction> {
    seq![
        GetAction::Thread,
        GetAction::Spaces,
        GetAction::Lists,
        GetAction::Tasks,
        GetAction::Folders,
        GetAction::TaskDetails,
    ]
}

/// A thread id, when given, selects the replies of that thread whatever
/// else is given; more generally the first id given, in the order of
/// `fetch_ids`, selects its view, so a single id selects the view of that
/// id; no id at all selects the workspaces.
pub proof fn lemma_fetch_follows_ids(a: Args)
    ensures
        a.thread_id@.len() > 0 ==> get_action(a) == GetAction::Thread,
        forall|k: int|
            0 <= k < 6 && #[trigger] fetch_ids(a)[k].len() > 0 && (forall|j: int|
                0 <= j < k ==> fetch_ids(a)[j].len() == 0) ==> get_action(a) == id_views()[k],
        forall|k: int|
            0 <= k < 6 && #[trigger] fetch_ids(a)[k].len() > 0 && (forall|j: int|
                0 <= j < 6 && j != k ==> fetch_ids(a)[j].len() == 0) ==> get_action(a)
                == id_views()[k],
        (forall|j: int| 0 <= j < 6 ==> #[trigger] fetch_ids(a)[j].len() == 0) ==> get_action(a)
            == GetAction::Workspaces,
{
    let ids = fetch_ids(a);
    assert(ids[0] == a.thread_id@ && ids[1] == a.team_id@ && ids[2] == a.folder_id@);
    assert(ids[3] == a.list_id@ && ids[4] == a.space_id@ && ids[5] == a.task_id@);
    assert forall|k: int|
        0 <= k < 6 && #[trigger] ids[k].len() > 0 && (forall|j: int|
            0 <= j < k ==> ids[j].len() == 0) implies get_action(a) == id_views()[k] by {
        assert(k > 0 ==> ids[0].len() == 0);
        assert(k > 1 ==> ids[1].len() == 0);
        assert(k > 2 ==> ids[2].len() == 0);
        assert(k > 3 ==> ids[3].len() == 0);
        assert(k > 4 ==> ids[4].len() == 0);
    }
    assert forall|k: int|
        0 <= k < 6 && #[trigger] ids[k].len() > 0 && (forall|j: int|
            0 <= j < 6 && j != k ==> ids[j].len() == 0) implies get_action(a) == id_views()[k] by {
        assert(k != 0 ==> ids[0].len() == 0);
        assert(k != 1 ==> ids[1].len() == 0);
        assert(k != 2 ==> ids[2].len() == 0);
        assert(k != 3 ==> ids[3].len() == 0);
        assert(k != 4 ==> ids[4].len() == 0);
        assert(k != 5 ==> ids[5].len() == 0);
    }
    if forall|j: int| 0 <= j < 6 ==> #[trigger] ids[j].len() == 0 {
        assert(ids[0].len() == 0 && ids[1].len() == 0 && ids[2].len() == 0);
        assert(ids[3].len() == 0 && ids[4].len() == 0 && ids[5].len() == 0);
    }
}

} // verus!
