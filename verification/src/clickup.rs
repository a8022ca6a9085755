//! The ClickUp data the client reads and sends, the requests it makes, and
//! the text it shows for tasks and comments.

use vstd::prelude::*;
use crate::text::{
    concat2, concat3, copy_str, decimal, join, join_strings, push_str, texts, usize_to_string,
    to_uppercase, uppercase_of,
};
use crate::utils::{is_readable_date, readable_date_input, unix_date_to_readable, utc_date_text};
use crate::text::parsed_i64;

verus! {

// ---------------------------------------------------------------------------
// Data
// ---------------------------------------------------------------------------

/// A workspace ("team").
pub struct Team {
    pub id: String,
    pub name: String,
}

/// A task status, with the colour it is shown in (`#rrggbb`).
pub struct Status {
    pub id: String,
    pub status: String,
    pub color: String,
}

/// The workspaces the token grants access to.
pub struct AuthorizedWorkspaces {
    pub teams: Vec<Team>,
}

/// A space of a workspace.
pub struct Space {
    pub id: String,
    pub name: String,
    pub statuses: Vec<Status>,
}

/// The spaces of a workspace.
pub struct Spaces {
    pub spaces: Vec<Space>,
}

/// A folder of a space.
pub struct Folder {
    pub id: String,
    pub name: String,
    pub task_count: Option<String>,
    pub statuses: Option<Vec<Status>>,
}

/// The folders of a space.
pub struct Folders {
    pub folders: Vec<Folder>,
}

/// A list of a folder.
pub struct List {
    pub id: String,
    pub name: String,
    pub task_count: Option<usize>,
}

/// The lists of a folder.
pub struct Lists {
    pub lists: Vec<List>,
}

/// A task.
pub struct Task {
    pub id: String,
    pub name: String,
    pub url: String,
    pub status: Status,
    pub folder: Folder,
    pub list: List,
    pub date_created: String,
    pub assignees: Vec<User>,
}

/// The tasks of a list.
pub struct Tasks {
    pub tasks: Vec<Task>,
}

/// Filters of a task listing.
pub struct TaskListsFilters {
    pub assignees: Vec<usize>,
    pub statuses: Vec<String>,
}

/// A user (a task's assignee, a comment's author, a list's member).
pub struct User {
    pub id: usize,
    pub username: String,
    pub color: String,
}

/// The members of a list.
pub struct Members {
    pub members: Vec<User>,
}

/// A comment on a task, or a reply in a comment's thread.
pub struct Comment {
    pub id: String,
    pub comment_text: String,
    pub user: User,
    pub date: String,
    pub reply_count: usize,
}

/// The comments of a task or of a thread.
pub struct Comments {
    pub comments: Vec<Comment>,
}

/// The body of a task update.
pub struct UpdateTaskPayload {
    pub status: String,
    pub name: String,
}

/// The body of a new comment.
pub struct SubmitCommentPayload {
    pub comment_text: String,
    pub notify_all: bool,
}


// ---------------------------------------------------------------------------
// Requests
// ---------------------------------------------------------------------------

/// The API resources the client reads and writes; each carries the id of
/// the object it is about.
pub enum Endpoint {
    /// The workspaces of the token's user.
    Teams,
    /// The spaces of a workspace.
    Spaces(String),
    /// The folders of a space.
    Folders(String),
    /// The lists of a folder.
    Lists(String),
    /// The tasks of a list (read, or create one).
    Tasks(String),
    /// One task (read, or update it).
    Task(String),
    /// The comments of a task (read, or add one).
    TaskComments(String),
    /// The replies in a comment's thread (read, or add one).
    CommentReplies(String),
    /// One folder.
    Folder(String),
    /// The members of a list.
    ListMembers(String),
}

/// The URL of the tasks of the list `list_id`.
pub open spec fn list_tasks_url(list_id: Seq<char>) -> Seq<char> {
    "https://api.clickup.com/api/v2/list/"@ + list_id + "/task"@
}

/// The URL of an API resource.
pub open spec fn endpoint_url(e: Endpoint) -> Seq<char> {
    match e {
        Endpoint::Teams => "https://api.clickup.com/api/v2/team"@,
        Endpoint::Spaces(id) => "https://api.clickup.com/api/v2/team/"@ + id@ + "/space"@,
        Endpoint::Folders(id) => "https://api.clickup.com/api/v2/space/"@ + id@ + "/folder"@,
        Endpoint::Lists(id) => "https://api.clickup.com/api/v2/folder/"@ + id@ + "/list"@,
        Endpoint::Tasks(id) => list_tasks_url(id@),
        Endpoint::Task(id) => "https://api.clickup.com/api/v2/task/"@ + id@,
        Endpoint::TaskComments(id) => "https://api.clickup.com/api/v2/task/"@ + id@ + "/comment"@,
        Endpoint::CommentReplies(id) => "https://api.clickup.com/api/v2/comment/"@ + id@ + "/reply"@,
        Endpoint::Folder(id) => "https://api.clickup.com/api/v2/folder/"@ + id@,
        Endpoint::ListMembers(id) => "https://api.clickup.com/api/v2/list/"@ + id@ + "/member"@,
    }
}

impl Endpoint {
    /// The URL of this resource.
    pub fn url(&self) -> (r: String)
        ensures
            r@ == endpoint_url(*self),
    {
        match self {
            Endpoint::Teams => copy_str("https://api.clickup.com/api/v2/team"),
            Endpoint::Spaces(id) => concat3("https://api.clickup.com/api/v2/team/", id.as_str(), "/space"),
            Endpoint::Folders(id) => concat3("https://api.clickup.com/api/v2/space/", id.as_str(), "/folder"),
            Endpoint::Lists(id) => concat3("https://api.clickup.com/api/v2/folder/", id.as_str(), "/list"),
            Endpoint::Tasks(id) => concat3("https://api.clickup.com/api/v2/list/", id.as_str(), "/task"),
            Endpoint::Task(id) => concat2("https://api.clickup.com/api/v2/task/", id.as_str()),
            Endpoint::TaskComments(id) => concat3("https://api.clickup.com/api/v2/task/", id.as_str(), "/comment"),
            Endpoint::CommentReplies(id) => concat3("https://api.clickup.com/api/v2/comment/", id.as_str(), "/reply"),
            Endpoint::Folder(id) => concat2("https://api.clickup.com/api/v2/folder/", id.as_str()),
            Endpoint::ListMembers(id) => concat3("https://api.clickup.com/api/v2/list/", id.as_str(), "/member"),
        }
    }
}

/// The query parameters of a task listing: the last assignee of the
/// filters (setting the query once for each assignee keeps only the last),
/// then one parameter for each status; `None` when there is none.
pub open spec fn task_query(f: TaskListsFilters) -> Option<Seq<char>> {
    let assignee = if f.assignees@.len() > 0 {
        seq!["assignees[]="@ + decimal(f.assignees@.last() as nat)]
    } else {
        Seq::<Seq<char>>::empty()
    };
    let parts = assignee + f.statuses@.map_values(|s: String| "statuses[]="@ + s@);
    if parts.len() == 0 {
        None
    } else {
        Some(join(parts, "&"@))
    }
}

/// The text of the URL that `reqwest::Url::parse(raw)` yields, after
/// `set_query(Some(q))` when `query` is `Some(q)`; `None` when `raw` does
/// not parse.
pub uninterp spec fn url_text(raw: Seq<char>, query: Option<Seq<char>>) -> Option<Seq<char>>;

/// The characters of an optional string.
pub open spec fn opt_text(s: Option<&str>) -> Option<Seq<char>> {
    match s {
        Some(t) => Some(t@),
        None => None,
    }
}

/// Calls `reqwest::Url::parse` (the `url` crate's parser) on `raw`, then,
/// when `query` is given, `Url::set_query` with it, and returns
/// `Url::as_str`. The parsed text (its normalisation and percent-encoding)
/// is named, not stated.
#[verifier::external_body]
fn parse_url_with_query(raw: &str, query: Option<&str>) -> (r: Option<String>)
    ensures
        match r {
            Some(u) => url_text(raw@, opt_text(query)) == Some(u@),
            None => url_text(raw@, opt_text(query)) is None,
        },
{
    match reqwest::Url::parse(raw) {
        Ok(mut url) => {
            match query {
                Some(q) => url.set_query(Some(q)),
                None => {},
            }
            Some(url.as_str().to_string())
        },
        Err(_) => None,
    }
}

/// The query text of a task listing, built from its filters.
fn task_query_text(filters: &TaskListsFilters) -> (r: Option<String>)
    ensures
        match r {
            Some(q) => task_query(*filters) == Some(q@),
            None => task_query(*filters) is None,
        },
{
    let mut parts: Vec<String> = Vec::new();
    let n: usize = filters.assignees.len();
    if n > 0 {
        let id = usize_to_string(filters.assignees[n - 1]);
        parts.push(concat2("assignees[]=", id.as_str()));
    }
    let ghost first = parts@;
    let mut i: usize = 0;
    while i < filters.statuses.len()
        invariant
            i <= filters.statuses@.len(),
            parts@.len() == first.len() + i,
            first.len() == (if filters.assignees@.len() > 0 { 1int } else { 0int }),
            filters.assignees@.len() > 0 ==>
                parts@[0]@ == "assignees[]="@ + decimal(filters.assignees@.last() as nat),
            forall|j: int| #![trigger parts@[first.len() + j]] 0 <= j < i ==>
                parts@[first.len() + j]@ == "statuses[]="@ + filters.statuses@[j]@,
        decreases filters.statuses@.len() - i,
    {
        parts.push(concat2("statuses[]=", filters.statuses[i].as_str()));
        i = i + 1;
    }
    let ghost assignee = if filters.assignees@.len() > 0 {
        seq!["assignees[]="@ + decimal(filters.assignees@.last() as nat)]
    } else {
        Seq::<Seq<char>>::empty()
    };
    let ghost spec_parts = assignee + filters.statuses@.map_values(|s: String| "statuses[]="@ + s@);
    assert(texts(parts@) =~= spec_parts) by {
        assert forall|j: int| 0 <= j < spec_parts.len() implies texts(parts@)[j] == spec_parts[j] by {
            if j >= first.len() {
                let k: int = j - first.len();
                assert(parts@[first.len() + k]@ == "statuses[]="@ + filters.statuses@[k]@);
            }
        }
    }
    if parts.len() == 0 {
        None
    } else {
        Some(join_strings(&parts, "&"))
    }
}

/// The URL of the task listing of the list `list_id` with `filters`;
/// `None` when it does not parse.
pub fn get_tasks_url(list_id: &str, filters: &TaskListsFilters) -> (r: Option<String>)
    ensures
        ({
            let raw = list_tasks_url(list_id@);
            match r {
                Some(u) => url_text(raw, task_query(*filters)) == Some(u@),
                None => url_text(raw, task_query(*filters)) is None,
            }
        }),
{
    let raw = Endpoint::Tasks(copy_str(list_id)).url();
    let query = task_query_text(filters);
    match query {
        Some(q) => parse_url_with_query(raw.as_str(), Some(q.as_str())),
        None => parse_url_with_query(raw.as_str(), None),
    }
}


// ---------------------------------------------------------------------------
// The authorization header
// ---------------------------------------------------------------------------

/// Whether an HTTP header value may hold the byte `b`: a tab, or any byte
/// from 32 up but 127 (DEL). This is the test `http`'s
/// `HeaderValue::from_str` makes of each byte of its text.
pub open spec fn is_header_value_byte(b: u8) -> bool {
    (b >= 32 && b != 127) || b == 9
}

/// Whether every byte of the UTF-8 text `text` may stand in a header value.
pub open spec fn is_header_value_text(text: Seq<char>) -> bool {
    let bytes = vstd::utf8::encode_utf8(text);
    forall|i: int| 0 <= i < bytes.len() ==> is_header_value_byte(#[trigger] bytes[i])
}

/// A token that cannot be sent as a header value.
#[derive(Debug, PartialEq, Eq, Structural)]
pub struct InvalidHeaderText {
    /// The position of the first byte a header value may not hold.
    pub position: usize,
}

/// The value of the `Authorization` header of every request: the stored
/// token itself, with nothing added. It fails, as `HeaderValue::from_str`
/// does, when a byte of the token may not stand in a header value; the
/// error gives the first such byte. The value holds exactly the bytes of
/// the text, which the application hands to `HeaderValue::from_str` when it
/// builds the request.
pub fn get_request_header(token: &str) -> (r: Result<String, InvalidHeaderText>)
    ensures
        r is Ok <==> is_header_value_text(token@),
        r matches Ok(v) ==> v@ == token@,
        r matches Err(e) ==> ({
            let bytes = vstd::utf8::encode_utf8(token@);
            &&& e.position < bytes.len()
            &&& !is_header_value_byte(bytes[e.position as int])
            &&& forall|i: int| 0 <= i < e.position ==> is_header_value_byte(#[trigger] bytes[i])
        }),
{
    let bytes = token.as_bytes();
    let ghost all = vstd::utf8::encode_utf8(token@);
    assert(bytes@ == all);
    let mut i: usize = 0;
    while i < bytes.len()
        invariant
            i <= bytes@.len(),
            bytes@ == all,
            all == vstd::utf8::encode_utf8(token@),
            forall|j: int| 0 <= j < i ==> is_header_value_byte(#[trigger] all[j]),
        decreases bytes@.len() - i,
    {
        let b = bytes[i];
        assert(all[i as int] == b);
        if !((b >= 32 && b != 127) || b == 9) {
            assert(!is_header_value_byte(all[i as int]));
            return Err(InvalidHeaderText { position: i });
        }
        i = i + 1;
    }
    Ok(copy_str(token))
}

// ---------------------------------------------------------------------------
// Updates
// ---------------------------------------------------------------------------

/// The update that renames `task` to `name`, keeping its status.
pub fn rename_payload(task: &Task, name: String) -> (r: UpdateTaskPayload)
    ensures
        r.status@ == task.status.status@,
        r.name == name,
{
    UpdateTaskPayload { status: copy_str(task.status.status.as_str()), name }
}

/// The update that moves `task` to the status `status`, keeping its name.
pub fn status_payload(task: &Task, status: &str) -> (r: UpdateTaskPayload)
    ensures
        r.status@ == status@,
        r.name@ == task.name@,
{
    UpdateTaskPayload { status: copy_str(status), name: copy_str(task.name.as_str()) }
}

/// A new comment with the text `text`, notifying nobody.
pub fn comment_payload(text: String) -> (r: SubmitCommentPayload)
    ensures
        r.comment_text == text,
        !r.notify_all,
{
    SubmitCommentPayload { comment_text: text, notify_all: false }
}

/// The names of the statuses of a folder, in order; none when the folder
/// carries no statuses.
pub open spec fn status_names_of(folder: Folder) -> Seq<Seq<char>> {
    match folder.statuses {
        Some(v) => v@.map_values(|s: Status| s.status@),
        None => Seq::empty(),
    }
}

/// The statuses a task of `folder` can be moved to.
pub fn status_names(folder: &Folder) -> (r: Vec<String>)
    ensures
        texts(r@) == status_names_of(*folder),
{
    let mut r: Vec<String> = Vec::new();
    match &folder.statuses {
        None => {
            assert(texts(r@) =~= status_names_of(*folder));
        },
        Some(v) => {
            let mut i: usize = 0;
            while i < v.len()
                invariant
                    i <= v@.len(),
                    r@.len() == i,
                    forall|j: int| 0 <= j < i ==> #[trigger] r@[j]@ == v@[j].status@,
                decreases v@.len() - i,
            {
                r.push(copy_str(v[i].status.as_str()));
                i = i + 1;
            }
            assert(texts(r@) =~= v@.map_values(|s: Status| s.status@));
        },
    }
    r
}

// ---------------------------------------------------------------------------
// Assignees
// ---------------------------------------------------------------------------

/// Whether a user named `username` is among the assignees of `task`.
pub open spec fn is_assigned_spec(task: Task, username: Seq<char>) -> bool {
    exists|i: int| 0 <= i < task.assignees@.len() && #[trigger] task.assignees@[i].username@ == username
}

/// Whether a user named `username` is already assigned to `task`.
pub fn is_assigned(task: &Task, username: &str) -> (r: bool)
    ensures
        r == is_assigned_spec(*task, username@),
{
    let mut i: usize = 0;
    while i < task.assignees.len()
        invariant
            i <= task.assignees@.len(),
            forall|j: int| 0 <= j < i ==> #[trigger] task.assignees@[j].username@ != username@,
        decreases task.assignees@.len() - i,
    {
        if task.assignees[i].username == username.to_owned() {
            return true;
        }
        i = i + 1;
    }
    false
}

/// A member one can pick to assign: a username and the id it stands for.
pub struct MemberChoice {
    pub username: String,
    pub id: usize,
}

/// The id each username stands for among `members`: the id of the last
/// member with that name.
pub open spec fn member_ids(members: Seq<User>) -> Map<Seq<char>, usize>
    decreases members.len(),
{
    if members.len() == 0 {
        Map::empty()
    } else {
        member_ids(members.drop_last()).insert(members.last().username@, members.last().id)
    }
}

/// Whether `choices` offers each username of `members` once, with the id
/// it stands for.
pub open spec fn offers_members(choices: Seq<MemberChoice>, members: Seq<User>) -> bool {
    &&& forall|i: int, j: int| 0 <= i < j < choices.len() ==>
            #[trigger] choices[i].username@ != #[trigger] choices[j].username@
    &&& forall|i: int| 0 <= i < choices.len() ==>
            member_ids(members).contains_key(#[trigger] choices[i].username@)
            && member_ids(members)[choices[i].username@] == choices[i].id
    &&& forall|name: Seq<char>| #[trigger] member_ids(members).contains_key(name) ==>
            exists|i: int| 0 <= i < choices.len() && choices[i].username@ == name
}

/// The position of the choice named `username` in `choices`.
fn find_choice(choices: &Vec<MemberChoice>, username: &str) -> (r: Option<usize>)
    ensures
        match r {
            Some(k) => k < choices@.len() && choices@[k as int].username@ == username@,
            None => forall|j: int| 0 <= j < choices@.len() ==> #[trigger] choices@[j].username@ != username@,
        },
{
    let mut k: usize = 0;
    while k < choices.len()
        invariant
            k <= choices@.len(),
            forall|j: int| 0 <= j < k ==> #[trigger] choices@[j].username@ != username@,
        decreases choices@.len() - k,
    {
        if choices[k].username == username.to_owned() {
            return Some(k);
        }
        k = k + 1;
    }
    None
}

/// The members of a list to pick from, each username once with the id of
/// the last member of that name, in the order the names first appear.
pub fn member_choices(members: &Vec<User>) -> (r: Vec<MemberChoice>)
    ensures
        offers_members(r@, members@),
{
    let mut r: Vec<MemberChoice> = Vec::new();
    let mut i: usize = 0;
    while i < members.len()
        invariant
            i <= members@.len(),
            offers_members(r@, members@.take(i as int)),
        decreases members@.len() - i,
    {
        let m = &members[i];
        let ghost prev = members@.take(i as int);
        let ghost next = members@.take(i + 1);
        let ghost name = m.username@;
        assert(next.drop_last() == prev);
        assert(next.last() == *m);
        assert(member_ids(next) == member_ids(prev).insert(name, m.id));
        let ghost old_r = r@;
        let choice = MemberChoice { username: copy_str(m.username.as_str()), id: m.id };
        let ghost mut pos: int = old_r.len() as int;
        match find_choice(&r, m.username.as_str()) {
            Some(k) => {
                proof {
                    pos = k as int;
                }
                r.set(k, choice);
                assert forall|a: int| 0 <= a < r@.len() && a != k implies #[trigger] r@[a] == old_r[a] by {}
            },
            None => {
                r.push(choice);
                assert forall|a: int| 0 <= a < old_r.len() implies #[trigger] r@[a] == old_r[a] by {}
            },
        }
        assert forall|n: Seq<char>| #[trigger] member_ids(next).contains_key(n) implies
            exists|j: int| 0 <= j < r@.len() && r@[j].username@ == n by {
            if n != name {
                assert(member_ids(prev).contains_key(n));
                let j: int = choose|j: int| 0 <= j < old_r.len() && old_r[j].username@ == n;
                assert(r@[j] == old_r[j]);
            } else {
                assert(r@[pos].username@ == name);
            }
        }
        i = i + 1;
    }
    assert(members@.take(members@.len() as int) == members@);
    r
}

/// The id of the member named `username` among `choices`.
pub fn member_id(choices: &Vec<MemberChoice>, username: &str) -> (r: Option<usize>)
    ensures
        match r {
            Some(id) => exists|i: int| 0 <= i < choices@.len() && choices@[i].username@ == username@
                && choices@[i].id == id,
            None => forall|i: int| 0 <= i < choices@.len() ==> choices@[i].username@ != username@,
        },
{
    let mut i: usize = 0;
    while i < choices.len()
        invariant
            i <= choices@.len(),
            forall|j: int| 0 <= j < i ==> #[trigger] choices@[j].username@ != username@,
        decreases choices@.len() - i,
    {
        if choices[i].username == username.to_owned() {
            return Some(choices[i].id);
        }
        i = i + 1;
    }
    None
}


// ---------------------------------------------------------------------------
// Task details and comments, as text
// ---------------------------------------------------------------------------

/// A comment as it is shown: the author's name in the author's colour,
/// then the rest of the heading, the date line and the text. The date line
/// is `None` when the comment's date is not a timestamp chrono can show: the
/// program stops there, after the heading.
pub struct CommentView {
    pub author: String,
    pub author_color: String,
    pub heading: String,
    pub date_line: Option<String>,
    pub text: String,
}

/// The date line of a timestamp text: `label` and the date it stands for.
pub open spec fn date_line(label: Seq<char>, date_milis: Seq<char>) -> Seq<char> {
    label + utc_date_text(parsed_i64(date_milis).unwrap() as int)
}

/// Whether `line` is the date line with `label` of the timestamp text
/// `date_milis`: present exactly when the text is a timestamp chrono can
/// show.
pub open spec fn shows_date(line: Option<String>, label: Seq<char>, date_milis: Seq<char>) -> bool {
    match line {
        Some(l) => readable_date_input(date_milis) && l@ == date_line(label, date_milis),
        None => !readable_date_input(date_milis),
    }
}

/// Whether `v` shows the comment `c`.
pub open spec fn shows_comment(v: CommentView, c: Comment) -> bool {
    &&& v.author@ == c.user.username@
    &&& v.author_color@ == c.user.color@
    &&& v.heading@ == " ("@ + c.id@ + ") "@ + decimal(c.reply_count as nat) + " replies"@
    &&& shows_date(v.date_line, "Date: "@, c.date@)
    &&& v.text@ == c.comment_text@
}

/// The date line with `label` of the timestamp text `date_milis`.
fn date_line_text(label: &str, date_milis: &str) -> (r: Option<String>)
    ensures
        shows_date(r, label@, date_milis@),
{
    if is_readable_date(date_milis) {
        let date = unix_date_to_readable(date_milis);
        Some(concat2(label, date.as_str()))
    } else {
        None
    }
}

/// How a comment is shown.
pub fn print_comment(comment: &Comment) -> (r: CommentView)
    ensures
        shows_comment(r, *comment),
{
    let mut heading = concat3(" (", comment.id.as_str(), ") ");
    let count = usize_to_string(comment.reply_count);
    push_str(&mut heading, count.as_str());
    push_str(&mut heading, " replies");
    CommentView {
        author: copy_str(comment.user.username.as_str()),
        author_color: copy_str(comment.user.color.as_str()),
        heading,
        date_line: date_line_text("Date: ", comment.date.as_str()),
        text: copy_str(comment.comment_text.as_str()),
    }
}

/// A task and its comments as they are shown. The creation line is `None`
/// when the task's date is not a timestamp chrono can show: the program
/// stops there, after the title and URL lines.
pub struct TaskDetailsView {
    pub title_line: String,
    pub url_line: String,
    pub created_line: Option<String>,
    /// The status, upper-cased, shown in `status_color`.
    pub status: String,
    pub status_color: String,
    pub comments: Vec<CommentView>,
}

/// Whether `v` shows the task `t` with the comments `cs`.
pub open spec fn shows_task(v: TaskDetailsView, t: Task, cs: Seq<Comment>) -> bool {
    &&& v.title_line@ == "Title: "@ + t.name@ + " ("@ + t.id@ + ")"@
    &&& v.url_line@ == "URL: "@ + t.url@
    &&& shows_date(v.created_line, "Created on: "@, t.date_created@)
    &&& v.status@ == uppercase_of(t.status.status@)
    &&& v.status_color@ == t.status.color@
    &&& v.comments@.len() == cs.len()
    &&& forall|i: int| 0 <= i < cs.len() ==> shows_comment(#[trigger] v.comments@[i], cs[i])
}

/// How a task is shown with its comments (the comments, and their heading,
/// only when there are any).
pub fn print_task_details(task: &Task, comments: &Comments) -> (r: TaskDetailsView)
    ensures
        shows_task(r, *task, comments.comments@),
{
    let mut title_line = concat3("Title: ", task.name.as_str(), " (");
    push_str(&mut title_line, task.id.as_str());
    push_str(&mut title_line, ")");
    let mut views: Vec<CommentView> = Vec::new();
    let mut i: usize = 0;
    while i < comments.comments.len()
        invariant
            i <= comments.comments@.len(),
            views@.len() == i,
            forall|j: int| 0 <= j < i ==> shows_comment(#[trigger] views@[j], comments.comments@[j]),
        decreases comments.comments@.len() - i,
    {
        views.push(print_comment(&comments.comments[i]));
        i = i + 1;
    }
    TaskDetailsView {
        title_line,
        url_line: concat2("URL: ", task.url.as_str()),
        created_line: date_line_text("Created on: ", task.date_created.as_str()),
        status: to_uppercase(task.status.status.as_str()),
        status_color: copy_str(task.status.color.as_str()),
        comments: views,
    }
}

} // verus!
