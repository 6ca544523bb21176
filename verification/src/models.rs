//! The normalized data model: messages of a session transcript, project and
//! session listings, search results, and the session-list time filter.
use vstd::prelude::*;
use crate::time::{fmt_ymd_hms_of, format_ymd_hms};

verus! {

#[derive(Debug, Clone, Copy, PartialEq, Eq, Structural)]
pub enum MessageRole {
    User,
    Assistant,
    System,
    ToolUse,
    ToolResult,
    Progress,
}

/// One normalized message of a session transcript.
#[derive(Debug, Clone)]
pub struct Message {
    pub role: MessageRole,
    pub text: String,
    /// Milliseconds since the Unix epoch, where the record carried one.
    pub timestamp: Option<i64>,
    /// Only for `ToolUse` messages.
    pub tool_name: Option<String>,
}

/// A [`Message`] by its mathematical content.
#[verifier::ext_equal]
pub struct MessageV {
    pub role: MessageRole,
    pub text: Seq<char>,
    pub timestamp: Option<i64>,
    pub tool_name: Option<Seq<char>>,
}

impl View for Message {
    type V = MessageV;

    open spec fn view(&self) -> MessageV {
        MessageV {
            role: self.role,
            text: self.text@,
            timestamp: self.timestamp,
            tool_name: match self.tool_name {
                Some(ref s) => Some(s@),
                None => None,
            },
        }
    }
}

pub open spec fn spec_role_label(role: MessageRole) -> Seq<char> {
    match role {
        MessageRole::User => "USER"@,
        MessageRole::Assistant => "ASSISTANT"@,
        MessageRole::System => "SYSTEM"@,
        MessageRole::ToolUse => "TOOL"@,
        MessageRole::ToolResult => "RESULT"@,
        MessageRole::Progress => "PROGRESS"@,
    }
}

impl Message {
    /// The timestamp rendered as `YYYY-MM-DD hh:mm:ss`, or empty.
    pub fn timestamp_str(&self) -> (r: String)
        ensures
            r@ == match self.timestamp {
                Some(t) => fmt_ymd_hms_of(t),
                None => Seq::<char>::empty(),
            },
    {
        match self.timestamp {
            Some(t) => format_ymd_hms(t),
            None => {
                let r = String::new();
                r
            },
        }
    }

    /// The fixed label under which this role is displayed.
    pub fn role_label(&self) -> (r: &'static str)
        ensures
            r@ == spec_role_label(self.role),
    {
        match self.role {
            MessageRole::User => "USER",
            MessageRole::Assistant => "ASSISTANT",
            MessageRole::System => "SYSTEM",
            MessageRole::ToolUse => "TOOL",
            MessageRole::ToolResult => "RESULT",
            MessageRole::Progress => "PROGRESS",
        }
    }
}

/// One project directory under the logs root.
#[derive(Debug, Clone)]
pub struct ProjectInfo {
    pub dir_name: String,
    pub original_path: String,
    pub session_count: usize,
}

/// One session of a project, as listed before it is opened.
#[derive(Debug, Clone)]
pub struct SessionInfo {
    pub session_id: String,
    pub project_name: String,
    pub preview: String,
    /// Milliseconds since the Unix epoch, where known.
    pub timestamp: Option<i64>,
    pub message_count: usize,
    pub git_branch: String,
    pub summary: String,
}

/// A [`SessionInfo`] by its mathematical content.
#[verifier::ext_equal]
pub struct SessionInfoV {
    pub session_id: Seq<char>,
    pub project_name: Seq<char>,
    pub preview: Seq<char>,
    pub timestamp: Option<i64>,
    pub message_count: usize,
    pub git_branch: Seq<char>,
    pub summary: Seq<char>,
}

impl View for SessionInfo {
    type V = SessionInfoV;

    open spec fn view(&self) -> SessionInfoV {
        SessionInfoV {
            session_id: self.session_id@,
            project_name: self.project_name@,
            preview: self.preview@,
            timestamp: self.timestamp,
            message_count: self.message_count,
            git_branch: self.git_branch@,
            summary: self.summary@,
        }
    }
}

/// A [`ProjectInfo`] by its mathematical content.
#[verifier::ext_equal]
pub struct ProjectInfoV {
    pub dir_name: Seq<char>,
    pub original_path: Seq<char>,
    pub session_count: usize,
}

impl View for ProjectInfo {
    type V = ProjectInfoV;

    open spec fn view(&self) -> ProjectInfoV {
        ProjectInfoV {
            dir_name: self.dir_name@,
            original_path: self.original_path@,
            session_count: self.session_count,
        }
    }
}

impl SessionInfo {
    /// The timestamp rendered as `YYYY-MM-DD hh:mm:ss`, or empty.
    pub fn timestamp_str(&self) -> (r: String)
        ensures
            r@ == match self.timestamp {
                Some(t) => fmt_ymd_hms_of(t),
                None => Seq::<char>::empty(),
            },
    {
        match self.timestamp {
            Some(t) => format_ymd_hms(t),
            None => {
                let r = String::new();
                r
            },
        }
    }
}

/// One session in the global search view, with its best matching prompt.
#[derive(Debug, Clone)]
pub struct SearchResult {
    pub session_id: String,
    pub project_path: String,
    pub dir_name: String,
    pub git_branch: String,
    pub created_at: String,
    pub prompts: Vec<String>,
    pub best_match_prompt: String,
    /// Character offsets of the query match within `best_match_prompt`.
    pub best_match_indices: Vec<usize>,
}

/// A [`SearchResult`] by its mathematical content.
#[verifier::ext_equal]
pub struct SearchResultV {
    pub session_id: Seq<char>,
    pub project_path: Seq<char>,
    pub dir_name: Seq<char>,
    pub git_branch: Seq<char>,
    pub created_at: Seq<char>,
    pub prompts: Seq<Seq<char>>,
    pub best_match_prompt: Seq<char>,
    pub best_match_indices: Seq<usize>,
}

impl View for SearchResult {
    type V = SearchResultV;

    open spec fn view(&self) -> SearchResultV {
        SearchResultV {
            session_id: self.session_id@,
            project_path: self.project_path@,
            dir_name: self.dir_name@,
            git_branch: self.git_branch@,
            created_at: self.created_at@,
            prompts: Seq::new(self.prompts@.len(), |i: int| self.prompts@[i]@),
            best_match_prompt: self.best_match_prompt@,
            best_match_indices: self.best_match_indices@,
        }
    }
}

/// An equal copy.
pub fn clone_project_info(p: &ProjectInfo) -> (r: ProjectInfo)
    ensures
        r == *p,
{
    ProjectInfo {
        dir_name: p.dir_name.clone(),
        original_path: p.original_path.clone(),
        session_count: p.session_count,
    }
}

/// An equal copy.
pub fn clone_session_info(s: &SessionInfo) -> (r: SessionInfo)
    ensures
        r == *s,
{
    SessionInfo {
        session_id: s.session_id.clone(),
        project_name: s.project_name.clone(),
        preview: s.preview.clone(),
        timestamp: s.timestamp,
        message_count: s.message_count,
        git_branch: s.git_branch.clone(),
        summary: s.summary.clone(),
    }
}

/// An equal copy.
pub fn clone_message(m: &Message) -> (r: Message)
    ensures
        r == *m,
{
    Message {
        role: m.role,
        text: m.text.clone(),
        timestamp: m.timestamp,
        tool_name: match &m.tool_name {
            Some(s) => Some(s.clone()),
            None => None,
        },
    }
}

/// A copy of equal view (the vectors inside are rebuilt).
pub fn clone_search_result(r: &SearchResult) -> (c: SearchResult)
    ensures
        c@ == r@,
{
    let mut prompts: Vec<String> = Vec::new();
    let n = r.prompts.len();
    for i in 0..n
        invariant
            n == r.prompts@.len(),
            prompts@.len() == i,
            forall|j: int| 0 <= j < i ==> (#[trigger] prompts@[j])@ == r.prompts@[j]@,
    {
        prompts.push(r.prompts[i].clone());
    }
    let mut indices: Vec<usize> = Vec::new();
    let m = r.best_match_indices.len();
    for i in 0..m
        invariant
            m == r.best_match_indices@.len(),
            indices@ == r.best_match_indices@.subrange(0, i as int),
    {
        indices.push(r.best_match_indices[i]);
        assert(indices@ =~= r.best_match_indices@.subrange(0, i + 1 as int));
    }
    assert(indices@ =~= r.best_match_indices@);
    let c = SearchResult {
        session_id: r.session_id.clone(),
        project_path: r.project_path.clone(),
        dir_name: r.dir_name.clone(),
        git_branch: r.git_branch.clone(),
        created_at: r.created_at.clone(),
        prompts,
        best_match_prompt: r.best_match_prompt.clone(),
        best_match_indices: indices,
    };
    assert(c@.prompts =~= r@.prompts);
    assert(c@ =~= r@);
    c
}

/// An equal copy of the whole list.
pub fn clone_projects(v: &Vec<ProjectInfo>) -> (r: Vec<ProjectInfo>)
    ensures
        r@ == v@,
{
    let mut out: Vec<ProjectInfo> = Vec::new();
    let n = v.len();
    for i in 0..n
        invariant
            n == v@.len(),
            out@ == v@.subrange(0, i as int),
    {
        let c = clone_project_info(&v[i]);
        out.push(c);
        assert(out@ =~= v@.subrange(0, i + 1 as int));
    }
    assert(out@ =~= v@);
    out
}

/// A copy of the list, equal under the view.
pub fn clone_search_results(v: &Vec<SearchResult>) -> (r: Vec<SearchResult>)
    ensures
        r@.map_values(|x: SearchResult| x@) == v@.map_values(|x: SearchResult| x@),
{
    let mut out: Vec<SearchResult> = Vec::new();
    let n = v.len();
    for i in 0..n
        invariant
            n == v@.len(),
            out@.len() == i,
            forall|j: int| 0 <= j < i ==> (#[trigger] out@[j])@ == v@[j]@,
    {
        let c = clone_search_result(&v[i]);
        out.push(c);
    }
    assert(out@.map_values(|x: SearchResult| x@) =~= v@.map_values(|x: SearchResult| x@));
    out
}

/// The session-list time filter, cycled through with Tab.
#[derive(Debug, Clone, Copy, PartialEq, Eq, Structural)]
pub enum TimeFilter {
    Yesterday,
    Week,
    Month,
    All,
}

pub open spec fn spec_filter_label(f: TimeFilter) -> Seq<char> {
    match f {
        TimeFilter::Yesterday => "Yesterday"@,
        TimeFilter::Week => "Week"@,
        TimeFilter::Month => "Month"@,
        TimeFilter::All => "All"@,
    }
}

pub open spec fn spec_filter_next(f: TimeFilter) -> TimeFilter {
    match f {
        TimeFilter::Yesterday => TimeFilter::Week,
        TimeFilter::Week => TimeFilter::Month,
        TimeFilter::Month => TimeFilter::All,
        TimeFilter::All => TimeFilter::Yesterday,
    }
}

pub open spec fn spec_filter_prev(f: TimeFilter) -> TimeFilter {
    match f {
        TimeFilter::Yesterday => TimeFilter::All,
        TimeFilter::Week => TimeFilter::Yesterday,
        TimeFilter::Month => TimeFilter::Week,
        TimeFilter::All => TimeFilter::Month,
    }
}

impl TimeFilter {
    pub fn label(&self) -> (r: &'static str)
        ensures
            r@ == spec_filter_label(*self),
    {
        match self {
            TimeFilter::Yesterday => "Yesterday",
            TimeFilter::Week => "Week",
            TimeFilter::Month => "Month",
            TimeFilter::All => "All",
        }
    }

    /// Every filter, in display order.
    pub fn all_filters() -> (r: Vec<TimeFilter>)
        ensures
            r@ == seq![
                TimeFilter::Yesterday,
                TimeFilter::Week,
                TimeFilter::Month,
                TimeFilter::All,
            ],
    {
        let mut v: Vec<TimeFilter> = Vec::new();
        v.push(TimeFilter::Yesterday);
        v.push(TimeFilter::Week);
        v.push(TimeFilter::Month);
        v.push(TimeFilter::All);
        assert(v@ =~= seq![
            TimeFilter::Yesterday,
            TimeFilter::Week,
            TimeFilter::Month,
            TimeFilter::All,
        ]);
        v
    }

    pub fn next(&self) -> (r: TimeFilter)
        ensures
            r == spec_filter_next(*self),
    {
        match self {
            TimeFilter::Yesterday => TimeFilter::Week,
            TimeFilter::Week => TimeFilter::Month,
            TimeFilter::Month => TimeFilter::All,
            TimeFilter::All => TimeFilter::Yesterday,
        }
    }

    pub fn prev(&self) -> (r: TimeFilter)
        ensures
            r == spec_filter_prev(*self),
    {
        match self {
            TimeFilter::Yesterday => TimeFilter::All,
            TimeFilter::Week => TimeFilter::Yesterday,
            TimeFilter::Month => TimeFilter::Week,
            TimeFilter::All => TimeFilter::Month,
        }
    }
}

/// Cycling one step forward then one step back restores the filter, and so
/// does the reverse order.
pub proof fn lemma_filter_cycle(f: TimeFilter)
    ensures
        spec_filter_prev(spec_filter_next(f)) == f,
        spec_filter_next(spec_filter_prev(f)) == f,
{
}

} // verus!
