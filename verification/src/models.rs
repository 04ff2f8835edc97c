//! The data the assistant keeps and exchanges: matters, their fragment logs,
//! their todos, settings, and the routing decisions over captured snippets.
//!
//! Confidences are fixed-point numbers in hundredths (`85` means 0.85).
use vstd::prelude::*;
use crate::text::opt_seq;

verus! {

/// A copy of an optional text.
pub fn copy_opt(o: &Option<String>) -> (r: Option<String>)
    ensures
        r == *o,
{
    match o {
        Some(s) => Some(s.clone()),
        None => None,
    }
}

/// A matter: one ongoing piece of work or life business.
#[derive(Debug)]
pub struct Matter {
    pub id: String,
    pub title: String,
    pub overview: String,
    pub fact_summary: String,
    /// `"work"` or `"life"`.
    pub category: String,
    /// `"high"`, `"medium"` or `"low"`.
    pub priority: String,
    /// 1 to 5.
    pub importance: i32,
    /// `"active"`, `"pending"`, `"completed"` or `"archived"`.
    pub status: String,
    pub is_pinned: bool,
    pub created_at: String,
    pub updated_at: String,
    pub pending_todos_count: i32,
    pub total_todos_count: i32,
    pub latest_log_snippet: Option<String>,
    pub latest_log_time: Option<String>,
    pub latest_todo_content: Option<String>,
    pub latest_todo_due_time: Option<String>,
    pub latest_todo_status: Option<String>,
    pub related_contacts: String,
}

impl Matter {
    /// A field-by-field copy.
    pub fn copy(&self) -> (r: Matter)
        ensures
            r == *self,
    {
        Matter {
            id: self.id.clone(),
            title: self.title.clone(),
            overview: self.overview.clone(),
            fact_summary: self.fact_summary.clone(),
            category: self.category.clone(),
            priority: self.priority.clone(),
            importance: self.importance,
            status: self.status.clone(),
            is_pinned: self.is_pinned,
            created_at: self.created_at.clone(),
            updated_at: self.updated_at.clone(),
            pending_todos_count: self.pending_todos_count,
            total_todos_count: self.total_todos_count,
            latest_log_snippet: copy_opt(&self.latest_log_snippet),
            latest_log_time: copy_opt(&self.latest_log_time),
            latest_todo_content: copy_opt(&self.latest_todo_content),
            latest_todo_due_time: copy_opt(&self.latest_todo_due_time),
            latest_todo_status: copy_opt(&self.latest_todo_status),
            related_contacts: self.related_contacts.clone(),
        }
    }
}

/// A captured text fragment, optionally filed under a matter.
#[derive(Debug)]
pub struct LogItem {
    pub id: String,
    pub matter_id: Option<String>,
    pub raw_content: String,
    pub source_app: String,
    pub source_window_title: String,
    pub created_at: String,
}

impl LogItem {
    /// A field-by-field copy.
    pub fn copy(&self) -> (r: LogItem)
        ensures
            r == *self,
    {
        LogItem {
            id: self.id.clone(),
            matter_id: copy_opt(&self.matter_id),
            raw_content: self.raw_content.clone(),
            source_app: self.source_app.clone(),
            source_window_title: self.source_window_title.clone(),
            created_at: self.created_at.clone(),
        }
    }
}

/// A todo of a matter.
#[derive(Debug)]
pub struct TodoItem {
    pub id: String,
    pub matter_id: String,
    pub log_id: Option<String>,
    pub content: String,
    pub due_time: Option<String>,
    pub reminder_time: Option<String>,
    pub is_reminder_sent: bool,
    /// `"pending"` or `"completed"`.
    pub status: String,
    pub is_focused: bool,
    pub created_at: String,
    pub completed_at: Option<String>,
    pub matter_title: Option<String>,
}

impl TodoItem {
    /// A field-by-field copy.
    pub fn copy(&self) -> (r: TodoItem)
        ensures
            r == *self,
    {
        TodoItem {
            id: self.id.clone(),
            matter_id: self.matter_id.clone(),
            log_id: copy_opt(&self.log_id),
            content: self.content.clone(),
            due_time: copy_opt(&self.due_time),
            reminder_time: copy_opt(&self.reminder_time),
            is_reminder_sent: self.is_reminder_sent,
            status: self.status.clone(),
            is_focused: self.is_focused,
            created_at: self.created_at.clone(),
            completed_at: copy_opt(&self.completed_at),
            matter_title: copy_opt(&self.matter_title),
        }
    }
}

/// A log of the inbox, with the title of its matter and the todos derived
/// from it.
#[derive(Debug)]
pub struct InboxLogItem {
    pub id: String,
    pub matter_id: Option<String>,
    pub matter_title: Option<String>,
    pub raw_content: String,
    pub source_app: String,
    pub source_window_title: String,
    pub created_at: String,
    pub todos: Vec<TodoItem>,
}

/// The user's settings.
#[derive(Debug)]
pub struct AppConfig {
    pub api_base_url: String,
    pub api_key: String,
    pub model_name: String,
    pub capture_shortcut: String,
    pub main_window_shortcut: String,
    /// Confidence, in hundredths, from which a routed snippet is filed
    /// without asking.
    pub auto_archive_confidence: u32,
    pub user_profile: String,
    pub theme: String,
}

/// A todo extracted from a snippet.
#[derive(Debug)]
pub struct ExtractedTodo {
    pub content: String,
    pub due_time: Option<String>,
}

impl ExtractedTodo {
    /// A field-by-field copy.
    pub fn copy(&self) -> (r: ExtractedTodo)
        ensures
            r == *self,
    {
        ExtractedTodo { content: self.content.clone(), due_time: copy_opt(&self.due_time) }
    }
}

/// A matter suggested for a snippet that matches no existing one.
#[derive(Debug)]
pub struct SuggestedMatter {
    pub title: String,
    pub category: String,
    pub priority: String,
    pub summary: String,
    pub related_contacts: Option<String>,
}

/// An existing matter that a snippet may belong to.
#[derive(Debug)]
pub struct CandidateMatter {
    pub id: String,
    pub title: String,
    /// In hundredths.
    pub confidence: u32,
}

/// A suggestion to close or change an existing todo.
#[derive(Debug)]
pub struct TodoUpdateSuggestion {
    pub todo_id: String,
    pub original_content: String,
    /// `"CLOSE"` or `"UPDATE"`.
    pub action: String,
    pub reason: String,
    pub updated_content: Option<String>,
    pub updated_due_time: Option<String>,
}

/// The routing decision for a captured snippet.
#[derive(Debug)]
pub struct AIParseResult {
    /// `"MATCH_EXISTING"`, `"AMBIGUOUS"`, `"CREATE_NEW"` or `"IGNORE"`.
    pub action: String,
    /// In hundredths.
    pub confidence: u32,
    pub matched_matter_id: Option<String>,
    pub matched_matter_title: Option<String>,
    pub candidate_matters: Vec<CandidateMatter>,
    pub suggested_new_matter: Option<SuggestedMatter>,
    pub extracted_facts_delta: Option<String>,
    pub extracted_todos: Vec<ExtractedTodo>,
    pub todo_updates: Vec<TodoUpdateSuggestion>,
    pub raw_snippet: String,
    pub source_app: String,
    pub source_window: String,
    pub log_id: Option<String>,
    pub detected_chat_target: Option<String>,
}

/// A matter with its pending todos, as the router sees it.
#[derive(Debug)]
pub struct MatterContextWithTodos {
    pub matter: Matter,
    pub pending_todos: Vec<TodoItem>,
}


/// What an extracted todo says.
pub struct DraftView {
    pub content: Seq<char>,
    pub due_time: Option<Seq<char>>,
}

impl View for ExtractedTodo {
    type V = DraftView;

    open spec fn view(&self) -> DraftView {
        DraftView { content: self.content@, due_time: opt_seq(self.due_time) }
    }
}

/// What a candidate matter says.
pub struct CandidateView {
    pub id: Seq<char>,
    pub title: Seq<char>,
    pub confidence: u32,
}

impl View for CandidateMatter {
    type V = CandidateView;

    open spec fn view(&self) -> CandidateView {
        CandidateView { id: self.id@, title: self.title@, confidence: self.confidence }
    }
}

/// What a suggested matter says.
pub struct SuggestionView {
    pub title: Seq<char>,
    pub category: Seq<char>,
    pub priority: Seq<char>,
    pub summary: Seq<char>,
    pub related_contacts: Option<Seq<char>>,
}

impl View for SuggestedMatter {
    type V = SuggestionView;

    open spec fn view(&self) -> SuggestionView {
        SuggestionView {
            title: self.title@,
            category: self.category@,
            priority: self.priority@,
            summary: self.summary@,
            related_contacts: opt_seq(self.related_contacts),
        }
    }
}

/// What a todo update suggestion says.
pub struct UpdateView {
    pub todo_id: Seq<char>,
    pub original_content: Seq<char>,
    pub action: Seq<char>,
    pub reason: Seq<char>,
    pub updated_content: Option<Seq<char>>,
    pub updated_due_time: Option<Seq<char>>,
}

impl View for TodoUpdateSuggestion {
    type V = UpdateView;

    open spec fn view(&self) -> UpdateView {
        UpdateView {
            todo_id: self.todo_id@,
            original_content: self.original_content@,
            action: self.action@,
            reason: self.reason@,
            updated_content: opt_seq(self.updated_content),
            updated_due_time: opt_seq(self.updated_due_time),
        }
    }
}

/// What a routing decision says.
pub struct ParseView {
    pub action: Seq<char>,
    pub confidence: u32,
    pub matched_matter_id: Option<Seq<char>>,
    pub matched_matter_title: Option<Seq<char>>,
    pub candidate_matters: Seq<CandidateView>,
    pub suggested_new_matter: Option<SuggestionView>,
    pub extracted_facts_delta: Option<Seq<char>>,
    pub extracted_todos: Seq<DraftView>,
    pub todo_updates: Seq<UpdateView>,
    pub raw_snippet: Seq<char>,
    pub source_app: Seq<char>,
    pub source_window: Seq<char>,
    pub log_id: Option<Seq<char>>,
    pub detected_chat_target: Option<Seq<char>>,
}

/// The views of a sequence of extracted todos.
pub open spec fn draft_views(v: Seq<ExtractedTodo>) -> Seq<DraftView> {
    v.map_values(|t: ExtractedTodo| t@)
}

/// The views of a sequence of candidates.
pub open spec fn candidate_views(v: Seq<CandidateMatter>) -> Seq<CandidateView> {
    v.map_values(|c: CandidateMatter| c@)
}

/// The views of a sequence of update suggestions.
pub open spec fn update_views(v: Seq<TodoUpdateSuggestion>) -> Seq<UpdateView> {
    v.map_values(|u: TodoUpdateSuggestion| u@)
}

impl View for AIParseResult {
    type V = ParseView;

    open spec fn view(&self) -> ParseView {
        ParseView {
            action: self.action@,
            confidence: self.confidence,
            matched_matter_id: opt_seq(self.matched_matter_id),
            matched_matter_title: opt_seq(self.matched_matter_title),
            candidate_matters: candidate_views(self.candidate_matters@),
            suggested_new_matter: match self.suggested_new_matter {
                Some(s) => Some(s@),
                None => None,
            },
            extracted_facts_delta: opt_seq(self.extracted_facts_delta),
            extracted_todos: draft_views(self.extracted_todos@),
            todo_updates: update_views(self.todo_updates@),
            raw_snippet: self.raw_snippet@,
            source_app: self.source_app@,
            source_window: self.source_window@,
            log_id: opt_seq(self.log_id),
            detected_chat_target: opt_seq(self.detected_chat_target),
        }
    }
}


/// `"https://api.openai.com/v1"`
pub open spec fn default_api_base() -> Seq<char> {
    seq!['h', 't', 't', 'p', 's', ':', '/', '/', 'a', 'p', 'i', '.', 'o', 'p', 'e', 'n', 'a', 'i', '.', 'c', 'o', 'm', '/', 'v', '1']
}

/// `"gpt-4o-mini"`
pub open spec fn default_model() -> Seq<char> {
    seq!['g', 'p', 't', '-', '4', 'o', '-', 'm', 'i', 'n', 'i']
}

/// `"Alt+A"`
pub open spec fn default_capture_shortcut() -> Seq<char> {
    seq!['A', 'l', 't', '+', 'A']
}

/// `"Alt+Shift+Space"`
pub open spec fn default_main_shortcut() -> Seq<char> {
    seq!['A', 'l', 't', '+', 'S', 'h', 'i', 'f', 't', '+', 'S', 'p', 'a', 'c', 'e']
}

/// The settings a fresh installation starts with.
pub open spec fn default_config_is(c: AppConfig) -> bool {
    &&& c.api_base_url@ == default_api_base()
    &&& c.api_key@.len() == 0
    &&& c.model_name@ == default_model()
    &&& c.capture_shortcut@ == default_capture_shortcut()
    &&& c.main_window_shortcut@ == default_main_shortcut()
    &&& c.auto_archive_confidence == 80
    &&& c.user_profile@.len() == 0
    &&& c.theme@.len() == 0
}

impl Default for AppConfig {
    fn default() -> (r: AppConfig)
        ensures
            default_config_is(r),
    {
        AppConfig::defaults()
    }
}

impl AppConfig {
    /// The settings a fresh installation starts with.
    pub fn defaults() -> (r: AppConfig)
        ensures
            default_config_is(r),
    {
        let base: [char; 25] = ['h', 't', 't', 'p', 's', ':', '/', '/', 'a', 'p', 'i', '.', 'o', 'p', 'e', 'n', 'a', 'i', '.', 'c', 'o', 'm', '/', 'v', '1'];
        let model: [char; 11] = ['g', 'p', 't', '-', '4', 'o', '-', 'm', 'i', 'n', 'i'];
        let cap: [char; 5] = ['A', 'l', 't', '+', 'A'];
        let main: [char; 15] = ['A', 'l', 't', '+', 'S', 'h', 'i', 'f', 't', '+', 'S', 'p', 'a', 'c', 'e'];
        let empty: [char; 0] = [];
        assert(base@ == default_api_base());
        assert(model@ == default_model());
        assert(cap@ == default_capture_shortcut());
        assert(main@ == default_main_shortcut());
        AppConfig {
            api_base_url: crate::text::from_chars(&base),
            api_key: crate::text::from_chars(&empty),
            model_name: crate::text::from_chars(&model),
            capture_shortcut: crate::text::from_chars(&cap),
            main_window_shortcut: crate::text::from_chars(&main),
            auto_archive_confidence: 80,
            user_profile: crate::text::from_chars(&empty),
            theme: crate::text::from_chars(&empty),
        }
    }
}


/// What a todo row says.
pub struct TodoRowView {
    pub id: Seq<char>,
    pub matter_id: Seq<char>,
    pub log_id: Option<Seq<char>>,
    pub content: Seq<char>,
    pub due_time: Option<Seq<char>>,
    pub reminder_time: Option<Seq<char>>,
    pub is_reminder_sent: bool,
    pub status: Seq<char>,
    pub is_focused: bool,
    pub created_at: Seq<char>,
    pub completed_at: Option<Seq<char>>,
    pub matter_title: Option<Seq<char>>,
}

impl View for TodoItem {
    type V = TodoRowView;

    open spec fn view(&self) -> TodoRowView {
        TodoRowView {
            id: self.id@,
            matter_id: self.matter_id@,
            log_id: opt_seq(self.log_id),
            content: self.content@,
            due_time: opt_seq(self.due_time),
            reminder_time: opt_seq(self.reminder_time),
            is_reminder_sent: self.is_reminder_sent,
            status: self.status@,
            is_focused: self.is_focused,
            created_at: self.created_at@,
            completed_at: opt_seq(self.completed_at),
            matter_title: opt_seq(self.matter_title),
        }
    }
}

/// The views of a sequence of todos.
pub open spec fn todo_views(v: Seq<TodoItem>) -> Seq<TodoRowView> {
    v.map_values(|t: TodoItem| t@)
}


/// What an inbox entry says of its log.
pub struct InboxHead {
    pub id: Seq<char>,
    pub matter_id: Option<Seq<char>>,
    pub matter_title: Option<Seq<char>>,
    pub raw_content: Seq<char>,
    pub source_app: Seq<char>,
    pub source_window_title: Seq<char>,
    pub created_at: Seq<char>,
}

impl InboxLogItem {
    /// What the entry says of its log.
    pub open spec fn head(&self) -> InboxHead {
        InboxHead {
            id: self.id@,
            matter_id: opt_seq(self.matter_id),
            matter_title: opt_seq(self.matter_title),
            raw_content: self.raw_content@,
            source_app: self.source_app@,
            source_window_title: self.source_window_title@,
            created_at: self.created_at@,
        }
    }
}

} // verus!
