//! The state of a suggestion, from the refresh that asks for it to its fate.
use crate::client::{CppFate, CursorClient, RecordCppFateRequest};
use crate::diff::{
    applied, completion_from_diff, grapheme_clusters, insertions_from, insertions_view,
    is_subsequence, joined, laid_over, none_empty, prediction, Insertion,
};
use crate::keys::{is_random_uuid, random_uuid};
use crate::messages::{
    completion_request, to_signed, CurrentFileInfo, CursorPosition, FileContext, StreamCppRequest,
};
use crate::stream::{completion_view, CompletionView, LineRange};
use crate::text::{
    is_blank, is_blank_text, is_white_space, law_cut_line, law_trim_end, law_trim_to_line,
    leading_newline, option_text, trim_end, trim_to_end_of_line_unless_leading_newline,
    trimmed_end, trimmed_to_line,
};
use vstd::prelude::*;
use vstd::utf8::*;

verus! {

/// Whether a refresh is skipped while the buffer has not changed.
pub const ENABLE_CACHING: bool = false;

/// Whether the service is told what became of a suggestion.
pub const ENABLE_FATE_TRACKING: bool = false;

/// The side of an insertion on which an anchor stays.
#[derive(Clone, Copy, Debug, PartialEq, Eq, Structural)]
pub enum Bias {
    Left,
    Right,
}

/// A place in a buffer that moves with the text: the insertion it belongs to, by replica
/// and number, an offset into that insertion, a side, and the buffer.
#[derive(Clone, Copy, Debug, PartialEq, Eq, Structural)]
pub struct Anchor {
    pub replica_id: u16,
    pub number: u32,
    pub offset: usize,
    pub bias: Bias,
    pub buffer_id: Option<u64>,
}

/// The state of a buffer: for each replica, the number of its last change.
#[derive(Debug)]
pub struct BufferVersion {
    pub changes: Vec<(u16, u32)>,
}

/// A refresh that is started: its ticket, which no other refresh of the provider has, and
/// the id and the request to be sent.
#[derive(Debug)]
pub struct Refresh {
    pub ticket: u64,
    pub request_id: String,
    pub request: StreamCppRequest,
}

/// A refresh that was started: its ticket, the request that went out, and the buffer and
/// the place that a completion was asked for.
#[derive(Debug)]
struct PendingRefresh {
    ticket: u64,
    request_id: String,
    buffer_id: u64,
    position: Anchor,
}

/// What a provider holds of the suggestion at hand, and how many refreshes it has started.
/// A refresh stays where it is when its completion has come, until everything is forgotten.
#[derive(Debug)]
pub struct CursorCompletionProvider {
    buffer_id: Option<u64>,
    completion_text: Option<String>,
    pending_refresh: Option<PendingRefresh>,
    completion_position: Option<Anchor>,
    current_binding_id: Option<String>,
    current_request_id: Option<String>,
    last_buffer_version: Option<BufferVersion>,
    range_to_replace: Option<LineRange>,
    refreshes: u64,
}

/// What is known of a refresh that was started: its ticket, the request that went out, and
/// the buffer and the place that a completion was asked for.
#[verifier::ext_equal]
pub struct PendingView {
    pub ticket: nat,
    pub request_id: Seq<char>,
    pub buffer_id: u64,
    pub position: Anchor,
}

/// What a provider knows: the completion that came, the buffer and the place it was asked
/// for, the request that asked for it, the refresh that was started, the state of the
/// buffer at the last completion, and how many refreshes were ever started.
#[verifier::ext_equal]
pub struct ProviderView {
    pub buffer_id: Option<u64>,
    pub completion_text: Option<Seq<char>>,
    pub pending_refresh: Option<PendingView>,
    pub completion_position: Option<Anchor>,
    pub current_binding_id: Option<Seq<char>>,
    pub current_request_id: Option<Seq<char>>,
    pub last_buffer_version: Option<Seq<(u16, u32)>>,
    pub range_to_replace: Option<LineRange>,
    pub refreshes: nat,
}

/// What to show.
#[derive(Debug)]
pub enum Suggestion {
    /// Nothing.
    Nothing,
    /// The text, laid over whole lines; the lines are counted from 0, both ends meant.
    OverLines { text: String, start_line: u32, end_line: u32 },
    /// The text, laid over what stands between the cursor and the end of its line.
    AtCursor { text: String },
}

/// What is shown.
#[verifier::ext_equal]
pub enum SuggestionView {
    Nothing,
    OverLines { text: Seq<char>, start_line: u32, end_line: u32 },
    AtCursor { text: Seq<char> },
}

impl View for Suggestion {
    type V = SuggestionView;

    open spec fn view(&self) -> SuggestionView {
        match self {
            Suggestion::Nothing => SuggestionView::Nothing,
            Suggestion::OverLines { text, start_line, end_line } => SuggestionView::OverLines {
                text: text@,
                start_line: *start_line,
                end_line: *end_line,
            },
            Suggestion::AtCursor { text } => SuggestionView::AtCursor { text: text@ },
        }
    }
}

impl SuggestionView {
    /// The text that is shown.
    pub open spec fn text(self) -> Option<Seq<char>> {
        match self {
            SuggestionView::Nothing => None,
            SuggestionView::OverLines { text, .. } => Some(text),
            SuggestionView::AtCursor { text } => Some(text),
        }
    }
}

impl Suggestion {
    /// The insertions that show the suggestion, laid over what stands in the buffer where
    /// it is shown: `buffer_text`, which starts at byte `position`. `None` where nothing
    /// is shown.
    pub fn edits(&self, buffer_text: &str, position: usize) -> (edits: Option<Vec<Insertion>>)
        requires
            position + encode_utf8(buffer_text@).len() <= usize::MAX,
        ensures
            *self is Nothing <==> edits is None,
            *self matches Suggestion::OverLines { text, .. } ==> self@.text() == Some(text@),
            *self matches Suggestion::AtCursor { text } ==> self@.text() == Some(text@),
            match self@.text() {
                Some(text) => {
                    &&& edits matches Some(edits)
                    &&& insertions_view(edits@) == prediction(buffer_text@, text, position as int)
                    &&& insertions_view(edits@) == insertions_from(
                        grapheme_clusters(text),
                        grapheme_clusters(buffer_text@),
                        0,
                        0,
                        position as int,
                    )
                    &&& joined(grapheme_clusters(buffer_text@)) == buffer_text@
                    &&& joined(grapheme_clusters(text)) == text
                    &&& none_empty(grapheme_clusters(buffer_text@))
                    &&& none_empty(grapheme_clusters(text))
                    &&& forall|m: int|
                        0 <= m < edits@.len() ==> (#[trigger] edits@[m]).text@.len() > 0 && position
                            <= edits@[m].offset <= position + encode_utf8(buffer_text@).len()
                    &&& forall|m: int, n: int|
                        0 <= m < n < edits@.len() ==> (#[trigger] edits@[m]).offset < (
                        #[trigger] edits@[n]).offset
                    &&& applied(
                        encode_utf8(buffer_text@),
                        position as int,
                        insertions_view(edits@),
                    ) == encode_utf8(
                        laid_over(grapheme_clusters(text), grapheme_clusters(buffer_text@), 0, 0),
                    )
                    &&& is_subsequence(grapheme_clusters(buffer_text@), grapheme_clusters(text))
                        ==> applied(
                        encode_utf8(buffer_text@),
                        position as int,
                        insertions_view(edits@),
                    ) == encode_utf8(text)
                },
                None => edits is None,
            },
    {
        let text: &String = match self {
            Suggestion::Nothing => {
                return None;
            },
            Suggestion::OverLines { text, .. } => text,
            Suggestion::AtCursor { text } => text,
        };
        Some(completion_from_diff(buffer_text, text.as_str(), position))
    }
}

impl View for CursorCompletionProvider {
    type V = ProviderView;

    closed spec fn view(&self) -> ProviderView {
        ProviderView {
            buffer_id: self.buffer_id,
            completion_text: option_text(self.completion_text),
            pending_refresh: match self.pending_refresh {
                Some(pending) => Some(
                    PendingView {
                        ticket: pending.ticket as nat,
                        request_id: pending.request_id@,
                        buffer_id: pending.buffer_id,
                        position: pending.position,
                    },
                ),
                None => None,
            },
            completion_position: self.completion_position,
            current_binding_id: option_text(self.current_binding_id),
            current_request_id: option_text(self.current_request_id),
            last_buffer_version: match self.last_buffer_version {
                Some(version) => Some(version.changes@),
                None => None,
            },
            range_to_replace: self.range_to_replace,
            refreshes: self.refreshes as nat,
        }
    }
}

/// A provider that knows nothing and has started nothing.
pub open spec fn idle() -> ProviderView {
    ProviderView {
        buffer_id: None,
        completion_text: None,
        pending_refresh: None,
        completion_position: None,
        current_binding_id: None,
        current_request_id: None,
        last_buffer_version: None,
        range_to_replace: None,
        refreshes: 0,
    }
}

impl ProviderView {
    /// The refresh that was started is the last that was, and a completion that came is
    /// its own: it comes with its buffer, its place and its request. Without a completion
    /// there is nothing but the refresh.
    pub open spec fn wf(self) -> bool {
        &&& self.pending_refresh matches Some(pending) ==> pending.ticket == self.refreshes
        &&& match self.completion_text {
            Some(_) => {
                &&& self.pending_refresh matches Some(pending)
                &&& self.buffer_id == Some(pending.buffer_id)
                &&& self.completion_position == Some(pending.position)
                &&& self.current_request_id == Some(pending.request_id)
            },
            None => self == (ProviderView {
                pending_refresh: self.pending_refresh,
                ..self.forgotten()
            }),
        }
    }

    /// After everything is forgotten but how many refreshes were started.
    pub open spec fn forgotten(self) -> ProviderView {
        ProviderView { refreshes: self.refreshes, ..idle() }
    }

    /// Whether a completion was asked for and has not come.
    pub open spec fn refreshing(self) -> bool {
        self.pending_refresh is Some && self.completion_text is None
    }

    /// Whether the completion that a refresh asked for is awaited.
    pub open spec fn awaits(self, ticket: nat) -> bool {
        self.refreshing() && self.pending_refresh->0.ticket == ticket
    }

    /// Whether the buffer is in the state of the last completion.
    pub open spec fn unchanged(self, version: Seq<(u16, u32)>) -> bool {
        self.last_buffer_version == Some(version)
    }

    /// Whether a refresh is due. Without caching it always is; with it, only where the
    /// buffer has changed or there is no completion.
    pub open spec fn refresh_due(self, caching: bool, version: Seq<(u16, u32)>) -> bool {
        !caching || !self.unchanged(version) || self.completion_text is None
    }

    /// What is left when a refresh was looked into: with caching, everything while the
    /// buffer has not changed; else nothing.
    pub open spec fn looked_into(self, caching: bool, version: Seq<(u16, u32)>) -> ProviderView {
        if caching && self.unchanged(version) {
            self
        } else {
            self.forgotten()
        }
    }

    /// After a refresh was started under the next ticket. One that was started before is
    /// overtaken.
    pub open spec fn started(
        self,
        request_id: Seq<char>,
        buffer_id: u64,
        position: Anchor,
    ) -> ProviderView {
        let ticket = self.refreshes + 1;
        ProviderView {
            pending_refresh: Some(PendingView { ticket, request_id, buffer_id, position }),
            refreshes: ticket,
            ..self
        }
    }

    /// After a completion came for a refresh. It counts only where it is awaited, and then
    /// for the request, the buffer and the place of the refresh.
    pub open spec fn answered(
        self,
        caching: bool,
        ticket: nat,
        completion: CompletionView,
        version: Seq<(u16, u32)>,
    ) -> ProviderView {
        if self.awaits(ticket) {
            ProviderView {
                buffer_id: Some(self.pending_refresh->0.buffer_id),
                completion_text: Some(completion.text),
                completion_position: Some(self.pending_refresh->0.position),
                current_binding_id: completion.binding_id,
                current_request_id: Some(self.pending_refresh->0.request_id),
                last_buffer_version: if caching {
                    Some(version)
                } else {
                    self.last_buffer_version
                },
                range_to_replace: completion.range_to_replace,
                ..self
            }
        } else {
            self
        }
    }

    /// After a step.
    pub open spec fn after(self, step: Step) -> ProviderView {
        match step {
            Step::Look { caching, version } => self.looked_into(caching, version),
            Step::Refresh { caching, version, request_id, buffer_id, position } => {
                let looked_into = self.looked_into(caching, version);
                if self.refresh_due(caching, version) {
                    looked_into.started(request_id, buffer_id, position)
                } else {
                    looked_into
                }
            },
            Step::Answer { caching, ticket, completion, version } => self.answered(
                caching,
                ticket,
                completion,
                version,
            ),
            Step::Forget => self.forgotten(),
        }
    }

    /// After some steps.
    pub open spec fn after_all(self, steps: Seq<Step>) -> ProviderView
        decreases steps.len(),
    {
        if steps.len() == 0 {
            self
        } else {
            self.after_all(steps.drop_last()).after(steps.last())
        }
    }

    /// Whether there is a completion that was asked for in this buffer at this place.
    pub open spec fn in_place(self, buffer_id: u64, position: Anchor) -> bool {
        &&& self.buffer_id == Some(buffer_id)
        &&& self.completion_position == Some(position)
        &&& self.completion_text is Some
    }

    /// What is shown in a buffer at a place.
    pub open spec fn suggestion(self, buffer_id: u64, position: Anchor) -> SuggestionView {
        if !self.in_place(buffer_id, position) {
            SuggestionView::Nothing
        } else {
            match (self.completion_text, self.range_to_replace) {
                (None, _) => SuggestionView::Nothing,
                (Some(text), Some(range)) => SuggestionView::OverLines {
                    text,
                    start_line: line_index(range.start_line_number),
                    end_line: line_index(range.end_line_number_inclusive),
                },
                (Some(text), None) => {
                    let text = trimmed_end(trimmed_to_line(text));
                    if is_blank_text(text) {
                        SuggestionView::Nothing
                    } else {
                        SuggestionView::AtCursor { text }
                    }
                },
            }
        }
    }
}

/// What can happen to a provider: a refresh is looked into or started, a completion comes,
/// or everything is forgotten.
#[verifier::ext_equal]
pub enum Step {
    Look { caching: bool, version: Seq<(u16, u32)> },
    Refresh {
        caching: bool,
        version: Seq<(u16, u32)>,
        request_id: Seq<char>,
        buffer_id: u64,
        position: Anchor,
    },
    Answer {
        caching: bool,
        ticket: nat,
        completion: CompletionView,
        version: Seq<(u16, u32)>,
    },
    Forget,
}

/// The 32 bits, without sign, of the line before line `n`: lines counted from 1 become
/// lines counted from 0.
pub open spec fn line_index(n: i32) -> u32 {
    if n >= 1 {
        (n - 1) as u32
    } else {
        (n - 1 + 0x1_0000_0000) as u32
    }
}

/// A line counted from 1, counted from 0.
pub fn to_line_index(n: i32) -> (result: u32)
    requires
        n != i32::MIN,
    ensures
        result == line_index(n),
        result == (n - 1) % 0x1_0000_0000,
{
    if n >= 1 {
        (n - 1) as u32
    } else {
        u32::MAX - (-n) as u32
    }
}

/// Whether two states of a buffer are the same.
fn same_version(a: &BufferVersion, b: &BufferVersion) -> (result: bool)
    ensures
        result == (a.changes@ == b.changes@),
{
    if a.changes.len() != b.changes.len() {
        return false;
    }
    let mut i: usize = 0;
    while i < a.changes.len()
        invariant
            i <= a.changes@.len(),
            a.changes@.len() == b.changes@.len(),
            forall|j: int| 0 <= j < i ==> a.changes@[j] == b.changes@[j],
        decreases a.changes@.len() - i,
    {
        if a.changes[i].0 != b.changes[i].0 || a.changes[i].1 != b.changes[i].1 {
            return false;
        }
        i = i + 1;
    }
    assert(a.changes@ =~= b.changes@);
    true
}

impl CursorCompletionProvider {
    /// A provider that knows nothing and has started nothing.
    pub fn new() -> (provider: CursorCompletionProvider)
        ensures
            provider@ == idle(),
            provider@.wf(),
            provider@ == (ProviderView {
                buffer_id: None,
                completion_text: None,
                pending_refresh: None,
                completion_position: None,
                current_binding_id: None,
                current_request_id: None,
                last_buffer_version: None,
                range_to_replace: None,
                refreshes: 0,
            }),
    {
        CursorCompletionProvider {
            buffer_id: None,
            completion_text: None,
            pending_refresh: None,
            completion_position: None,
            current_binding_id: None,
            current_request_id: None,
            last_buffer_version: None,
            range_to_replace: None,
            refreshes: 0,
        }
    }

    /// The request for a completion in a file.
    pub fn build_request(file: FileContext, workspace_id: String, now: u128) -> (request: Option<
        StreamCppRequest,
    >)
        requires
            file.last_row != i32::MAX,
        ensures
            request matches Some(request) && request@ == completion_request(
                file,
                workspace_id@,
                now,
            ),
            request matches Some(request) && {
                &&& request.workspace_id matches Some(id) && id@ == workspace_id@
                &&& request.client_time == Some(now)
                &&& request.time_at_request_send == now
                &&& request.time_since_request_start == 0
                &&& request.current_file matches Some(f) && {
                    &&& f.contents@ == file.contents@
                    &&& f.contents_start_at_line == 0
                    &&& !f.rely_on_filesync
                    &&& f.cursor_position matches Some(p) && {
                        &&& file.cursor_row <= 0x7fff_ffff ==> p.line == file.cursor_row
                        &&& file.cursor_column <= 0x7fff_ffff ==> p.column == file.cursor_column
                        &&& file.cursor_row > 0x7fff_ffff ==> p.line == file.cursor_row
                            - 0x1_0000_0000
                        &&& file.cursor_column > 0x7fff_ffff ==> p.column == file.cursor_column
                            - 0x1_0000_0000
                    }
                    &&& file.last_row <= 0x7fff_ffff ==> f.total_number_of_lines == file.last_row
                        + 1
                    &&& file.last_row > 0x7fff_ffff ==> f.total_number_of_lines == file.last_row + 1
                        - 0x1_0000_0000
                    &&& f.relative_workspace_path@ == (match file.path {
                        Some(path) => path@,
                        None => "untitled"@,
                    })
                    &&& f.language_id@ == (match file.language {
                        Some(language) => language@,
                        None => "plaintext"@,
                    })
                    &&& f.workspace_root_path@ == (match file.workspace_root {
                        Some(root) => root@,
                        None => Seq::empty(),
                    })
                }
            },
    {
        let relative_workspace_path = match file.path {
            Some(path) => path,
            None => "untitled".to_owned(),
        };
        let workspace_root_path = match file.workspace_root {
            Some(root) => root,
            None => String::new(),
        };
        let language_id = match file.language {
            Some(language) => language,
            None => "plaintext".to_owned(),
        };
        let total_number_of_lines: i32 = to_signed(file.last_row) + 1;
        let current_file = CurrentFileInfo {
            relative_workspace_path,
            contents: file.contents,
            cursor_position: Some(
                CursorPosition {
                    line: to_signed(file.cursor_row),
                    column: to_signed(file.cursor_column),
                },
            ),
            language_id,
            total_number_of_lines,
            contents_start_at_line: 0,
            rely_on_filesync: false,
            workspace_root_path,
        };
        Some(
            StreamCppRequest {
                current_file: Some(current_file),
                workspace_id: Some(workspace_id),
                client_time: Some(now),
                time_since_request_start: 0,
                time_at_request_send: now,
            },
        )
    }

    /// Forgets everything but how many refreshes were started.
    pub fn reset_completion_cache(&mut self)
        ensures
            final(self)@ == old(self)@.forgotten(),
            final(self)@.wf(),
            final(self)@ == (ProviderView {
                buffer_id: None,
                completion_text: None,
                pending_refresh: None,
                completion_position: None,
                current_binding_id: None,
                current_request_id: None,
                last_buffer_version: None,
                range_to_replace: None,
                refreshes: old(self)@.refreshes,
            }),
    {
        self.pending_refresh = None;
        self.completion_text = None;
        self.completion_position = None;
        self.buffer_id = None;
        self.current_binding_id = None;
        self.current_request_id = None;
        self.last_buffer_version = None;
        self.range_to_replace = None;
    }

    /// Looks into a refresh: forgets what no longer holds, and says whether the refresh
    /// is due.
    pub fn prepare_refresh(&mut self, caching: bool, buffer_version: &BufferVersion) -> (due: bool)
        requires
            old(self)@.wf(),
        ensures
            final(self)@.wf(),
            due == old(self)@.refresh_due(caching, buffer_version.changes@),
            final(self)@ == old(self)@.looked_into(caching, buffer_version.changes@),
            !caching ==> due,
            caching ==> (due <==> !(old(self)@.last_buffer_version == Some(buffer_version.changes@)
                && old(self)@.completion_text is Some)),
            !due ==> final(self)@ == old(self)@,
            due ==> final(self)@.completion_text is None && final(self)@.refreshes
                == old(self)@.refreshes,
    {
        if caching {
            let unchanged: bool = match &self.last_buffer_version {
                Some(version) => same_version(version, buffer_version),
                None => false,
            };
            if !unchanged {
                self.reset_completion_cache();
            } else if self.completion_text.is_some() {
                return false;
            }
        } else {
            self.reset_completion_cache();
        }
        true
    }

    /// Starts a refresh for a buffer and a place: its ticket, and the id and the request to
    /// be sent, or `None` where none is due. What an earlier refresh asked for is no longer
    /// awaited.
    pub fn refresh(
        &mut self,
        buffer_id: u64,
        cursor_position: Anchor,
        buffer_version: &BufferVersion,
        file: FileContext,
        workspace_id: String,
        now: u128,
    ) -> (started: Option<Refresh>)
        requires
            old(self)@.wf(),
            old(self)@.refreshes < u64::MAX,
            file.last_row != i32::MAX,
        ensures
            final(self)@.wf(),
            started is Some <==> old(self)@.refresh_due(ENABLE_CACHING, buffer_version.changes@),
            !ENABLE_CACHING ==> started is Some,
            started is None ==> final(self)@ == old(self)@ && old(self)@.completion_text is Some
                && old(self)@.last_buffer_version == Some(buffer_version.changes@),
            started matches Some(refresh) ==> final(self)@ == (ProviderView {
                buffer_id: None,
                completion_text: None,
                pending_refresh: Some(
                    PendingView {
                        ticket: refresh.ticket as nat,
                        request_id: refresh.request_id@,
                        buffer_id,
                        position: cursor_position,
                    },
                ),
                completion_position: None,
                current_binding_id: None,
                current_request_id: None,
                last_buffer_version: None,
                range_to_replace: None,
                refreshes: old(self)@.refreshes + 1,
            }),
            match started {
                Some(refresh) => {
                    &&& is_random_uuid(refresh.request_id@)
                    &&& refresh.request@ == completion_request(file, workspace_id@, now)
                    &&& final(self)@ == old(self)@.after(
                        Step::Refresh {
                            caching: ENABLE_CACHING,
                            version: buffer_version.changes@,
                            request_id: refresh.request_id@,
                            buffer_id,
                            position: cursor_position,
                        },
                    )
                    &&& refresh.ticket == old(self)@.refreshes + 1
                    &&& final(self)@.awaits(refresh.ticket as nat)
                },
                None => final(self)@ == old(self)@.looked_into(
                    ENABLE_CACHING,
                    buffer_version.changes@,
                ),
            },
    {
        if !self.prepare_refresh(ENABLE_CACHING, buffer_version) {
            return None;
        }
        match Self::build_request(file, workspace_id, now) {
            Some(request) => {
                let request_id = random_uuid();
                let ticket: u64 = self.refreshes + 1;
                self.refreshes = ticket;
                self.pending_refresh = Some(
                    PendingRefresh {
                        ticket,
                        request_id: request_id.clone(),
                        buffer_id,
                        position: cursor_position,
                    },
                );
                Some(Refresh { ticket, request_id, request })
            },
            None => None,
        }
    }

    /// Keeps a completion that came for a refresh, and says whether it did: one that is
    /// not awaited is dropped.
    pub fn store_completion(
        &mut self,
        caching: bool,
        ticket: u64,
        completion: (String, Option<String>, Option<LineRange>),
        buffer_version: BufferVersion,
    ) -> (stored: bool)
        requires
            old(self)@.wf(),
        ensures
            final(self)@.wf(),
            stored == old(self)@.awaits(ticket as nat),
            final(self)@ == old(self)@.answered(
                caching,
                ticket as nat,
                completion_view(completion),
                buffer_version.changes@,
            ),
            stored <==> (old(self)@.pending_refresh matches Some(pending) && pending.ticket
                == ticket) && old(self)@.completion_text is None,
            !stored ==> final(self)@ == old(self)@,
            stored ==> {
                let pending = old(self)@.pending_refresh->0;
                final(self)@ == (ProviderView {
                    buffer_id: Some(pending.buffer_id),
                    completion_text: Some(completion.0@),
                    pending_refresh: Some(pending),
                    completion_position: Some(pending.position),
                    current_binding_id: match completion.1 {
                        Some(binding) => Some(binding@),
                        None => None,
                    },
                    current_request_id: Some(pending.request_id),
                    last_buffer_version: if caching {
                        Some(buffer_version.changes@)
                    } else {
                        old(self)@.last_buffer_version
                    },
                    range_to_replace: completion.2,
                    refreshes: old(self)@.refreshes,
                })
            },
    {
        let (request_id, buffer_id, position): (String, u64, Anchor) = match &self.pending_refresh {
            Some(pending) => {
                if self.completion_text.is_some() || pending.ticket != ticket {
                    return false;
                }
                (pending.request_id.clone(), pending.buffer_id, pending.position)
            },
            None => {
                return false;
            },
        };
        self.completion_text = Some(completion.0);
        self.completion_position = Some(position);
        self.buffer_id = Some(buffer_id);
        self.current_binding_id = completion.1;
        self.current_request_id = Some(request_id);
        self.range_to_replace = completion.2;
        if caching {
            self.last_buffer_version = Some(buffer_version);
        }
        true
    }

    /// Ends a refresh with the completion that came, and says whether it was awaited.
    pub fn complete_refresh(
        &mut self,
        ticket: u64,
        completion: (String, Option<String>, Option<LineRange>),
        buffer_version: BufferVersion,
    ) -> (stored: bool)
        requires
            old(self)@.wf(),
        ensures
            final(self)@.wf(),
            stored == old(self)@.awaits(ticket as nat),
            final(self)@ == old(self)@.answered(
                ENABLE_CACHING,
                ticket as nat,
                completion_view(completion),
                buffer_version.changes@,
            ),
            stored <==> (old(self)@.pending_refresh matches Some(pending) && pending.ticket
                == ticket) && old(self)@.completion_text is None,
            !stored ==> final(self)@ == old(self)@,
            stored ==> {
                let pending = old(self)@.pending_refresh->0;
                final(self)@ == (ProviderView {
                    buffer_id: Some(pending.buffer_id),
                    completion_text: Some(completion.0@),
                    pending_refresh: Some(pending),
                    completion_position: Some(pending.position),
                    current_binding_id: match completion.1 {
                        Some(binding) => Some(binding@),
                        None => None,
                    },
                    current_request_id: Some(pending.request_id),
                    last_buffer_version: if ENABLE_CACHING {
                        Some(buffer_version.changes@)
                    } else {
                        old(self)@.last_buffer_version
                    },
                    range_to_replace: completion.2,
                    refreshes: old(self)@.refreshes,
                })
            },
    {
        self.store_completion(ENABLE_CACHING, ticket, completion, buffer_version)
    }

    /// How many refreshes were started.
    pub fn refreshes(&self) -> (count: u64)
        ensures
            count == self@.refreshes,
    {
        self.refreshes
    }

    /// Whether a completion was asked for and has not come.
    pub fn is_refreshing(&self) -> (result: bool)
        ensures
            result == self@.refreshing(),
            result == (self@.pending_refresh is Some && self@.completion_text is None),
    {
        self.pending_refresh.is_some() && self.completion_text.is_none()
    }

    /// Forgets everything; where fates are tracked, hands out the report on the suggestion
    /// that there was.
    pub fn finish(&mut self, tracking: bool, fate: CppFate) -> (report: Option<
        RecordCppFateRequest,
    >)
        ensures
            final(self)@ == old(self)@.forgotten(),
            final(self)@.wf(),
            final(self)@ == (ProviderView {
                buffer_id: None,
                completion_text: None,
                pending_refresh: None,
                completion_position: None,
                current_binding_id: None,
                current_request_id: None,
                last_buffer_version: None,
                range_to_replace: None,
                refreshes: old(self)@.refreshes,
            }),
            match report {
                Some(report) => {
                    &&& tracking
                    &&& old(self)@.current_request_id == Some(report.request_id@)
                    &&& report.fate == fate
                    &&& report.extension@ == "rs"@
                },
                None => !tracking || old(self)@.current_request_id is None,
            },
    {
        let request_id = self.current_request_id.take();
        self.reset_completion_cache();
        if !tracking {
            return None;
        }
        match request_id {
            Some(request_id) => Some(CursorClient::record_cpp_fate_message(request_id, fate)),
            None => None,
        }
    }

    /// Takes note that the suggestion was accepted.
    pub fn accept(&mut self) -> (report: Option<RecordCppFateRequest>)
        ensures
            final(self)@ == old(self)@.forgotten(),
            final(self)@.wf(),
            final(self)@ == (ProviderView {
                buffer_id: None,
                completion_text: None,
                pending_refresh: None,
                completion_position: None,
                current_binding_id: None,
                current_request_id: None,
                last_buffer_version: None,
                range_to_replace: None,
                refreshes: old(self)@.refreshes,
            }),
            match report {
                Some(report) => {
                    &&& ENABLE_FATE_TRACKING
                    &&& old(self)@.current_request_id == Some(report.request_id@)
                    &&& report.fate == CppFate::Accept
                    &&& report.extension@ == "rs"@
                },
                None => !ENABLE_FATE_TRACKING || old(self)@.current_request_id is None,
            },
    {
        self.finish(ENABLE_FATE_TRACKING, CppFate::Accept)
    }

    /// Takes note that the suggestion was discarded.
    pub fn discard(&mut self) -> (report: Option<RecordCppFateRequest>)
        ensures
            final(self)@ == old(self)@.forgotten(),
            final(self)@.wf(),
            final(self)@ == (ProviderView {
                buffer_id: None,
                completion_text: None,
                pending_refresh: None,
                completion_position: None,
                current_binding_id: None,
                current_request_id: None,
                last_buffer_version: None,
                range_to_replace: None,
                refreshes: old(self)@.refreshes,
            }),
            match report {
                Some(report) => {
                    &&& ENABLE_FATE_TRACKING
                    &&& old(self)@.current_request_id == Some(report.request_id@)
                    &&& report.fate == CppFate::Reject
                    &&& report.extension@ == "rs"@
                },
                None => !ENABLE_FATE_TRACKING || old(self)@.current_request_id is None,
            },
    {
        self.finish(ENABLE_FATE_TRACKING, CppFate::Reject)
    }

    /// The lines that the completion at hand replaces, counted from 1.
    pub fn range_to_replace(&self) -> (range: Option<LineRange>)
        ensures
            range == self@.range_to_replace,
    {
        self.range_to_replace
    }

    /// Whether there is a completion that was asked for in this buffer at this place.
    pub fn is_in_place(&self, buffer_id: u64, cursor_position: Anchor) -> (result: bool)
        ensures
            result == self@.in_place(buffer_id, cursor_position),
            result == (self@.buffer_id == Some(buffer_id) && self@.completion_position == Some(
                cursor_position,
            ) && self@.completion_text is Some),
    {
        match self.buffer_id {
            Some(id) => {
                if id != buffer_id {
                    return false;
                }
            },
            None => {
                return false;
            },
        }
        match self.completion_position {
            Some(position) => {
                if cursor_position != position {
                    return false;
                }
            },
            None => {
                return false;
            },
        }
        self.completion_text.is_some()
    }

    /// What to show in a buffer at a place.
    pub fn suggest(&self, buffer_id: u64, cursor_position: Anchor) -> (result: Suggestion)
        requires
            self@.in_place(buffer_id, cursor_position) ==> (self@.range_to_replace matches Some(
                range,
            ) ==> range.start_line_number != i32::MIN && range.end_line_number_inclusive
                != i32::MIN),
        ensures
            result@ == self@.suggestion(buffer_id, cursor_position),
            !(self@.buffer_id == Some(buffer_id) && self@.completion_position == Some(
                cursor_position,
            ) && self@.completion_text is Some) ==> result is Nothing,
            self@.buffer_id == Some(buffer_id) && self@.completion_position == Some(
                cursor_position,
            ) ==> (self@.completion_text matches Some(completion) ==> match self@.range_to_replace {
                Some(range) => {
                    &&& result matches Suggestion::OverLines { text, start_line, end_line }
                    &&& text@ == completion
                    &&& start_line == (range.start_line_number - 1) % 0x1_0000_0000
                    &&& end_line == (range.end_line_number_inclusive - 1) % 0x1_0000_0000
                },
                None => match result {
                    Suggestion::AtCursor { text } => text@ == trimmed_end(
                        trimmed_to_line(completion),
                    ) && text@.len() > 0,
                    Suggestion::Nothing => trimmed_end(trimmed_to_line(completion)).len() == 0,
                    Suggestion::OverLines { .. } => false,
                },
            }),
    {
        proof {
            if self@.completion_text is Some {
                let line = trimmed_to_line(self@.completion_text->0);
                law_trim_end(line);
                let shown = trimmed_end(line);
                if shown.len() > 0 {
                    assert(!is_white_space(shown[shown.len() - 1]));
                }
            }
        }
        if !self.is_in_place(buffer_id, cursor_position) {
            return Suggestion::Nothing;
        }
        let completion_text: &String = match &self.completion_text {
            Some(text) => text,
            None => {
                return Suggestion::Nothing;
            },
        };
        if let Some(range) = self.range_to_replace {
            return Suggestion::OverLines {
                text: completion_text.clone(),
                start_line: to_line_index(range.start_line_number),
                end_line: to_line_index(range.end_line_number_inclusive),
            };
        }
        let text: &str = trim_to_end_of_line_unless_leading_newline(completion_text.as_str());
        let text: &str = trim_end(text);
        if is_blank(text) {
            Suggestion::Nothing
        } else {
            Suggestion::AtCursor { text: text.to_owned() }
        }
    }

    /// The name under which the provider is known.
    pub fn name() -> (name: &'static str)
        ensures
            name@ == "cursor"@,
    {
        "cursor"
    }

    /// The name under which the provider is shown.
    pub fn display_name() -> (name: &'static str)
        ensures
            name@ == "Cursor"@,
    {
        "Cursor"
    }

    /// Completions are shown in the menu too.
    pub fn show_completions_in_menu() -> (result: bool)
        ensures
            result,
    {
        true
    }

    /// The mark for the key that accepts is shown.
    pub fn show_tab_accept_marker() -> (result: bool)
        ensures
            result,
    {
        true
    }

    /// Suggestions away from the cursor are not made.
    pub fn supports_jump_to_edit() -> (result: bool)
        ensures
            !result,
    {
        false
    }

    /// There is one suggestion at most, so there is nothing to go on to.
    pub fn cycle(&mut self, _buffer_id: u64, _cursor_position: Anchor)
        ensures
            final(self)@ == old(self)@,
    {
    }

    /// The provider works in every buffer and at every place.
    pub fn is_enabled(&self, _buffer_id: u64, _cursor_position: Anchor) -> (result: bool)
        ensures
            result,
    {
        true
    }
}

/// A provider that has forgotten everything knows nothing but how many refreshes it has
/// started, and a new one has started none.
pub proof fn law_nothing_known(provider: ProviderView)
    ensures
        provider.forgotten() == (ProviderView {
            buffer_id: None,
            completion_text: None,
            pending_refresh: None,
            completion_position: None,
            current_binding_id: None,
            current_request_id: None,
            last_buffer_version: None,
            range_to_replace: None,
            refreshes: provider.refreshes,
        }),
        idle().refreshes == 0,
        idle() == idle().forgotten(),
{
}

/// Without caching a refresh is due in every state and for every buffer, and everything is
/// forgotten for it. With caching it is due but where there is a completion and the buffer
/// is in the state that the completion was kept with; and everything is forgotten but where
/// the buffer is in that state.
pub proof fn law_refresh_due(provider: ProviderView, version: Seq<(u16, u32)>)
    ensures
        provider.refresh_due(false, version),
        provider.looked_into(false, version) == provider.forgotten(),
        provider.refresh_due(true, version) <==> !(provider.last_buffer_version == Some(version)
            && provider.completion_text is Some),
        provider.last_buffer_version == Some(version) ==> provider.looked_into(true, version)
            == provider,
        provider.last_buffer_version != Some(version) ==> provider.looked_into(true, version)
            == provider.forgotten(),
{
}

/// Starting a refresh takes the next ticket, keeps what was asked for, and changes nothing
/// else.
pub proof fn law_started(
    provider: ProviderView,
    request_id: Seq<char>,
    buffer_id: u64,
    position: Anchor,
)
    ensures
        ({
            let started = provider.started(request_id, buffer_id, position);
            &&& started.refreshes == provider.refreshes + 1
            &&& started.pending_refresh == Some(
                PendingView { ticket: started.refreshes, request_id, buffer_id, position },
            )
            &&& started.completion_text == provider.completion_text
            &&& started.buffer_id == provider.buffer_id
            &&& started.completion_position == provider.completion_position
            &&& started.current_binding_id == provider.current_binding_id
            &&& started.current_request_id == provider.current_request_id
            &&& started.last_buffer_version == provider.last_buffer_version
            &&& started.range_to_replace == provider.range_to_replace
        }),
{
}

/// A completion is awaited exactly under the ticket of the refresh that was started, and
/// until it comes. One that is awaited is kept as it came, with the request, the buffer and
/// the place of the refresh; any other changes nothing.
pub proof fn law_answered(
    provider: ProviderView,
    caching: bool,
    ticket: nat,
    completion: CompletionView,
    version: Seq<(u16, u32)>,
)
    ensures
        provider.refreshing() <==> provider.pending_refresh is Some && provider.completion_text
            is None,
        provider.awaits(ticket) <==> provider.completion_text is None && (
        provider.pending_refresh matches Some(pending) && pending.ticket == ticket),
        !provider.awaits(ticket) ==> provider.answered(caching, ticket, completion, version)
            == provider,
        provider.awaits(ticket) ==> {
            let answered = provider.answered(caching, ticket, completion, version);
            let pending = provider.pending_refresh->0;
            &&& answered.completion_text == Some(completion.text)
            &&& answered.current_binding_id == completion.binding_id
            &&& answered.range_to_replace == completion.range_to_replace
            &&& answered.current_request_id == Some(pending.request_id)
            &&& answered.buffer_id == Some(pending.buffer_id)
            &&& answered.completion_position == Some(pending.position)
            &&& answered.pending_refresh == Some(pending)
            &&& answered.refreshes == provider.refreshes
            &&& caching ==> answered.last_buffer_version == Some(version)
            &&& !caching ==> answered.last_buffer_version == provider.last_buffer_version
        },
{
}

/// What is shown in a buffer at a place. Nothing is, where there is no completion for them.
/// A completion that names lines is shown over them, whole and as it came. Any other is shown
/// at the cursor: its first line, or all of it where it opens with a newline, without the
/// white space at its end; and nothing is shown exactly where nothing is left of it.
pub proof fn law_suggestion(provider: ProviderView, buffer_id: u64, position: Anchor)
    ensures
        ({
            let shown = provider.suggestion(buffer_id, position);
            if provider.buffer_id == Some(buffer_id) && provider.completion_position == Some(
                position,
            ) && provider.completion_text is Some {
                let completion = provider.completion_text->0;
                match provider.range_to_replace {
                    Some(range) => {
                        &&& shown matches SuggestionView::OverLines { text, start_line, end_line }
                        &&& text == completion
                        &&& range.start_line_number != i32::MIN ==> start_line == (
                        range.start_line_number - 1) % 0x1_0000_0000
                        &&& range.end_line_number_inclusive != i32::MIN ==> end_line == (
                        range.end_line_number_inclusive - 1) % 0x1_0000_0000
                    },
                    None => match shown {
                        SuggestionView::AtCursor { text } => {
                            &&& text.len() > 0
                            &&& text == trimmed_end(trimmed_to_line(completion))
                        },
                        SuggestionView::Nothing => trimmed_end(trimmed_to_line(completion)).len()
                            == 0,
                        SuggestionView::OverLines { .. } => false,
                    },
                }
            } else {
                shown is Nothing
            }
        }),
{
    if provider.completion_text is Some {
        let line = trimmed_to_line(provider.completion_text->0);
        law_trim_end(line);
        let text = trimmed_end(line);
        if text.len() > 0 {
            assert(!is_white_space(text[text.len() - 1]));
        }
    }
}

/// A completion that comes for a refresh and names no lines, and whose first line is `line`,
/// with something in it that is not white space, is shown at the cursor as that line without
/// the white space at its end, however it is indented and whatever lines follow.
pub proof fn law_first_line_shown(
    provider: ProviderView,
    caching: bool,
    ticket: nat,
    line: Seq<char>,
    rest: Seq<char>,
    binding_id: Option<Seq<char>>,
    version: Seq<(u16, u32)>,
)
    requires
        provider.awaits(ticket),
        forall|i: int| 0 <= i < line.len() ==> #[trigger] line[i] != '\n',
        exists|i: int| 0 <= i < line.len() && !is_white_space(#[trigger] line[i]),
    ensures
        ({
            let pending = provider.pending_refresh->0;
            let completion = CompletionView {
                text: line + seq!['\n'] + rest,
                binding_id,
                range_to_replace: None,
            };
            let shown = provider.answered(caching, ticket, completion, version).suggestion(
                pending.buffer_id,
                pending.position,
            );
            &&& shown matches SuggestionView::AtCursor { text }
            &&& 0 < text.len() <= line.len()
            &&& text == line.take(text.len() as int)
            &&& !is_white_space(text.last())
            &&& forall|i: int| text.len() <= i < line.len() ==> is_white_space(#[trigger] line[i])
        }),
{
    law_cut_line(line, rest);
    law_trim_end(line);
    let text = trimmed_end(line);
    let i = choose|i: int| 0 <= i < line.len() && !is_white_space(#[trigger] line[i]);
    assert(text.len() > 0) by {
        if text.len() == 0 {
            assert(is_white_space(line[i]));
        }
    }
    assert(!is_white_space(text[text.len() - 1]));
}

/// What is shown is what the fields of a suggestion hold.
pub proof fn law_suggestion_fields(suggestion: Suggestion)
    ensures
        suggestion is Nothing <==> suggestion@ is Nothing,
        suggestion is Nothing <==> suggestion@.text() is None,
        suggestion matches Suggestion::OverLines { text, start_line, end_line } ==> suggestion@ == (
        SuggestionView::OverLines { text: text@, start_line, end_line }) && suggestion@.text()
            == Some(text@),
        suggestion matches Suggestion::AtCursor { text } ==> suggestion@ == (
        SuggestionView::AtCursor { text: text@ }) && suggestion@.text() == Some(text@),
{
}

/// A provider that has forgotten everything is not refreshing and shows nothing.
pub proof fn law_forgotten(provider: ProviderView, buffer_id: u64, position: Anchor)
    ensures
        provider.forgotten().wf(),
        !provider.forgotten().refreshing(),
        provider.forgotten().suggestion(buffer_id, position) is Nothing,
        idle() == idle().forgotten(),
{
}

/// What is shown belongs to the buffer and the place that the completion was asked for:
/// with the cursor elsewhere, or in another buffer, nothing is shown.
pub proof fn law_suggestion_in_place(provider: ProviderView, buffer_id: u64, position: Anchor)
    ensures
        provider.suggestion(buffer_id, position) !is Nothing ==> provider.buffer_id == Some(
            buffer_id,
        ) && provider.completion_position == Some(position),
{
}

/// While a completion is awaited, nothing is shown, and a suggestion is shown only by a
/// provider that knows the request behind it.
pub proof fn law_refreshing(provider: ProviderView, buffer_id: u64, position: Anchor)
    requires
        provider.wf(),
    ensures
        provider.refreshing() ==> provider.suggestion(buffer_id, position) is Nothing,
        provider.suggestion(buffer_id, position) !is Nothing ==> provider.current_request_id is Some
            && provider.pending_refresh is Some,
{
}

/// A completion that comes leaves the refresh as it is, whatever refresh it came for, and
/// a completion that is kept is always that of the refresh started last: for its request,
/// in its buffer, at its place. It is kept once, and none is kept where everything was
/// forgotten.
pub proof fn law_one_refresh(
    provider: ProviderView,
    caching: bool,
    ticket: nat,
    completion: CompletionView,
    version: Seq<(u16, u32)>,
)
    requires
        provider.wf(),
    ensures
        ({
            let answered = provider.answered(caching, ticket, completion, version);
            let forgotten = provider.forgotten();
            &&& answered.wf()
            &&& answered.pending_refresh == provider.pending_refresh
            &&& answered.completion_text is Some ==> {
                &&& provider.pending_refresh matches Some(pending)
                &&& answered.current_request_id == Some(pending.request_id)
                &&& answered.buffer_id == Some(pending.buffer_id)
                &&& answered.completion_position == Some(pending.position)
            }
            &&& answered.answered(caching, ticket, completion, version) == answered
            &&& forgotten.answered(caching, ticket, completion, version) == forgotten
        }),
{
}

/// Whatever happens to a provider, it stays well-formed, and its count of refreshes does
/// not fall. While no refresh is started, the one that was is there or forgotten.
pub proof fn law_steps(provider: ProviderView, steps: Seq<Step>)
    requires
        provider.wf(),
    ensures
        provider.after_all(steps).wf(),
        provider.after_all(steps).refreshes >= provider.refreshes,
        (forall|i: int| 0 <= i < steps.len() ==> !(#[trigger] steps[i] is Refresh)) ==> (
        provider.after_all(steps).pending_refresh == provider.pending_refresh
            || provider.after_all(steps).pending_refresh is None),
    decreases steps.len(),
{
    if steps.len() > 0 {
        let front = steps.drop_last();
        law_steps(provider, front);
        if forall|i: int| 0 <= i < steps.len() ==> !(#[trigger] steps[i] is Refresh) {
            assert(!(steps[steps.len() - 1] is Refresh));
            assert forall|i: int| 0 <= i < front.len() implies !(
            #[trigger] front[i] is Refresh) by {
                assert(front[i] == steps[i]);
            }
        }
    }
}

/// A refresh that is due overtakes every one before it: whatever happens from then on, what
/// an earlier one asked for is never kept. There is one refresh at a time, and until
/// another is started, a completion that is kept is in the buffer and at the place of this
/// one.
pub proof fn law_overtaken(
    provider: ProviderView,
    earlier: nat,
    caching: bool,
    version: Seq<(u16, u32)>,
    request_id: Seq<char>,
    buffer_id: u64,
    position: Anchor,
    steps: Seq<Step>,
    answer_caching: bool,
    completion: CompletionView,
    answer_version: Seq<(u16, u32)>,
)
    requires
        provider.wf(),
        earlier <= provider.refreshes,
        provider.refresh_due(caching, version),
    ensures
        ({
            let started = provider.after(
                Step::Refresh { caching, version, request_id, buffer_id, position },
            );
            let ticket = provider.refreshes + 1;
            let later = started.after_all(steps);
            &&& started.pending_refresh == Some(
                PendingView { ticket, request_id, buffer_id, position },
            )
            &&& started.awaits(ticket)
            &&& !later.awaits(earlier)
            &&& later.answered(answer_caching, earlier, completion, answer_version) == later
            &&& (forall|i: int| 0 <= i < steps.len() ==> !(#[trigger] steps[i] is Refresh)) && (
            later.completion_text is Some) ==> later.buffer_id == Some(buffer_id)
                && later.completion_position == Some(position) && later.current_request_id == Some(
                request_id,
            )
        }),
{
    let started = provider.after(
        Step::Refresh { caching, version, request_id, buffer_id, position },
    );
    law_steps(started, steps);
}

/// A refresh that is due and comes to its end leaves the provider with what came: it no
/// longer awaits a completion, it knows the request and the binding, and it shows the
/// completion in its buffer at its place: over the lines to be replaced where the
/// completion names them, else at the cursor unless nothing is left of it there.
pub proof fn law_completion_shown(
    provider: ProviderView,
    caching: bool,
    version: Seq<(u16, u32)>,
    request_id: Seq<char>,
    buffer_id: u64,
    position: Anchor,
    completion: CompletionView,
    came: Seq<(u16, u32)>,
)
    requires
        provider.wf(),
        provider.refresh_due(caching, version),
    ensures
        ({
            let started = provider.after(
                Step::Refresh { caching, version, request_id, buffer_id, position },
            );
            let completed = started.answered(caching, started.refreshes, completion, came);
            let shown = completed.suggestion(buffer_id, position);
            let text = trimmed_end(trimmed_to_line(completion.text));
            &&& started == provider.forgotten().started(request_id, buffer_id, position)
            &&& started.wf() && started.refreshing()
            &&& completed.wf() && !completed.refreshing()
            &&& completed.current_request_id == Some(request_id)
            &&& completed.current_binding_id == completion.binding_id
            &&& match completion.range_to_replace {
                Some(range) => shown == (SuggestionView::OverLines {
                    text: completion.text,
                    start_line: line_index(range.start_line_number),
                    end_line: line_index(range.end_line_number_inclusive),
                }),
                None if text.len() > 0 => shown == (SuggestionView::AtCursor { text }),
                None => shown is Nothing,
            }
        }),
{
    let text = trimmed_end(trimmed_to_line(completion.text));
    law_trim_end(trimmed_to_line(completion.text));
    if text.len() > 0 {
        assert(!is_white_space(text[text.len() - 1]));
    }
}

/// With caching, a refresh after a completion is skipped, and forgets nothing, exactly
/// while the buffer stays as it was when the completion came; a buffer that has changed
/// has everything forgotten. Without caching no refresh is ever skipped.
pub proof fn law_caching(
    started: ProviderView,
    caching: bool,
    ticket: nat,
    completion: CompletionView,
    version: Seq<(u16, u32)>,
    later: Seq<(u16, u32)>,
)
    requires
        started.wf(),
        started.awaits(ticket),
    ensures
        ({
            let completed = started.answered(caching, ticket, completion, version);
            &&& completed.refresh_due(caching, later) <==> !(caching && later == version)
            &&& caching && later == version ==> completed.looked_into(caching, later) == completed
            &&& !(caching && later == version) ==> completed.looked_into(caching, later)
                == completed.forgotten()
        }),
{
}

/// What is shown at the cursor is a beginning of the completion, is not blank, does not
/// end in white space, and stays on one line unless the completion opens with a newline.
pub proof fn law_text_at_cursor(provider: ProviderView, buffer_id: u64, position: Anchor)
    requires
        provider.suggestion(buffer_id, position) is AtCursor,
    ensures
        provider.completion_text matches Some(completion) && {
            let text = provider.suggestion(buffer_id, position)->AtCursor_text;
            &&& text.is_prefix_of(completion)
            &&& !is_blank_text(text)
            &&& !is_white_space(text.last())
            &&& text.contains('\n') ==> leading_newline(completion)
        },
{
    let completion = provider.completion_text.unwrap();
    let line = trimmed_to_line(completion);
    let text = trimmed_end(line);
    law_trim_to_line(completion);
    law_trim_end(line);
    assert(text.is_prefix_of(completion)) by {
        assert(line.take(text.len() as int) =~= completion.take(text.len() as int));
    }
    if text.contains('\n') {
        let i = choose|i: int| 0 <= i < text.len() && text[i] == '\n';
        assert(line[i] == '\n');
        assert(line.contains('\n'));
    }
}

/// The lines that a completion replaces are shown one lower than the service counts them,
/// in 32 bits: the line before the first lands on the last number.
pub proof fn law_lines(n: i32)
    requires
        n != i32::MIN,
    ensures
        n >= 1 ==> line_index(n) + 1 == n,
        line_index(n) == (n - 1) % 0x1_0000_0000,
{
}

} // verus!
