//! What a request for a completion tells the service about the file at hand.
use crate::text::option_text;
use vstd::prelude::*;

verus! {

/// Where the cursor stands, counted from 0.
#[derive(Clone, Copy, Debug, PartialEq, Eq, Structural)]
pub struct CursorPosition {
    pub line: i32,
    pub column: i32,
}

/// The file at hand. The fields of the wire message that are not listed here stay empty.
#[derive(Debug)]
pub struct CurrentFileInfo {
    pub relative_workspace_path: String,
    pub contents: String,
    pub cursor_position: Option<CursorPosition>,
    pub language_id: String,
    pub total_number_of_lines: i32,
    pub contents_start_at_line: i32,
    pub rely_on_filesync: bool,
    pub workspace_root_path: String,
}

/// A request for a completion. Times are in milliseconds. The fields of the wire message
/// that are not listed here stay empty.
#[derive(Debug)]
pub struct StreamCppRequest {
    pub current_file: Option<CurrentFileInfo>,
    pub workspace_id: Option<String>,
    pub client_time: Option<u128>,
    pub time_since_request_start: u128,
    pub time_at_request_send: u128,
}

/// What the editor knows of the file at hand: its path and the root of its workspace
/// where it has them, its text, the row and the column of the cursor, its language where
/// it is known, and its last row, all counted from 0.
#[derive(Debug)]
pub struct FileContext {
    pub path: Option<String>,
    pub workspace_root: Option<String>,
    pub contents: String,
    pub cursor_row: u32,
    pub cursor_column: u32,
    pub language: Option<String>,
    pub last_row: u32,
}

/// What a request tells about the file at hand.
#[verifier::ext_equal]
pub struct FileView {
    pub relative_workspace_path: Seq<char>,
    pub contents: Seq<char>,
    pub cursor_position: Option<CursorPosition>,
    pub language_id: Seq<char>,
    pub total_number_of_lines: int,
    pub contents_start_at_line: int,
    pub rely_on_filesync: bool,
    pub workspace_root_path: Seq<char>,
}

/// What a request says.
#[verifier::ext_equal]
pub struct RequestView {
    pub current_file: Option<FileView>,
    pub workspace_id: Option<Seq<char>>,
    pub client_time: Option<u128>,
    pub time_since_request_start: u128,
    pub time_at_request_send: u128,
}

impl View for CurrentFileInfo {
    type V = FileView;

    open spec fn view(&self) -> FileView {
        FileView {
            relative_workspace_path: self.relative_workspace_path@,
            contents: self.contents@,
            cursor_position: self.cursor_position,
            language_id: self.language_id@,
            total_number_of_lines: self.total_number_of_lines as int,
            contents_start_at_line: self.contents_start_at_line as int,
            rely_on_filesync: self.rely_on_filesync,
            workspace_root_path: self.workspace_root_path@,
        }
    }
}

impl View for StreamCppRequest {
    type V = RequestView;

    open spec fn view(&self) -> RequestView {
        RequestView {
            current_file: match self.current_file {
                Some(file) => Some(file@),
                None => None,
            },
            workspace_id: option_text(self.workspace_id),
            client_time: self.client_time,
            time_since_request_start: self.time_since_request_start,
            time_at_request_send: self.time_at_request_send,
        }
    }
}

/// The signed number with the 32 bits of `v`.
pub open spec fn signed(v: u32) -> int {
    if v <= i32::MAX {
        v as int
    } else {
        v - 0x1_0000_0000
    }
}

/// An optional text, or what stands for it where there is none.
pub open spec fn text_or(s: Option<String>, otherwise: Seq<char>) -> Seq<char> {
    match s {
        Some(s) => s@,
        None => otherwise,
    }
}

/// The request for a completion in a file: its path or `untitled`, its whole text from
/// line 0, its language or `plaintext`, and the time in both places.
pub open spec fn completion_request(
    file: FileContext,
    workspace_id: Seq<char>,
    now: u128,
) -> RequestView {
    RequestView {
        current_file: Some(
            FileView {
                relative_workspace_path: text_or(file.path, "untitled"@),
                contents: file.contents@,
                cursor_position: Some(
                    CursorPosition {
                        line: signed(file.cursor_row) as i32,
                        column: signed(file.cursor_column) as i32,
                    },
                ),
                language_id: text_or(file.language, "plaintext"@),
                total_number_of_lines: signed(file.last_row) + 1,
                contents_start_at_line: 0,
                rely_on_filesync: false,
                workspace_root_path: text_or(file.workspace_root, Seq::empty()),
            },
        ),
        workspace_id: Some(workspace_id),
        client_time: Some(now),
        time_since_request_start: 0,
        time_at_request_send: now,
    }
}

/// A number that has a place among the signed ones stays as it is; any other is taken
/// around once, and lands below zero.
pub proof fn law_signed(v: u32)
    ensures
        v <= 0x7fff_ffff ==> signed(v) == v,
        v > 0x7fff_ffff ==> signed(v) == v - 0x1_0000_0000,
        -0x8000_0000 <= signed(v) <= 0x7fff_ffff,
{
}

/// A request says of a file what the editor knows of it: the cursor's own row as its line and
/// its own column as its column, one line more than the last row, counted from 0, all of the
/// text from its first line on, and a path, a root and a language that are the file's where it
/// has them, and fixed where it has not.
pub proof fn law_completion_request(file: FileContext, workspace_id: Seq<char>, now: u128)
    ensures
        ({
            let request = completion_request(file, workspace_id, now);
            &&& request.workspace_id == Some(workspace_id)
            &&& request.client_time == Some(now)
            &&& request.time_at_request_send == now
            &&& request.time_since_request_start == 0
            &&& request.current_file matches Some(f) && {
                &&& f.contents == file.contents@
                &&& f.contents_start_at_line == 0
                &&& !f.rely_on_filesync
                &&& f.cursor_position matches Some(p) && {
                    &&& file.cursor_row <= 0x7fff_ffff ==> p.line == file.cursor_row
                    &&& file.cursor_column <= 0x7fff_ffff ==> p.column == file.cursor_column
                    &&& file.cursor_row > 0x7fff_ffff ==> p.line == file.cursor_row
                        - 0x1_0000_0000
                    &&& file.cursor_column > 0x7fff_ffff ==> p.column == file.cursor_column
                        - 0x1_0000_0000
                }
                &&& file.last_row <= 0x7fff_ffff ==> f.total_number_of_lines == file.last_row + 1
                &&& file.last_row > 0x7fff_ffff ==> f.total_number_of_lines == file.last_row + 1
                    - 0x1_0000_0000
                &&& file.path matches Some(path) ==> f.relative_workspace_path == path@
                &&& file.path is None ==> f.relative_workspace_path == "untitled"@
                &&& file.language matches Some(language) ==> f.language_id == language@
                &&& file.language is None ==> f.language_id == "plaintext"@
                &&& file.workspace_root matches Some(root) ==> f.workspace_root_path == root@
                &&& file.workspace_root is None ==> f.workspace_root_path.len() == 0
            }
        }),
{
}

/// What a request says is what its fields hold.
pub proof fn law_request_fields(request: StreamCppRequest, file: CurrentFileInfo)
    ensures
        file@.relative_workspace_path == file.relative_workspace_path@,
        file@.contents == file.contents@,
        file@.cursor_position == file.cursor_position,
        file@.language_id == file.language_id@,
        file@.total_number_of_lines == file.total_number_of_lines,
        file@.contents_start_at_line == file.contents_start_at_line,
        file@.rely_on_filesync == file.rely_on_filesync,
        file@.workspace_root_path == file.workspace_root_path@,
        request@.current_file is Some <==> request.current_file is Some,
        request.current_file matches Some(f) ==> request@.current_file == Some(f@),
        request@.workspace_id is Some <==> request.workspace_id is Some,
        request.workspace_id matches Some(id) ==> request@.workspace_id == Some(id@),
        request@.client_time == request.client_time,
        request@.time_since_request_start == request.time_since_request_start,
        request@.time_at_request_send == request.time_at_request_send,
{
}

/// The signed number with the 32 bits of `v`.
pub fn to_signed(v: u32) -> (result: i32)
    ensures
        result == signed(v),
        v <= 0x7fff_ffff ==> result == v,
        v > 0x7fff_ffff ==> result == v - 0x1_0000_0000,
{
    if v <= 0x7fff_ffff {
        v as i32
    } else {
        -1 - (u32::MAX - v) as i32
    }
}

} // verus!
