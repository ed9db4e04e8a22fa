use cursor::client::CppFate;
use cursor::messages::{to_signed, CursorPosition, FileContext};
use cursor::provider::{
    to_line_index, Anchor, Bias, BufferVersion, CursorCompletionProvider, Refresh,
    Suggestion, ENABLE_CACHING, ENABLE_FATE_TRACKING,
};
use cursor::stream::LineRange;

fn anchor(offset: usize) -> Anchor {
    Anchor { replica_id: 1, number: 7, offset, bias: Bias::Left, buffer_id: Some(9) }
}

fn version(n: u32) -> BufferVersion {
    BufferVersion { changes: vec![(0, 3), (1, n)] }
}

fn file() -> FileContext {
    FileContext {
        path: Some("/work/main.rs".to_string()),
        workspace_root: Some("/work".to_string()),
        contents: "fn main() {\n}\n".to_string(),
        cursor_row: 1,
        cursor_column: 4,
        language: Some("Rust".to_string()),
        last_row: 2,
    }
}

/// Starts a refresh for a buffer at an offset.
fn ask(provider: &mut CursorCompletionProvider, buffer: u64, offset: usize) -> Option<Refresh> {
    provider.refresh(buffer, anchor(offset), &version(1), file(), "workspace".to_string(), 5)
}

fn started() -> (CursorCompletionProvider, Refresh) {
    let mut provider = CursorCompletionProvider::new();
    let refresh = ask(&mut provider, 3, 10).unwrap();
    (provider, refresh)
}

/// A provider to which a completion came, for buffer 3 and the anchor at 10.
fn completed(text: &str, range: Option<LineRange>) -> CursorCompletionProvider {
    let (mut provider, refresh) = started();
    let completion = (text.to_string(), Some("binding".to_string()), range);
    assert!(provider.complete_refresh(refresh.ticket, completion, version(1)));
    provider
}

fn at_cursor(provider: &CursorCompletionProvider) -> Option<String> {
    match provider.suggest(3, anchor(10)) {
        Suggestion::AtCursor { text } => Some(text),
        Suggestion::Nothing => None,
        Suggestion::OverLines { .. } => panic!("not at the cursor"),
    }
}

fn shows_nothing(provider: &CursorCompletionProvider) -> bool {
    matches!(provider.suggest(3, anchor(10)), Suggestion::Nothing)
}

#[test]
fn request_tells_about_the_file() {
    let request =
        CursorCompletionProvider::build_request(file(), "workspace".to_string(), 1234).unwrap();
    assert_eq!(request.workspace_id.as_deref(), Some("workspace"));
    assert_eq!(request.client_time, Some(1234));
    assert_eq!(request.time_at_request_send, 1234);
    assert_eq!(request.time_since_request_start, 0);
    let current = request.current_file.unwrap();
    assert_eq!(current.relative_workspace_path, "/work/main.rs");
    assert_eq!(current.workspace_root_path, "/work");
    assert_eq!(current.contents, "fn main() {\n}\n");
    assert_eq!(current.cursor_position, Some(CursorPosition { line: 1, column: 4 }));
    assert_eq!(current.language_id, "Rust");
    assert_eq!(current.total_number_of_lines, 3);
    assert_eq!(current.contents_start_at_line, 0);
    assert!(!current.rely_on_filesync);
}

#[test]
fn file_without_path_or_language() {
    let bare = FileContext { path: None, workspace_root: None, language: None, ..file() };
    let request = CursorCompletionProvider::build_request(bare, String::new(), 0).unwrap();
    let current = request.current_file.unwrap();
    assert_eq!(current.relative_workspace_path, "untitled");
    assert_eq!(current.workspace_root_path, "");
    assert_eq!(current.language_id, "plaintext");
}

#[test]
fn rows_become_signed() {
    assert_eq!(to_signed(0), 0);
    assert_eq!(to_signed(0x7fff_ffff), i32::MAX);
    assert_eq!(to_signed(0x8000_0000), i32::MIN);
    assert_eq!(to_signed(u32::MAX), -1);
    let last = FileContext { last_row: u32::MAX, ..file() };
    let request = CursorCompletionProvider::build_request(last, String::new(), 0).unwrap();
    assert_eq!(request.current_file.unwrap().total_number_of_lines, 0);
}

#[test]
fn lines_are_counted_from_zero() {
    for n in [1, 2, 77, i32::MAX, 0, -1, -5, i32::MIN + 1] {
        assert_eq!(to_line_index(n), (n - 1) as u32);
    }
    assert_eq!(to_line_index(1), 0);
    assert_eq!(to_line_index(0), u32::MAX);
}

#[test]
fn new_provider_knows_nothing() {
    let provider = CursorCompletionProvider::new();
    assert!(!provider.is_refreshing());
    assert!(shows_nothing(&provider));
    assert_eq!(provider.range_to_replace(), None);
}

#[test]
fn refresh_asks_for_a_completion() {
    let mut provider = CursorCompletionProvider::new();
    assert_eq!(provider.refreshes(), 0);
    let refresh = ask(&mut provider, 3, 10).unwrap();
    assert_eq!(refresh.ticket, 1);
    assert_eq!(provider.refreshes(), 1);
    assert_eq!(refresh.request_id.len(), 36);
    assert_eq!(refresh.request.client_time, Some(5));
    assert!(provider.is_refreshing());
    assert!(shows_nothing(&provider));
}

#[test]
fn completion_is_shown_where_it_was_asked_for() {
    let provider = completed("let x = 1;", None);
    assert!(!provider.is_refreshing());
    assert_eq!(at_cursor(&provider).as_deref(), Some("let x = 1;"));
    assert!(provider.is_in_place(3, anchor(10)));
    assert!(!provider.is_in_place(4, anchor(10)));
    assert!(!provider.is_in_place(3, anchor(11)));
    assert!(matches!(provider.suggest(4, anchor(10)), Suggestion::Nothing));
    assert!(matches!(provider.suggest(3, anchor(11)), Suggestion::Nothing));
    let other_side = Anchor { bias: Bias::Right, ..anchor(10) };
    assert!(matches!(provider.suggest(3, other_side), Suggestion::Nothing));
}

#[test]
fn first_line_is_shown_at_the_cursor() {
    assert_eq!(at_cursor(&completed("one  \ntwo", None)).as_deref(), Some("one"));
    assert_eq!(at_cursor(&completed("\n  one\n  two\n", None)).as_deref(), Some("\n  one\n  two"));
    assert_eq!(at_cursor(&completed("  one", None)).as_deref(), Some("  one"));
}

#[test]
fn blank_completion_is_not_shown() {
    for text in ["", "  ", "\n\n", " \t", "   \n x".trim_end_matches('x')] {
        assert_eq!(at_cursor(&completed(text, None)), None);
    }
}

#[test]
fn completion_with_lines_is_shown_over_them() {
    let range = LineRange { start_line_number: 3, end_line_number_inclusive: 5 };
    let provider = completed("a\nb \n", Some(range));
    assert_eq!(provider.range_to_replace(), Some(range));
    match provider.suggest(3, anchor(10)) {
        Suggestion::OverLines { text, start_line, end_line } => {
            assert_eq!(text, "a\nb \n");
            assert_eq!((start_line, end_line), (2, 4));
        }
        other => panic!("{:?}", other),
    }
    assert!(matches!(provider.suggest(3, anchor(0)), Suggestion::Nothing));
}

#[test]
fn suggestion_is_laid_over_the_buffer() {
    let shown = completed("x + y);", None).suggest(3, anchor(10));
    let edits = shown.edits("x)", 20).unwrap();
    assert_eq!(edits.len(), 2);
    assert_eq!((edits[0].offset, edits[0].text.as_str()), (21, " + y"));
    assert_eq!((edits[1].offset, edits[1].text.as_str()), (22, ";"));
    let range = LineRange { start_line_number: 1, end_line_number_inclusive: 1 };
    let over = completed("ab\n", Some(range)).suggest(3, anchor(10)).edits("a\n", 0).unwrap();
    assert_eq!(over.len(), 1);
    assert_eq!((over[0].offset, over[0].text.as_str()), (1, "b"));
    assert!(Suggestion::Nothing.edits("x", 0).is_none());
}

#[test]
fn next_refresh_forgets_the_completion() {
    let mut provider = completed("let x = 1;", None);
    assert!(ask(&mut provider, 3, 10).is_some());
    assert!(provider.is_refreshing());
    assert!(shows_nothing(&provider));
}

#[test]
fn accepted_and_discarded_suggestions_are_forgotten() {
    let mut provider = completed("let x = 1;", None);
    assert!(provider.accept().is_none());
    assert!(!provider.is_refreshing());
    assert!(shows_nothing(&provider));
    let mut provider = completed("let x = 1;", None);
    assert!(provider.discard().is_none());
    assert!(shows_nothing(&provider));
    let mut provider = completed("let x = 1;", None);
    provider.reset_completion_cache();
    assert!(shows_nothing(&provider));
}

#[test]
fn fate_is_reported_where_it_is_tracked() {
    let (mut provider, refresh) = started();
    let expected = refresh.request_id;
    let completion = ("x".to_string(), None, None);
    assert!(provider.complete_refresh(refresh.ticket, completion, version(1)));
    let report = provider.finish(true, CppFate::Accept).unwrap();
    assert_eq!(report.request_id, expected);
    assert_eq!(report.fate, CppFate::Accept);
    assert_eq!(report.extension, "rs");
    assert!(shows_nothing(&provider));
    assert!(provider.finish(true, CppFate::Reject).is_none());
    let (mut waiting, _) = started();
    assert!(waiting.finish(true, CppFate::Reject).is_none());
    assert!(!waiting.is_refreshing());
}

#[test]
fn caching_skips_a_refresh_of_an_unchanged_buffer() {
    let mut provider = CursorCompletionProvider::new();
    assert!(provider.prepare_refresh(true, &version(1)));
    let ticket = ask(&mut provider, 3, 10).unwrap().ticket;
    assert!(provider.store_completion(true, ticket, ("x".to_string(), None, None), version(2)));
    assert!(!provider.prepare_refresh(true, &version(2)));
    assert_eq!(at_cursor(&provider).as_deref(), Some("x"));
    let longer = BufferVersion { changes: vec![(0, 3), (1, 2), (2, 0)] };
    assert!(provider.prepare_refresh(true, &longer));
    assert!(shows_nothing(&provider));
}

#[test]
fn changed_buffer_is_refreshed() {
    let mut provider = CursorCompletionProvider::new();
    let ticket = ask(&mut provider, 3, 10).unwrap().ticket;
    assert!(provider.store_completion(true, ticket, ("x".to_string(), None, None), version(1)));
    assert!(provider.prepare_refresh(true, &version(2)));
    assert!(shows_nothing(&provider));
    assert!(!provider.is_refreshing());
}

#[test]
fn without_caching_every_refresh_is_due() {
    let mut provider = completed("x", None);
    assert!(provider.prepare_refresh(false, &version(1)));
    assert!(shows_nothing(&provider));
}

#[test]
fn provider_presents_itself() {
    assert_eq!(CursorCompletionProvider::name(), "cursor");
    assert_eq!(CursorCompletionProvider::display_name(), "Cursor");
    assert!(CursorCompletionProvider::show_completions_in_menu());
    assert!(CursorCompletionProvider::show_tab_accept_marker());
    assert!(!CursorCompletionProvider::supports_jump_to_edit());
    assert!(CursorCompletionProvider::new().is_enabled(3, anchor(0)));
    assert!(!ENABLE_CACHING);
    assert!(!ENABLE_FATE_TRACKING);
}

#[test]
fn cycling_changes_nothing() {
    let mut provider = completed("x", None);
    provider.cycle(3, anchor(10));
    assert_eq!(at_cursor(&provider).as_deref(), Some("x"));
}

#[test]
fn overtaken_completion_is_dropped() {
    let completion = |text: &str| (text.to_string(), None, None);
    let mut provider = CursorCompletionProvider::new();
    let earlier = ask(&mut provider, 3, 10).unwrap().ticket;
    let later = ask(&mut provider, 4, 20).unwrap().ticket;
    assert_ne!(earlier, later);
    assert!(!provider.complete_refresh(earlier, completion("old"), version(1)));
    assert!(provider.is_refreshing());
    assert!(shows_nothing(&provider));
    assert!(provider.complete_refresh(later, completion("new"), version(1)));
    assert!(!provider.complete_refresh(earlier, completion("old"), version(1)));
    assert!(!provider.complete_refresh(later, completion("again"), version(1)));
    assert!(shows_nothing(&provider));
    match provider.suggest(4, anchor(20)) {
        Suggestion::AtCursor { text } => assert_eq!(text, "new"),
        other => panic!("{:?}", other),
    }
}

#[test]
fn completion_after_forgetting_is_dropped() {
    let completion = || ("x".to_string(), None, None);
    let (mut provider, refresh) = started();
    assert!(provider.discard().is_none());
    assert!(!provider.complete_refresh(refresh.ticket, completion(), version(1)));
    assert!(shows_nothing(&provider));
    let again = ask(&mut provider, 3, 10).unwrap();
    assert_ne!(again.ticket, refresh.ticket);
    assert!(!provider.complete_refresh(refresh.ticket, completion(), version(1)));
    assert!(provider.complete_refresh(again.ticket, completion(), version(1)));
}
