use forge::chat_request::ChatRequest;
use forge::permission::PermissionError;
use forge::walker::Walker;
use std::path::PathBuf;

#[test]
fn permission_error_carries_its_message() {
    let e: PermissionError = PermissionError::from("Operation not permitted: rm".to_string());
    assert_eq!(e.message(), "Operation not permitted: rm");
    assert!(matches!(e, PermissionError::OperationNotPermitted(ref m) if m.ends_with("rm")));
}

#[test]
fn chat_request_starts_without_files() {
    let r = ChatRequest::new("hello".to_string(), "c-7".to_string());
    assert_eq!(r.content, "hello");
    assert_eq!(r.conversation_id, "c-7");
    assert!(r.files.is_empty());
}

#[test]
fn walker_settings() {
    let w = Walker::new(PathBuf::from("/tmp"));
    assert_eq!(w.max_depth, None);
    let w = w.with_max_depth(2);
    assert_eq!(w.max_depth, Some(2));
    assert_eq!(w.cwd, PathBuf::from("/tmp"));
}
