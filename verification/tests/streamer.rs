use forge::streamer::{finish_streams, OutputStream};

fn captured(chunks: &[&[u8]]) -> OutputStream {
    let mut s = OutputStream::new();
    for c in chunks {
        s.record(c);
    }
    s
}

#[test]
fn chunks_are_joined_and_escapes_removed() {
    let s = captured(&[b"\x1b[31mre", b"d\x1b[0m text"]);
    assert_eq!(s.into_output(), Ok("red text".to_string()));
}

#[test]
fn nothing_captured_is_empty_text() {
    assert_eq!(OutputStream::new().into_output(), Ok(String::new()));
}

#[test]
fn invalid_bytes_become_replacement_characters() {
    let s = captured(&[b"ok \xff"]);
    assert_eq!(s.into_output(), Ok("ok \u{FFFD}".to_string()));
}

#[test]
fn control_characters_other_than_line_feed_are_dropped() {
    let s = captured(&[b"a\tb\r\n"]);
    assert_eq!(s.into_output(), Ok("ab\n".to_string()));
}

#[test]
fn finished_streams_give_both_texts() {
    let r = finish_streams(captured(&[b"out"]), captured(&[b"\x1b[1merr\x1b[0m"]), false);
    assert_eq!(r, Ok(("out".to_string(), "err".to_string(), false)));
    let r = finish_streams(captured(&[]), captured(&[b"x"]), true);
    assert_eq!(r, Ok((String::new(), "x".to_string(), true)));
}

#[test]
fn plain_text_is_kept_as_it_is() {
    let text = "héllo wörld 日本\nsecond line\n";
    let s = captured(&[text.as_bytes()]);
    assert_eq!(s.into_output(), Ok(text.to_string()));
}
