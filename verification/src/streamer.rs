//! Capturing a command's output: the bytes collected from a stream, and the
//! text they become once ANSI escape sequences are removed.
use vstd::prelude::*;

use vstd::utf8::{decode_utf8, valid_utf8};

verus! {

/// The bytes that remain of `b` once `strip_ansi_escapes` has removed its
/// ANSI escape sequences.
pub uninterp spec fn ansi_stripped(b: Seq<u8>) -> Seq<u8>;

/// The text of the error that `String::from_utf8` reports for `b`.
pub uninterp spec fn utf8_error_text(b: Seq<u8>) -> Seq<char>;

/// A character that the terminal parser prints as it is: a line feed, or
/// neither a C0 nor a C1 control character.
pub open spec fn plain_char(c: char) -> bool {
    c == '\n' || (' ' <= c && !('\u{80}' <= c && c <= '\u{9f}'))
}

/// Valid UTF-8 whose characters are all plain: no escape sequence can start
/// in it.
pub open spec fn plain_text(b: Seq<u8>) -> bool {
    valid_utf8(b) && forall|i: int| 0 <= i < decode_utf8(b).len() ==> plain_char(#[trigger] decode_utf8(b)[i])
}

/// `strip_ansi_escapes::strip`: the bytes without ANSI escape sequences.
/// Stripping into memory does not fail; the result is named `ansi_stripped`.
/// Its writer receives only whole characters (invalid input bytes come out
/// as U+FFFD) and line feeds, so the result is valid UTF-8. Text without
/// an escape character or other control characters stays in the parser's
/// ground state, which prints each character, so it comes out unchanged.
#[verifier::external_body]
fn strip_ansi(b: &Vec<u8>) -> (r: Vec<u8>)
    ensures
        r@ == ansi_stripped(b@),
        valid_utf8(r@),
        plain_text(b@) ==> r@ == b@,
{
    strip_ansi_escapes::strip(b)
}

/// `String::from_utf8`: the text the bytes encode, when they are valid
/// UTF-8; otherwise the error's display text (named `utf8_error_text`).
#[verifier::external_body]
fn string_from_utf8(b: Vec<u8>) -> (r: Result<String, String>)
    ensures
        match r {
            Ok(s) => valid_utf8(b@) && s@ == decode_utf8(b@),
            Err(e) => !valid_utf8(b@) && e@ == utf8_error_text(b@),
        },
{
    match String::from_utf8(b) {
        Ok(s) => Ok(s),
        Err(e) => Err(format!("{}", e)),
    }
}

/// The output captured from one stream.
pub struct OutputStream {
    buffer: Vec<u8>,
}

/// The text of captured output `b`, or the error message.
pub open spec fn spec_output(b: Seq<u8>) -> Result<Seq<char>, Seq<char>> {
    let s = ansi_stripped(b);
    if valid_utf8(s) {
        Ok(decode_utf8(s))
    } else {
        Err("Failed to convert output to string: "@ + utf8_error_text(s))
    }
}

impl View for OutputStream {
    type V = Seq<u8>;

    closed spec fn view(&self) -> Seq<u8> {
        self.buffer@
    }
}

impl OutputStream {
    /// Nothing captured yet.
    pub fn new() -> (r: OutputStream)
        ensures
            r@ == Seq::<u8>::empty(),
    {
        OutputStream { buffer: Vec::new() }
    }

    /// Records a chunk read from the stream.
    pub fn record(&mut self, chunk: &[u8])
        ensures
            final(self)@ == old(self)@ + chunk@,
    {
        let mut i: usize = 0;
        while i < chunk.len()
            invariant
                i <= chunk@.len(),
                self.buffer@ == old(self)@ + chunk@.take(i as int),
            decreases chunk.len() - i,
        {
            self.buffer.push(chunk[i]);
            assert(chunk@.take(i + 1) =~= chunk@.take(i as int).push(chunk@[i as int]));
            i = i + 1;
        }
        assert(chunk@.take(chunk@.len() as int) =~= chunk@);
    }

    /// The captured output as text, with ANSI escape codes removed.
    pub fn into_output(self) -> (r: Result<String, String>)
        ensures
            r is Ok,
            plain_text(self@) ==> (r matches Ok(s) && s@ == decode_utf8(self@)),
            match r {
                Ok(s) => spec_output(self@) == Ok::<_, Seq<char>>(s@),
                Err(e) => spec_output(self@) == Err::<Seq<char>, _>(e@),
            },
    {
        let stripped = strip_ansi(&self.buffer);
        match string_from_utf8(stripped) {
            Ok(s) => Ok(s),
            Err(e) => {
                let mut m = String::from_str("Failed to convert output to string: ");
                m.append(e.as_str());
                Err(m)
            },
        }
    }
}

/// The result of a finished command: its standard output and error as
/// text, and whether it succeeded; standard output is converted first, so
/// its error is the one reported when both fail.
pub fn finish_streams(stdout: OutputStream, stderr: OutputStream, success: bool) -> (r: Result<(String, String, bool), String>)
    ensures
        match (spec_output(stdout@), spec_output(stderr@)) {
            (Err(e), _) => r matches Err(m) && m@ == e,
            (Ok(_), Err(e)) => r matches Err(m) && m@ == e,
            (Ok(a), Ok(b)) => r matches Ok(t) && t.0@ == a && t.1@ == b && t.2 == success,
        },
{
    let out = match stdout.into_output() {
        Ok(s) => s,
        Err(e) => return Err(e),
    };
    let err = match stderr.into_output() {
        Ok(s) => s,
        Err(e) => return Err(e),
    };
    Ok((out, err, success))
}

/// A command whose output is being streamed.
#[verifier::external_type_specification]
#[verifier::external_body]
pub struct ExChild(tokio::process::Child);

/// A stream processor for a running command's output.
pub struct CommandStreamer {
    pub child: tokio::process::Child,
}

impl CommandStreamer {
    /// Wraps a running command.
    pub fn new(child: tokio::process::Child) -> (r: CommandStreamer)
        ensures
            r.child == child,
    {
        CommandStreamer { child }
    }
}

} // verus!
