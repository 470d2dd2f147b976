//! A text prompt with autocomplete suggestions: the edited line with its
//! cursor, the suggestion list, and how each key press changes them.
use vstd::prelude::*;
use vstd::utf8::{decode_utf8, encode_utf8, is_char_boundary};

use crate::style::{cyan, cyan_bold, styled};
use crate::text::{append_chars, chars_of, string_of, trim, trim_exec};

verus! {

/// The edited line and the cursor position in it, counted in characters.
pub struct InputCursor {
    pub value: Vec<char>,
    pub cursor: usize,
}

/// `v` with `c` inserted before index `i` (appended when `i` is past the end).
pub open spec fn insert_at(v: Seq<char>, i: int, c: char) -> Seq<char> {
    if i < v.len() {
        v.take(i).push(c) + v.skip(i)
    } else {
        v.push(c)
    }
}

/// `v` without the character at index `i`.
pub open spec fn remove_at(v: Seq<char>, i: int) -> Seq<char> {
    v.take(i) + v.skip(i + 1)
}

/// `x + 1`, saturating at `usize::MAX`.
pub open spec fn sat_inc(x: usize) -> usize {
    if x == usize::MAX { x } else { (x + 1) as usize }
}

/// A line and cursor, as a value.
pub type CursorView = (Seq<char>, usize);

/// The cursor moved one character to the left (not below 0).
pub open spec fn moved_left(c: CursorView) -> CursorView {
    (c.0, if c.1 == 0 { 0 } else { (c.1 - 1) as usize })
}

/// The cursor moved one character to the right (not past the end).
pub open spec fn moved_right(c: CursorView) -> CursorView {
    (c.0, if sat_inc(c.1) < c.0.len() { sat_inc(c.1) } else { c.0.len() as usize })
}

/// The cursor moved to the beginning of the line.
pub open spec fn moved_home(c: CursorView) -> CursorView {
    (c.0, 0)
}

/// The cursor moved to the end of the line.
pub open spec fn moved_end(c: CursorView) -> CursorView {
    (c.0, c.0.len() as usize)
}

/// `ch` inserted at the cursor, which moves one to the right.
pub open spec fn inserted(c: CursorView, ch: char) -> CursorView {
    (insert_at(c.0, c.1 as int, ch), sat_inc(c.1))
}

/// The character left of the cursor deleted, if there is one.
pub open spec fn deleted_left(c: CursorView) -> CursorView {
    if c.1 == 0 || c.1 > c.0.len() {
        c
    } else {
        (remove_at(c.0, c.1 - 1), (c.1 - 1) as usize)
    }
}

/// The character under the cursor deleted, if there is one.
pub open spec fn deleted_right(c: CursorView) -> CursorView {
    if c.1 >= c.0.len() {
        c
    } else {
        (remove_at(c.0, c.1 as int), c.1)
    }
}

impl View for InputCursor {
    type V = CursorView;

    open spec fn view(&self) -> CursorView {
        (self.value@, self.cursor)
    }
}

impl InputCursor {
    /// A line holding `value` with the cursor at `cursor`.
    pub fn new(value: String, cursor: usize) -> (r: InputCursor)
        ensures
            r@ == (value@, cursor),
    {
        InputCursor { value: chars_of(value.as_str()), cursor }
    }

    /// The line.
    pub fn value(&self) -> (s: String)
        ensures
            s@ == self.value@,
    {
        string_of(&self.value)
    }

    /// The cursor position.
    pub fn cursor(&self) -> (c: usize)
        ensures
            c == self.cursor,
    {
        self.cursor
    }

    /// Whether the line is empty once surrounding whitespace is removed.
    pub fn is_empty(&self) -> (b: bool)
        ensures
            b == (trim(self.value@).len() == 0),
    {
        trim_exec(&self.value).len() == 0
    }

    /// Moves the cursor one character to the left (not below 0).
    pub fn move_left(&mut self)
        ensures
            final(self)@ == moved_left(old(self)@),
    {
        self.cursor = self.cursor.saturating_sub(1);
    }

    /// Moves the cursor one character to the right (not past the end).
    pub fn move_right(&mut self)
        ensures
            final(self)@ == moved_right(old(self)@),
    {
        let next: usize = self.cursor.saturating_add(1);
        self.cursor = if next < self.value.len() { next } else { self.value.len() };
    }

    /// Moves the cursor to the beginning of the line.
    pub fn move_home(&mut self)
        ensures
            final(self)@ == moved_home(old(self)@),
    {
        self.cursor = 0;
    }

    /// Moves the cursor to the end of the line.
    pub fn move_end(&mut self)
        ensures
            final(self)@ == moved_end(old(self)@),
    {
        self.cursor = self.value.len();
    }

    /// Inserts `c` at the cursor (at the end when the cursor is past it) and
    /// moves the cursor one to the right.
    pub fn insert(&mut self, c: char)
        ensures
            final(self)@ == inserted(old(self)@, c),
    {
        if self.cursor < self.value.len() {
            self.value.insert(self.cursor, c);
            assert(self.value@ =~= insert_at(old(self).value@, old(self).cursor as int, c));
        } else {
            self.value.push(c);
        }
        self.cursor = self.cursor.saturating_add(1);
    }

    /// Deletes the character left of the cursor, if there is one.
    pub fn delete_left_char(&mut self)
        ensures
            final(self)@ == deleted_left(old(self)@),
    {
        if self.cursor == 0 {
            return;
        }
        let c: usize = self.cursor - 1;
        if c < self.value.len() {
            self.value.remove(c);
            assert(self.value@ =~= remove_at(old(self).value@, c as int));
            self.cursor = c;
        }
    }

    /// Deletes the character under the cursor, if there is one.
    pub fn delete_right_char(&mut self)
        ensures
            final(self)@ == deleted_right(old(self)@),
    {
        if self.cursor >= self.value.len() {
            return;
        }
        self.value.remove(self.cursor);
        assert(self.value@ =~= remove_at(old(self).value@, old(self).cursor as int));
    }
}

/// What a suggester found for the current input.
pub struct SuggestionContext {
    pub suggestions: Vec<String>,
    pub show_suggestions: bool,
    pub replace_range: Option<(usize, usize)>,
    pub submit_on_select: bool,
}

impl SuggestionContext {
    /// A context with no suggestions, nothing shown and nothing to replace.
    pub fn empty() -> (r: SuggestionContext)
        ensures
            r.suggestions@.len() == 0,
            !r.show_suggestions,
            r.replace_range is None,
            !r.submit_on_select,
    {
        SuggestionContext {
            suggestions: Vec::new(),
            show_suggestions: false,
            replace_range: None,
            submit_on_select: false,
        }
    }

    /// Whether there is at least one suggestion.
    pub fn found(&self) -> (b: bool)
        ensures
            b == (self.suggestions@.len() > 0),
    {
        self.suggestions.len() > 0
    }
}

/// A source of suggestions.
pub trait Suggester {
    /// Analyzes the input and returns suggestions if appropriate; handles
    /// both trigger detection and suggestion filtering.
    fn get_suggestions(&self, input: &str, cursor_position: usize) -> SuggestionContext;

    /// Formats the selected suggestion before it replaces the text in the
    /// replace range; by default the suggestion as it is.
    fn format_suggestion(&self, suggestion: &str) -> (r: String)
        default_ensures
            r@ == suggestion@,
    {
        String::from_str(suggestion)
    }
}

/// The formatting of the suggestion list.
pub trait AutocompleteFormatter {
    /// The suggestions list, one per line, the selected one marked.
    fn suggestions(&self, suggestions: &Vec<String>, selected_index: usize) -> (r: String)
        default_ensures
            suggestion_list(r@, suggestions@, selected_index),
    {
        format_suggestions(suggestions, selected_index)
    }

    /// The message shown when input is required.
    fn err_required(&self) -> (r: String)
        default_ensures
            r@ == "Required input"@,
    {
        String::from_str("Required input")
    }
}

/// The default formatter.
pub struct DefaultAutocompleteFormatter;

impl DefaultAutocompleteFormatter {
    /// Creates the default formatter.
    pub fn new() -> DefaultAutocompleteFormatter {
        DefaultAutocompleteFormatter
    }
}

impl AutocompleteFormatter for DefaultAutocompleteFormatter {

}

/// The line that shows suggestion `s`: selected lines start with a space,
/// the highlighted arrow and a space, followed by the highlighted
/// suggestion; the others are indented by three spaces.
pub open spec fn suggestion_line_ok(line: Seq<char>, s: Seq<char>, selected: bool) -> bool {
    if selected {
        exists|a: Seq<char>, b: Seq<char>|
            {
                &&& styled(a, "\u{2192}"@)
                &&& styled(b, s)
                &&& line == " "@ + a + " "@ + b
            }
    } else {
        line == "   "@ + s
    }
}

/// Lines `ls` joined with newlines.
pub open spec fn join_lines(ls: Seq<Seq<char>>) -> Seq<char> {
    crate::text::join(ls, "\n"@)
}

/// `r` shows `suggestions`: one line per suggestion, joined by newlines,
/// the line at `selected_index` highlighted.
pub open spec fn suggestion_list(r: Seq<char>, suggestions: Seq<String>, selected_index: usize) -> bool {
    exists|lines: Seq<Seq<char>>|
        {
            &&& lines.len() == suggestions.len()
            &&& forall|i: int|
                0 <= i < lines.len() ==> suggestion_line_ok(
                    #[trigger] lines[i],
                    suggestions[i]@,
                    i == selected_index,
                )
            &&& r == join_lines(lines)
        }
}

/// Formats the suggestion list: one line per suggestion, joined by newlines,
/// the line at `selected_index` highlighted.
pub fn format_suggestions(suggestions: &Vec<String>, selected_index: usize) -> (r: String)
    ensures
        suggestion_list(r@, suggestions@, selected_index),
{
    let ghost mut lines: Seq<Seq<char>> = Seq::empty();
    let mut out: Vec<char> = Vec::new();
    let nl = chars_of("\n");
    let mut i: usize = 0;
    while i < suggestions.len()
        invariant
            i <= suggestions.len(),
            nl@ == "\n"@,
            lines.len() == i,
            forall|k: int|
                0 <= k < i ==> suggestion_line_ok(#[trigger] lines[k], suggestions@[k]@, k == selected_index),
            out@ == join_lines(lines),
        decreases suggestions.len() - i,
    {
        let mut line: Vec<char>;
        if i == selected_index {
            line = chars_of(" ");
            let arrow = cyan("\u{2192}");
            let shown = cyan_bold(suggestions[i].as_str());
            append_chars(&mut line, &chars_of(arrow.as_str()));
            append_chars(&mut line, &chars_of(" "));
            append_chars(&mut line, &chars_of(shown.as_str()));
            proof {
                let a = arrow@;
                let b = shown@;
                assert(line@ == " "@ + a + " "@ + b);
                assert(suggestion_line_ok(line@, suggestions@[i as int]@, true));
            }
        } else {
            line = chars_of("   ");
            append_chars(&mut line, &chars_of(suggestions[i].as_str()));
        }
        let ghost before = out@;
        if i > 0 {
            append_chars(&mut out, &nl);
        }
        append_chars(&mut out, &line);
        proof {
            let old_lines = lines;
            lines = lines.push(line@);
            assert(lines.drop_last() =~= old_lines);
            if i == 0 {
                assert(out@ =~= lines[0]);
            } else {
                assert(out@ =~= before + "\n"@ + lines.last());
            }
        }
        i = i + 1;
    }
    let r = string_of(&out);
    assert(suggestion_list(r@, suggestions@, selected_index));
    r
}


/// A key, as the prompt distinguishes keys.
#[derive(PartialEq, Eq, Structural, Clone, Copy, Debug)]
pub enum KeyCode {
    Esc,
    Tab,
    Enter,
    Up,
    Down,
    Left,
    Right,
    Home,
    End,
    Backspace,
    Delete,
    Char(char),
    Other,
}

/// The modifier keys held with a key: exactly none, exactly Shift, exactly
/// Control, or any other combination.
#[derive(PartialEq, Eq, Structural, Clone, Copy, Debug)]
pub enum KeyModifiers {
    Plain,
    Shift,
    Control,
    Other,
}

/// What the prompt does after a key press.
#[derive(PartialEq, Eq, Structural, Clone, Copy, Debug)]
pub enum PromptState {
    Active,
    Submit,
    Cancel,
}

/// The editing action a key press stands for.
#[derive(PartialEq, Eq, Structural, Clone, Copy, Debug)]
pub enum KeyAction {
    Dismiss,
    Cancel,
    Accept,
    Prev,
    Next,
    MoveLeft,
    MoveRight,
    MoveHome,
    MoveEnd,
    DeleteLeft,
    DeleteRight,
    Insert(char),
    Ignore,
}

/// The key bindings of the prompt.
pub open spec fn key_action(code: KeyCode, m: KeyModifiers) -> KeyAction {
    match code {
        KeyCode::Esc => KeyAction::Dismiss,
        KeyCode::Tab => KeyAction::Accept,
        KeyCode::Enter => KeyAction::Accept,
        KeyCode::Up => KeyAction::Prev,
        KeyCode::Down => KeyAction::Next,
        KeyCode::Left => KeyAction::MoveLeft,
        KeyCode::Right => KeyAction::MoveRight,
        KeyCode::Home => KeyAction::MoveHome,
        KeyCode::End => KeyAction::MoveEnd,
        KeyCode::Backspace => KeyAction::DeleteLeft,
        KeyCode::Delete => KeyAction::DeleteRight,
        KeyCode::Char(c) => {
            if m == KeyModifiers::Control {
                if c == 'c' {
                    KeyAction::Cancel
                } else if c == 'b' {
                    KeyAction::MoveLeft
                } else if c == 'f' {
                    KeyAction::MoveRight
                } else if c == 'a' {
                    KeyAction::MoveHome
                } else if c == 'e' {
                    KeyAction::MoveEnd
                } else if c == 'h' {
                    KeyAction::DeleteLeft
                } else if c == 'd' {
                    KeyAction::DeleteRight
                } else {
                    KeyAction::Ignore
                }
            } else if m == KeyModifiers::Plain || m == KeyModifiers::Shift {
                KeyAction::Insert(c)
            } else {
                KeyAction::Ignore
            }
        },
        KeyCode::Other => KeyAction::Ignore,
    }
}

/// The action bound to a key press.
pub fn classify_key(code: KeyCode, m: KeyModifiers) -> (a: KeyAction)
    ensures
        a == key_action(code, m),
{
    match code {
        KeyCode::Esc => KeyAction::Dismiss,
        KeyCode::Tab => KeyAction::Accept,
        KeyCode::Enter => KeyAction::Accept,
        KeyCode::Up => KeyAction::Prev,
        KeyCode::Down => KeyAction::Next,
        KeyCode::Left => KeyAction::MoveLeft,
        KeyCode::Right => KeyAction::MoveRight,
        KeyCode::Home => KeyAction::MoveHome,
        KeyCode::End => KeyAction::MoveEnd,
        KeyCode::Backspace => KeyAction::DeleteLeft,
        KeyCode::Delete => KeyAction::DeleteRight,
        KeyCode::Char(c) => {
            match m {
                KeyModifiers::Control => {
                    if c == 'c' {
                        KeyAction::Cancel
                    } else if c == 'b' {
                        KeyAction::MoveLeft
                    } else if c == 'f' {
                        KeyAction::MoveRight
                    } else if c == 'a' {
                        KeyAction::MoveHome
                    } else if c == 'e' {
                        KeyAction::MoveEnd
                    } else if c == 'h' {
                        KeyAction::DeleteLeft
                    } else if c == 'd' {
                        KeyAction::DeleteRight
                    } else {
                        KeyAction::Ignore
                    }
                },
                KeyModifiers::Plain => KeyAction::Insert(c),
                KeyModifiers::Shift => KeyAction::Insert(c),
                KeyModifiers::Other => KeyAction::Ignore,
            }
        },
        KeyCode::Other => KeyAction::Ignore,
    }
}

/// A prompt for text input with autocomplete suggestions.
pub struct AutocompleteInput<S: Suggester> {
    pub suggester: Option<S>,
    pub message: String,
    pub hint: Option<String>,
    pub placeholder: Option<String>,
    pub required: bool,
    pub input: InputCursor,
    pub suggestion_context: Option<SuggestionContext>,
    pub selected_index: usize,
}

/// `a + b`, saturating at `usize::MAX`.
pub open spec fn sat_add(a: usize, b: int) -> usize {
    if a + b > usize::MAX { usize::MAX } else { (a + b) as usize }
}

/// The line after the byte range `[start, end)` of its UTF-8 encoding is
/// replaced by the shown suggestion `x`: the text before byte `start`, then
/// `x`, then the text from byte `end`; the cursor lands `x`'s length in
/// UTF-8 bytes after `start`.
pub open spec fn accepted(c: CursorView, start: usize, end: usize, x: Seq<char>) -> CursorView {
    let b = encode_utf8(c.0);
    (
        decode_utf8(b.subrange(0, start as int)) + x + decode_utf8(b.subrange(end as int, b.len() as int)),
        sat_add(start, (encode_utf8(x).len() as usize) as int),
    )
}

/// `ctx` is an answer of `sug` for the line `line` with the cursor at
/// `cursor`.
pub open spec fn suggester_answers<S: Suggester>(sug: S, line: Seq<char>, cursor: usize, ctx: SuggestionContext) -> bool {
    exists|a: &str| a@ == line && call_ensures(S::get_suggestions, (&sug, a, cursor), ctx)
}

/// `f` is an answer of `sug` when asked to format the suggestion `s`.
pub open spec fn suggester_formats<S: Suggester>(sug: S, s: Seq<char>, f: Seq<char>) -> bool {
    exists|a: &str, r: String| a@ == s && r@ == f && call_ensures(S::format_suggestion, (&sug, a), r)
}

/// The context shows a non-empty list of suggestions.
pub open spec fn shows(c: Option<SuggestionContext>) -> bool {
    c matches Some(ctx) && ctx.suggestions@.len() > 0 && ctx.show_suggestions
}

impl<S: Suggester> AutocompleteInput<S> {
    /// The selected index points into the suggestion list whenever that
    /// list is non-empty.
    pub open spec fn wf(&self) -> bool {
        match self.suggestion_context {
            Some(ctx) => ctx.suggestions@.len() > 0 ==> self.selected_index < ctx.suggestions@.len(),
            None => true,
        }
    }

    /// Selecting the current suggestion replaces a byte range of the line
    /// whose ends are character boundaries of its UTF-8 encoding.
    pub open spec fn selection_in_range(&self) -> bool {
        shows(self.suggestion_context) && self.suggester is Some ==> match self.suggestion_context->Some_0.replace_range {
            Some((start, end)) => is_char_boundary(encode_utf8(self.input.value@), start as int)
                && is_char_boundary(encode_utf8(self.input.value@), end as int),
            None => true,
        }
    }

    /// Whether `selection_in_range` holds.
    pub fn check_selection_in_range(&self) -> (b: bool)
        ensures
            b == self.selection_in_range(),
    {
        if self.suggester.is_none() {
            return true;
        }
        match &self.suggestion_context {
            Some(ctx) => {
                if ctx.suggestions.len() > 0 && ctx.show_suggestions {
                    match ctx.replace_range {
                        Some((start, end)) => {
                            let line = string_of(&self.input.value);
                            line.as_str().is_char_boundary(start) && line.as_str().is_char_boundary(end)
                        },
                        None => true,
                    }
                } else {
                    true
                }
            },
            None => true,
        }
    }

    /// Creates a prompt showing `message`, with an empty line, no suggester,
    /// no hint or placeholder, and input required.
    pub fn new(message: String) -> (r: Self)
        ensures
            r.suggester is None,
            r.message@ == message@,
            r.hint is None,
            r.placeholder is None,
            r.required,
            r.input@ == (Seq::<char>::empty(), 0usize),
            r.suggestion_context is None,
            r.selected_index == 0,
            r.wf(),
    {
        AutocompleteInput {
            suggester: None,
            message,
            hint: None,
            placeholder: None,
            required: true,
            input: InputCursor { value: Vec::new(), cursor: 0 },
            suggestion_context: None,
            selected_index: 0,
        }
    }

    /// Sets the suggester.
    pub fn with_suggester(self, suggester: S) -> (r: Self)
        ensures
            r.suggester == Some(suggester),
            r.message == self.message,
            r.hint == self.hint,
            r.placeholder == self.placeholder,
            r.required == self.required,
            r.input == self.input,
            r.suggestion_context == self.suggestion_context,
            r.selected_index == self.selected_index,
    {
        AutocompleteInput { suggester: Some(suggester), ..self }
    }

    /// Sets the hint.
    pub fn with_hint(self, hint: String) -> (r: Self)
        ensures
            r.hint == Some(hint),
            r.suggester == self.suggester,
            r.message == self.message,
            r.placeholder == self.placeholder,
            r.required == self.required,
            r.input == self.input,
            r.suggestion_context == self.suggestion_context,
            r.selected_index == self.selected_index,
    {
        AutocompleteInput { hint: Some(hint), ..self }
    }

    /// Sets the placeholder.
    pub fn with_placeholder(self, placeholder: String) -> (r: Self)
        ensures
            r.placeholder == Some(placeholder),
            r.suggester == self.suggester,
            r.message == self.message,
            r.hint == self.hint,
            r.required == self.required,
            r.input == self.input,
            r.suggestion_context == self.suggestion_context,
            r.selected_index == self.selected_index,
    {
        AutocompleteInput { placeholder: Some(placeholder), ..self }
    }

    /// Asks the suggester, if there is one, for suggestions for the current
    /// line and cursor, and selects the first.
    fn update_suggestions(&mut self)
        ensures
            final(self).suggester == old(self).suggester,
            final(self).message == old(self).message,
            final(self).hint == old(self).hint,
            final(self).placeholder == old(self).placeholder,
            final(self).required == old(self).required,
            final(self).input == old(self).input,
            old(self).suggester is Some ==> final(self).suggestion_context is Some
                && suggester_answers(
                old(self).suggester->Some_0,
                old(self).input.value@,
                old(self).input.cursor,
                final(self).suggestion_context->Some_0,
            ) && final(self).selected_index == 0,
            old(self).suggester is None ==> final(self).suggestion_context == old(self).suggestion_context
                && final(self).selected_index == old(self).selected_index,
            old(self).wf() ==> final(self).wf(),
    {
        let ctx = match &self.suggester {
            Some(suggester) => {
                let value = self.input.value();
                let answer = suggester.get_suggestions(value.as_str(), self.input.cursor);
                assert(suggester_answers(*suggester, self.input.value@, self.input.cursor, answer));
                Some(answer)
            },
            None => None,
        };
        if ctx.is_some() {
            self.suggestion_context = ctx;
            self.selected_index = 0;
        }
    }

    /// The submitted value: the line.
    pub fn submit(&self) -> (s: String)
        ensures
            s@ == self.input.value@,
    {
        self.input.value()
    }

    /// The body shown under the line: the suggestion list with the selected
    /// one highlighted, when there are suggestions to show.
    pub fn render_body(&self) -> (r: Option<String>)
        ensures
            r is Some <==> shows(self.suggestion_context),
            r matches Some(b) ==> suggestion_list(
                b@,
                self.suggestion_context->Some_0.suggestions@,
                self.selected_index,
            ),
    {
        match &self.suggestion_context {
            Some(ctx) => {
                if ctx.suggestions.len() > 0 && ctx.show_suggestions {
                    Some(format_suggestions(&ctx.suggestions, self.selected_index))
                } else {
                    None
                }
            },
            None => None,
        }
    }
}


impl<S: Suggester> AutocompleteInput<S> {
    /// The fields set when the prompt is built are the same in `a` and `b`.
    pub open spec fn same_settings(a: Self, b: Self) -> bool {
        &&& a.suggester == b.suggester
        &&& a.message == b.message
        &&& a.hint == b.hint
        &&& a.placeholder == b.placeholder
        &&& a.required == b.required
    }

    /// `f` is `o` after the text `x` was put in place of the replace range
    /// of the shown suggestions: with a suggester, the range is replaced
    /// (when the suggestions are shown and there is one) and the context is
    /// cleared; without one nothing changes.
    pub open spec fn selected_as(o: Self, f: Self, x: Seq<char>) -> bool {
        &&& Self::same_settings(o, f)
        &&& f.selected_index == o.selected_index
        &&& if o.suggester is None {
            f.input@ == o.input@ && f.suggestion_context == o.suggestion_context
        } else {
            &&& f.suggestion_context is None
            &&& if shows(o.suggestion_context) && o.suggestion_context->Some_0.replace_range is Some {
                let (start, end) = o.suggestion_context->Some_0.replace_range->Some_0;
                f.input@ == accepted(o.input@, start, end, x)
            } else {
                f.input@ == o.input@
            }
        }
    }

    /// `x` is how the selected suggestion is shown once accepted: the
    /// suggester's formatting of it, highlighted in cyan.
    pub open spec fn shown_selection(o: Self, x: Seq<char>) -> bool {
        exists|fmt: Seq<char>|
            #![trigger styled(x, fmt)]
            suggester_formats(
                o.suggester->Some_0,
                o.suggestion_context->Some_0.suggestions@[o.selected_index as int]@,
                fmt,
            ) && styled(x, fmt)
    }

    /// `f` is `o` after the selected suggestion was accepted: with a
    /// suggester, the shown suggestion (formatted by the suggester and
    /// highlighted) replaces the replace range, and the context is cleared.
    pub open spec fn selected(o: Self, f: Self) -> bool {
        exists|x: Seq<char>|
            #![trigger Self::selected_as(o, f, x)]
            (o.suggester is Some && shows(o.suggestion_context)
                && o.suggestion_context->Some_0.replace_range is Some ==> Self::shown_selection(o, x))
                && Self::selected_as(o, f, x)
    }

    /// `f` is `o` after the line became `c` and the suggester, if any, was
    /// asked again: the new context is the suggester's answer for `c`.
    pub open spec fn edited(o: Self, f: Self, c: CursorView) -> bool {
        &&& Self::same_settings(o, f)
        &&& f.input@ == c
        &&& if o.suggester is Some {
            &&& f.suggestion_context is Some
            &&& suggester_answers(o.suggester->Some_0, c.0, c.1, f.suggestion_context->Some_0)
            &&& f.selected_index == 0
        } else {
            f.suggestion_context == o.suggestion_context && f.selected_index == o.selected_index
        }
    }

    /// `f` is `o` with only the selected index changed to `i`.
    pub open spec fn reselected(o: Self, f: Self, i: usize) -> bool {
        &&& Self::same_settings(o, f)
        &&& f.input@ == o.input@
        &&& f.suggestion_context == o.suggestion_context
        &&& f.selected_index == i
    }

    /// What a key press does to the prompt and what it answers.
    pub open spec fn handled(o: Self, f: Self, code: KeyCode, m: KeyModifiers, r: PromptState) -> bool {
        match key_action(code, m) {
            KeyAction::Dismiss => if o.suggestion_context is Some {
                &&& r == PromptState::Active
                &&& Self::same_settings(o, f)
                &&& f.input@ == o.input@
                &&& f.suggestion_context is None
                &&& f.selected_index == o.selected_index
            } else {
                r == PromptState::Cancel && Self::reselected(o, f, o.selected_index)
            },
            KeyAction::Cancel => r == PromptState::Cancel && Self::reselected(o, f, o.selected_index),
            KeyAction::Accept => if shows(o.suggestion_context) {
                &&& Self::selected(o, f)
                &&& r == if o.suggestion_context->Some_0.submit_on_select {
                    PromptState::Submit
                } else {
                    PromptState::Active
                }
            } else {
                &&& Self::reselected(o, f, o.selected_index)
                &&& r == if code == KeyCode::Enter && !(trim(o.input.value@).len() == 0 && o.required) {
                    PromptState::Submit
                } else {
                    PromptState::Active
                }
            },
            KeyAction::Prev => r == PromptState::Active && Self::reselected(
                o,
                f,
                if o.suggestion_context matches Some(c) && c.suggestions@.len() > 0 && o.selected_index > 0 {
                    (o.selected_index - 1) as usize
                } else {
                    o.selected_index
                },
            ),
            KeyAction::Next => r == PromptState::Active && Self::reselected(
                o,
                f,
                if o.suggestion_context is Some && o.suggestion_context->Some_0.suggestions@.len() > 0 {
                    if o.selected_index + 1 < o.suggestion_context->Some_0.suggestions@.len() {
                        (o.selected_index + 1) as usize
                    } else {
                        (o.suggestion_context->Some_0.suggestions@.len() - 1) as usize
                    }
                } else {
                    o.selected_index
                },
            ),
            KeyAction::MoveLeft => r == PromptState::Active && Self::same_settings(o, f) && f.input@
                == moved_left(o.input@) && f.suggestion_context == o.suggestion_context
                && f.selected_index == o.selected_index,
            KeyAction::MoveRight => r == PromptState::Active && Self::same_settings(o, f) && f.input@
                == moved_right(o.input@) && f.suggestion_context == o.suggestion_context
                && f.selected_index == o.selected_index,
            KeyAction::MoveHome => r == PromptState::Active && Self::same_settings(o, f) && f.input@
                == moved_home(o.input@) && f.suggestion_context == o.suggestion_context
                && f.selected_index == o.selected_index,
            KeyAction::MoveEnd => r == PromptState::Active && Self::same_settings(o, f) && f.input@
                == moved_end(o.input@) && f.suggestion_context == o.suggestion_context
                && f.selected_index == o.selected_index,
            KeyAction::DeleteLeft => r == PromptState::Active && Self::edited(o, f, deleted_left(o.input@)),
            KeyAction::DeleteRight => r == PromptState::Active && Self::edited(o, f, deleted_right(o.input@)),
            KeyAction::Insert(ch) => r == PromptState::Active && Self::edited(o, f, inserted(o.input@, ch)),
            KeyAction::Ignore => r == PromptState::Active && Self::reselected(o, f, o.selected_index),
        }
    }

    /// Puts `shown` in place of the replace range of the shown suggestions
    /// (a byte range of the line's UTF-8 encoding) and closes the list; the
    /// cursor lands `shown`'s length in bytes after the range's start.
    /// Without a suggester nothing changes.
    pub fn replace_selection(&mut self, shown: &str)
        requires
            old(self).selection_in_range(),
        ensures
            Self::selected_as(*old(self), *final(self), shown@),
    {
        let mut new_input: Option<InputCursor> = None;
        let mut has_suggester = false;
        match &self.suggester {
            Some(_) => {
                has_suggester = true;
                match &self.suggestion_context {
                    Some(ctx) => {
                        if ctx.suggestions.len() > 0 && ctx.show_suggestions {
                            match ctx.replace_range {
                                Some((start, end)) => {
                                    let line = string_of(&self.input.value);
                                    let (head, _) = line.as_str().split_at(start);
                                    let (_, tail) = line.as_str().split_at(end);
                                    let mut v = chars_of(head);
                                    append_chars(&mut v, &chars_of(shown));
                                    append_chars(&mut v, &chars_of(tail));
                                    let cur: usize = start.saturating_add(shown.len());
                                    proof {
                                        let b = encode_utf8(self.input.value@);
                                        vstd::utf8::encode_utf8_decode_utf8(head@);
                                        vstd::utf8::encode_utf8_decode_utf8(tail@);
                                        assert(head@ == decode_utf8(b.subrange(0, start as int)));
                                        assert(tail@ == decode_utf8(b.subrange(end as int, b.len() as int)));
                                        assert((v@, cur) == accepted(self.input@, start, end, shown@));
                                    }
                                    new_input = Some(InputCursor { value: v, cursor: cur });
                                },
                                None => {},
                            }
                        }
                    },
                    None => {},
                }
            },
            None => {},
        }
        if has_suggester {
            match new_input {
                Some(ni) => {
                    self.input = ni;
                },
                None => {},
            }
            self.suggestion_context = None;
        }
    }

    /// Accepts the selected suggestion: the suggester formats it, it is
    /// highlighted in cyan, and it replaces the replace range of the line;
    /// the suggestion list closes.
    fn select_suggestion(&mut self)
        requires
            old(self).wf(),
            old(self).selection_in_range(),
        ensures
            Self::selected(*old(self), *final(self)),
    {
        let mut shown = String::new();
        match &self.suggester {
            Some(sug) => {
                match &self.suggestion_context {
                    Some(ctx) => {
                        if ctx.suggestions.len() > 0 && ctx.show_suggestions && ctx.replace_range.is_some() {
                            let chosen = ctx.suggestions[self.selected_index].as_str();
                            let f = sug.format_suggestion(chosen);
                            shown = cyan(f.as_str());
                            assert(suggester_formats(*sug, chosen@, f@));
                            assert(Self::shown_selection(*self, shown@));
                        }
                    },
                    None => {},
                }
            },
            None => {},
        }
        let ghost o = *self;
        self.replace_selection(shown.as_str());
        assert(Self::selected_as(o, *self, shown@));
    }

    /// Handles a key press.
    pub fn handle(&mut self, code: KeyCode, modifiers: KeyModifiers) -> (r: PromptState)
        requires
            old(self).wf(),
            key_action(code, modifiers) == KeyAction::Accept ==> old(self).selection_in_range(),
        ensures
            final(self).wf(),
            Self::handled(*old(self), *final(self), code, modifiers, r),
    {
        match classify_key(code, modifiers) {
            KeyAction::Dismiss => {
                if self.suggestion_context.is_some() {
                    self.suggestion_context = None;
                    PromptState::Active
                } else {
                    PromptState::Cancel
                }
            },
            KeyAction::Cancel => PromptState::Cancel,
            KeyAction::Accept => {
                let mut show = false;
                let mut should_submit = false;
                match &self.suggestion_context {
                    Some(ctx) => {
                        if ctx.suggestions.len() > 0 && ctx.show_suggestions {
                            show = true;
                            should_submit = ctx.submit_on_select;
                        }
                    },
                    None => {},
                }
                if show {
                    self.select_suggestion();
                    if should_submit {
                        return PromptState::Submit;
                    }
                    return PromptState::Active;
                }
                if code == KeyCode::Enter {
                    if self.input.is_empty() && self.required {
                        PromptState::Active
                    } else {
                        PromptState::Submit
                    }
                } else {
                    PromptState::Active
                }
            },
            KeyAction::Prev => {
                match &self.suggestion_context {
                    Some(ctx) => {
                        if ctx.suggestions.len() > 0 {
                            self.selected_index = self.selected_index.saturating_sub(1);
                        }
                    },
                    None => {},
                }
                PromptState::Active
            },
            KeyAction::Next => {
                let mut n: usize = 0;
                match &self.suggestion_context {
                    Some(ctx) => {
                        n = ctx.suggestions.len();
                    },
                    None => {},
                }
                if n > 0 {
                    let next: usize = self.selected_index + 1;
                    self.selected_index = if next < n { next } else { n - 1 };
                }
                PromptState::Active
            },
            KeyAction::MoveLeft => {
                self.input.move_left();
                PromptState::Active
            },
            KeyAction::MoveRight => {
                self.input.move_right();
                PromptState::Active
            },
            KeyAction::MoveHome => {
                self.input.move_home();
                PromptState::Active
            },
            KeyAction::MoveEnd => {
                self.input.move_end();
                PromptState::Active
            },
            KeyAction::DeleteLeft => {
                self.input.delete_left_char();
                self.update_suggestions();
                PromptState::Active
            },
            KeyAction::DeleteRight => {
                self.input.delete_right_char();
                self.update_suggestions();
                PromptState::Active
            },
            KeyAction::Insert(c) => {
                self.input.insert(c);
                self.update_suggestions();
                PromptState::Active
            },
            KeyAction::Ignore => PromptState::Active,
        }
    }
}


impl<S: Suggester> AutocompleteInput<S> {
    /// The arrow keys and Home/End move the cursor without touching the
    /// line or the suggestions: Left one character back (not below the
    /// start), Right one forward (not past the end), Home to the start, End
    /// to the end.
    pub proof fn law_cursor_keys(o: Self, f: Self, code: KeyCode, r: PromptState)
        requires
            Self::handled(o, f, code, KeyModifiers::Plain, r),
            code == KeyCode::Left || code == KeyCode::Right || code == KeyCode::Home || code == KeyCode::End,
            o.input.cursor <= o.input.value@.len(),
        ensures
            r == PromptState::Active,
            f.input.value@ == o.input.value@,
            f.suggestion_context == o.suggestion_context,
            code == KeyCode::Left ==> f.input.cursor == (if o.input.cursor > 0 { o.input.cursor - 1 } else { 0 }),
            code == KeyCode::Right ==> f.input.cursor == (if o.input.cursor < o.input.value@.len() {
                o.input.cursor + 1
            } else {
                o.input.cursor as int
            }),
            code == KeyCode::Home ==> f.input.cursor == 0,
            code == KeyCode::End ==> f.input.cursor == o.input.value@.len(),
    {
        vstd::std_specs::vec::axiom_spec_len(&o.input.value);
        assert(o.input.value@.len() <= usize::MAX);
    }

    /// Down moves the selection one suggestion further and Up one back,
    /// staying within the list; neither changes the line.
    pub proof fn law_selection_keys(o: Self, f: Self, code: KeyCode, m: KeyModifiers, r: PromptState)
        requires
            Self::handled(o, f, code, m, r),
            code == KeyCode::Up || code == KeyCode::Down,
            o.wf(),
            o.suggestion_context matches Some(c) && c.suggestions@.len() > 0,
        ensures
            r == PromptState::Active,
            f.input@ == o.input@,
            f.selected_index < o.suggestion_context->Some_0.suggestions@.len(),
            code == KeyCode::Down ==> f.selected_index == (if o.selected_index + 1
                < o.suggestion_context->Some_0.suggestions@.len() {
                o.selected_index + 1
            } else {
                o.selected_index as int
            }),
            code == KeyCode::Up ==> f.selected_index == (if o.selected_index > 0 {
                o.selected_index - 1
            } else {
                0
            }),
    {
        let n = o.suggestion_context->Some_0.suggestions@.len();
        vstd::std_specs::vec::axiom_spec_len(&o.suggestion_context->Some_0.suggestions);
        if o.selected_index + 1 >= n {
            assert(o.selected_index == n - 1);
            assert(((n - 1) as usize) == o.selected_index);
        }
    }

    /// Ctrl-C cancels the prompt; Esc closes an open suggestion list first
    /// and cancels only when none is open.
    pub proof fn law_cancel_keys(o: Self, f: Self, code: KeyCode, m: KeyModifiers, r: PromptState)
        requires
            Self::handled(o, f, code, m, r),
            code == KeyCode::Esc || (code == KeyCode::Char('c') && m == KeyModifiers::Control),
        ensures
            f.input@ == o.input@,
            code == KeyCode::Char('c') ==> r == PromptState::Cancel,
            code == KeyCode::Esc ==> (r == PromptState::Cancel <==> o.suggestion_context is None),
            code == KeyCode::Esc ==> f.suggestion_context is None,
    {
    }

    /// Enter with no suggestions shown submits the line unless it is blank
    /// and input is required; the line is left as it is.
    pub proof fn law_enter_submits(o: Self, f: Self, m: KeyModifiers, r: PromptState)
        requires
            Self::handled(o, f, KeyCode::Enter, m, r),
            !shows(o.suggestion_context),
        ensures
            f.input@ == o.input@,
            r == PromptState::Submit <==> !(o.required && trim(o.input.value@).len() == 0),
            r != PromptState::Cancel,
    {
    }

    /// Backspace, with any modifiers, deletes the character left of the
    /// cursor and moves the cursor onto its place.
    pub proof fn law_backspace_deletes_left(o: Self, f: Self, m: KeyModifiers, r: PromptState)
        requires
            Self::handled(o, f, KeyCode::Backspace, m, r),
            0 < o.input.cursor <= o.input.value@.len(),
        ensures
            r == PromptState::Active,
            f.input.value@ == o.input.value@.take(o.input.cursor - 1) + o.input.value@.skip(
                o.input.cursor as int,
            ),
            f.input.cursor == o.input.cursor - 1,
    {
    }

    /// Delete, with any modifiers, deletes the character under the cursor
    /// and leaves the cursor where it is.
    pub proof fn law_delete_deletes_right(o: Self, f: Self, m: KeyModifiers, r: PromptState)
        requires
            Self::handled(o, f, KeyCode::Delete, m, r),
            o.input.cursor < o.input.value@.len(),
        ensures
            r == PromptState::Active,
            f.input.value@ == o.input.value@.take(o.input.cursor as int) + o.input.value@.skip(
                o.input.cursor + 1,
            ),
            f.input.cursor == o.input.cursor,
    {
    }

    /// A character typed without modifiers or with Shift goes in at the
    /// cursor, which moves past it.
    pub proof fn law_typed_char_inserted(o: Self, f: Self, c: char, m: KeyModifiers, r: PromptState)
        requires
            Self::handled(o, f, KeyCode::Char(c), m, r),
            m == KeyModifiers::Plain || m == KeyModifiers::Shift,
            o.input.cursor <= o.input.value@.len(),
            o.input.cursor < usize::MAX,
        ensures
            r == PromptState::Active,
            f.input.value@ == o.input.value@.take(o.input.cursor as int).push(c) + o.input.value@.skip(
                o.input.cursor as int,
            ),
            f.input.cursor == o.input.cursor + 1,
    {
        assert(o.input.value@.take(o.input.value@.len() as int) =~= o.input.value@);
        assert(o.input.value@.skip(o.input.value@.len() as int) =~= Seq::<char>::empty());
    }
}

/// `a` comes before or equals `b` in the lexicographic order of characters
/// (the order of `String`'s `Ord`, since UTF-8 keeps code point order).
pub open spec fn lex_le(a: Seq<char>, b: Seq<char>) -> bool
    decreases a.len(),
{
    if a.len() == 0 {
        true
    } else if b.len() == 0 {
        false
    } else if a[0] != b[0] {
        a[0] < b[0]
    } else {
        lex_le(a.drop_first(), b.drop_first())
    }
}

proof fn lemma_lex_reflexive(a: Seq<char>)
    ensures
        lex_le(a, a),
    decreases a.len(),
{
    if a.len() > 0 {
        lemma_lex_reflexive(a.drop_first());
    }
}

proof fn lemma_lex_antisymmetric(a: Seq<char>, b: Seq<char>)
    requires
        lex_le(a, b),
        lex_le(b, a),
    ensures
        a == b,
    decreases a.len(),
{
    if a.len() > 0 && b.len() > 0 {
        lemma_lex_antisymmetric(a.drop_first(), b.drop_first());
        assert(a =~= seq![a[0]] + a.drop_first());
        assert(b =~= seq![b[0]] + b.drop_first());
    }
}

proof fn lemma_lex_transitive(a: Seq<char>, b: Seq<char>, c: Seq<char>)
    requires
        lex_le(a, b),
        lex_le(b, c),
    ensures
        lex_le(a, c),
    decreases a.len(),
{
    if a.len() > 0 && b.len() > 0 && c.len() > 0 {
        if a[0] == b[0] && b[0] == c[0] {
            lemma_lex_transitive(a.drop_first(), b.drop_first(), c.drop_first());
        }
    }
}

proof fn lemma_lex_total(a: Seq<char>, b: Seq<char>)
    ensures
        lex_le(a, b) || lex_le(b, a),
    decreases a.len(),
{
    if a.len() > 0 && b.len() > 0 && a[0] == b[0] {
        lemma_lex_total(a.drop_first(), b.drop_first());
    }
}

/// The lexicographic order as a relation.
pub open spec fn lex_order() -> spec_fn(Seq<char>, Seq<char>) -> bool {
    |a: Seq<char>, b: Seq<char>| lex_le(a, b)
}

/// `lex_le` is a total order.
pub proof fn lemma_lex_total_ordering()
    ensures
        vstd::relations::total_ordering(lex_order()),
{
    let r = lex_order();
    assert forall|a: Seq<char>| #[trigger] r(a, a) by {
        lemma_lex_reflexive(a);
    }
    assert forall|a: Seq<char>, b: Seq<char>| #[trigger] r(a, b) && #[trigger] r(b, a) implies a == b by {
        lemma_lex_antisymmetric(a, b);
    }
    assert forall|a: Seq<char>, b: Seq<char>, c: Seq<char>| #[trigger] r(a, b) && #[trigger] r(b, c) implies r(a, c) by {
        lemma_lex_transitive(a, b, c);
    }
    assert forall|a: Seq<char>, b: Seq<char>| #[trigger] r(a, b) || #[trigger] r(b, a) by {
        lemma_lex_total(a, b);
    }
}

/// Whether `a` comes before or equals `b` lexicographically.
fn lex_le_exec(a: &Vec<char>, b: &Vec<char>) -> (r: bool)
    ensures
        r == lex_le(a@, b@),
{
    let mut i: usize = 0;
    assert(a@.skip(0) =~= a@);
    assert(b@.skip(0) =~= b@);
    while i < a.len() && i < b.len() && a[i] == b[i]
        invariant
            i <= a.len(),
            i <= b.len(),
            lex_le(a@, b@) == lex_le(a@.skip(i as int), b@.skip(i as int)),
        decreases a.len() - i,
    {
        assert(a@.skip(i as int).drop_first() =~= a@.skip(i + 1));
        assert(b@.skip(i as int).drop_first() =~= b@.skip(i + 1));
        i = i + 1;
    }
    if i == a.len() {
        true
    } else if i == b.len() {
        false
    } else {
        a[i] < b[i]
    }
}

/// The views of a list of strings.
pub open spec fn string_views(v: Seq<String>) -> Seq<Seq<char>> {
    v.map_values(|s: String| s@)
}

/// A suggester configuration: the sorted suggestions, the characters that
/// trigger suggestions, and whether selecting one submits the input.
pub struct SuggesterConfig {
    pub suggestions: Vec<String>,
    pub trigger_chars: Vec<char>,
    pub submit_on_select: bool,
}

impl SuggesterConfig {
    /// A configuration holding `suggestions` in sorted order, with no
    /// trigger characters and no submit on select.
    pub fn new(suggestions: Vec<String>) -> (r: SuggesterConfig)
        ensures
            string_views(r.suggestions@) == string_views(suggestions@).sort_by(lex_order()),
            r.trigger_chars@.len() == 0,
            !r.submit_on_select,
    {
        let ghost input = string_views(suggestions@);
        let mut sorted: Vec<Vec<char>> = Vec::new();
        let mut i: usize = 0;
        assert(sorted@.map_values(|w: Vec<char>| w@) =~= input.take(0));
        while i < suggestions.len()
            invariant
                i <= suggestions.len(),
                input == string_views(suggestions@),
                vstd::relations::sorted_by(sorted@.map_values(|w: Vec<char>| w@), lex_order()),
                sorted@.map_values(|w: Vec<char>| w@).to_multiset() == input.take(i as int).to_multiset(),
            decreases suggestions.len() - i,
        {
            let w = chars_of(suggestions[i].as_str());
            let ghost before = sorted@.map_values(|w: Vec<char>| w@);
            // the first position whose word is greater than `w`
            let mut p: usize = 0;
            while p < sorted.len() && lex_le_exec(&sorted[p], &w)
                invariant
                    p <= sorted.len(),
                    before == sorted@.map_values(|w: Vec<char>| w@),
                    forall|k: int| 0 <= k < p ==> lex_le(#[trigger] before[k], w@),
                decreases sorted.len() - p,
            {
                p = p + 1;
            }
            proof {
                lemma_lex_total_ordering();
                if p < sorted.len() {
                    assert(!lex_le(before[p as int], w@));
                    lemma_lex_total(before[p as int], w@);
                }
            }
            sorted.insert(p, w);
            proof {
                let after = sorted@.map_values(|w: Vec<char>| w@);
                assert(after =~= before.insert(p as int, w@));
                let r = lex_order();
                assert forall|a: int, b: int| 0 <= a < b < after.len() implies #[trigger] r(after[a], after[b]) by {
                    if b < p {
                    } else if a < p && b == p {
                    } else if a < p && b > p {
                        assert(after[b] == before[b - 1]);
                        if p < before.len() {
                            assert(r(before[p as int], before[b - 1]));
                            lemma_lex_total(before[p as int], w@);
                            lemma_lex_transitive(before[a], w@, before[p as int]);
                            lemma_lex_transitive(before[a], before[p as int], before[b - 1]);
                        }
                    } else if a == p {
                        assert(after[b] == before[b - 1]);
                        assert(r(before[p as int], before[b - 1]) || b - 1 == p);
                        lemma_lex_total(before[p as int], w@);
                        if b - 1 > p {
                            lemma_lex_transitive(w@, before[p as int], before[b - 1]);
                        }
                    } else {
                        assert(after[a] == before[a - 1]);
                        assert(after[b] == before[b - 1]);
                    }
                }
                assert(input.take(i + 1) =~= input.take(i as int).push(w@));
                vstd::seq_lib::to_multiset_insert(before, p as int, w@);
                vstd::seq_lib::to_multiset_build(input.take(i as int), w@);
            }
            i = i + 1;
        }
        let mut out: Vec<String> = Vec::new();
        let mut j: usize = 0;
        while j < sorted.len()
            invariant
                j <= sorted.len(),
                string_views(out@) == sorted@.map_values(|w: Vec<char>| w@).take(j as int),
            decreases sorted.len() - j,
        {
            let ghost before = out@;
            out.push(string_of(&sorted[j]));
            assert(string_views(out@) =~= string_views(before).push(sorted@[j as int]@));
            assert(string_views(out@) =~= sorted@.map_values(|w: Vec<char>| w@).take(j + 1));
            j = j + 1;
        }
        proof {
            let sv = sorted@.map_values(|w: Vec<char>| w@);
            assert(sv.take(sorted.len() as int) =~= sv);
            assert(input.take(suggestions.len() as int) =~= input);
            lemma_lex_total_ordering();
            input.lemma_sort_by_ensures(lex_order());
            vstd::seq_lib::lemma_sorted_unique(sv, input.sort_by(lex_order()), lex_order());
        }
        SuggesterConfig { suggestions: out, trigger_chars: Vec::new(), submit_on_select: false }
    }

    /// Sets the characters that trigger suggestions.
    pub fn with_triggers(self, triggers: Vec<char>) -> (r: SuggesterConfig)
        ensures
            r.suggestions == self.suggestions,
            r.trigger_chars == triggers,
            r.submit_on_select == self.submit_on_select,
    {
        SuggesterConfig { trigger_chars: triggers, ..self }
    }

    /// Sets whether selecting a suggestion submits the input.
    pub fn with_submit_on_select(self, submit: bool) -> (r: SuggesterConfig)
        ensures
            r.suggestions == self.suggestions,
            r.trigger_chars == self.trigger_chars,
            r.submit_on_select == submit,
    {
        SuggesterConfig { submit_on_select: submit, ..self }
    }
}


/// Typing a character and then deleting the character left of the cursor
/// gives back the line and the cursor (for a cursor within the line).
pub proof fn law_insert_then_delete_left(c: CursorView, ch: char)
    requires
        c.1 <= c.0.len(),
        c.1 < usize::MAX,
    ensures
        deleted_left(inserted(c, ch)) == c,
{
    let i = inserted(c, ch);
    assert(i.0.len() == c.0.len() + 1);
    if c.1 < c.0.len() {
        assert(remove_at(i.0, c.1 as int) =~= c.0);
    } else {
        assert(remove_at(i.0, c.1 as int) =~= c.0);
    }
}

} // verus!
