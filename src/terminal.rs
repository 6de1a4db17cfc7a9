//! Bookkeeping of an embedded shell session: the bounded scrollback that the
//! shell's output fills, the line being typed, and what to send to the shell
//! for each key. The pseudo-terminal itself is driven by the caller.
use vstd::prelude::*;
use crate::buffer::{chars_of, string_of};
use crate::text::{
    counted_lines, keep_last_lines, last_lines, lemma_last_lines_append, lemma_last_lines_count,
    lemma_last_lines_keep_tail, newline_count,
};

verus! {

/// Most lines the scrollback keeps; older ones are dropped first.
pub const OUTPUT_LINE_LIMIT: usize = 100;

/// Text decoded from `bytes` as UTF-8, each invalid sequence replaced by
/// U+FFFD.
pub uninterp spec fn lossy_utf8(bytes: Seq<u8>) -> Seq<char>;

/// Relies on `String::from_utf8_lossy`: decodes the bytes, replacing invalid
/// sequences, and never fails.
#[verifier::external_body]
fn decode_lossy(bytes: &[u8]) -> (r: String)
    ensures
        r@ == lossy_utf8(bytes@),
{
    String::from_utf8_lossy(bytes).into_owned()
}

/// The scrollback of a shell session: the most recent output, at most
/// `OUTPUT_LINE_LIMIT` lines of it.
pub struct OutputBuffer {
    text: Vec<char>,
}

impl View for OutputBuffer {
    type V = Seq<char>;

    closed spec fn view(&self) -> Seq<char> {
        self.text@
    }
}

impl OutputBuffer {
    pub fn new() -> (r: OutputBuffer)
        ensures
            r@ == Seq::<char>::empty(),
    {
        OutputBuffer { text: Vec::new() }
    }

    /// Appends `chunk`; past `OUTPUT_LINE_LIMIT` lines the oldest are
    /// dropped, so that the most recent lines remain, in order.
    pub fn append_chunk(&mut self, chunk: &str)
        ensures
            final(self)@ == last_lines(old(self)@ + chunk@, OUTPUT_LINE_LIMIT as nat),
            counted_lines(final(self)@) <= OUTPUT_LINE_LIMIT,
            counted_lines(old(self)@ + chunk@) <= OUTPUT_LINE_LIMIT ==> final(self)@ == old(self)@
                + chunk@,
    {
        let mut extra = chars_of(chunk);
        self.text.append(&mut extra);
        let mut full: Vec<char> = Vec::new();
        std::mem::swap(&mut full, &mut self.text);
        self.text = keep_last_lines(full, OUTPUT_LINE_LIMIT);
        proof {
            lemma_last_lines_count(old(self)@ + chunk@, OUTPUT_LINE_LIMIT as nat);
        }
    }

    /// Appends output read from the shell, decoded leniently.
    pub fn append_bytes(&mut self, bytes: &[u8])
        ensures
            final(self)@ == last_lines(old(self)@ + lossy_utf8(bytes@), OUTPUT_LINE_LIMIT as nat),
            counted_lines(final(self)@) <= OUTPUT_LINE_LIMIT,
    {
        let text = decode_lossy(bytes);
        self.append_chunk(text.as_str());
    }

    /// The last `max_lines` lines, for display.
    pub fn snapshot(&self, max_lines: usize) -> (r: String)
        ensures
            r@ == last_lines(self@, max_lines as nat),
    {
        let copy = self.text.clone();
        proof {
            assert(copy@ =~= self.text@);
        }
        let kept = keep_last_lines(copy, max_lines);
        string_of(&kept)
    }

    /// All of the scrollback.
    pub fn text(&self) -> (r: String)
        ensures
            r@ == self@,
    {
        string_of(&self.text)
    }

    /// Empties the scrollback.
    pub fn clear(&mut self)
        ensures
            final(self)@ == Seq::<char>::empty(),
    {
        self.text.clear();
    }
}

/// The text to append to the scrollback when a session opens in `directory`.
pub open spec fn opened_banner(directory: Seq<char>) -> Seq<char> {
    "Terminal initialized successfully.\n"@ + "Working directory: "@ + directory + "\n"@
}

/// The text to append to the scrollback when no shell could be started.
pub open spec fn fallback_banner(error: Seq<char>) -> Seq<char> {
    "Failed to create pseudo-terminal, using fallback mode.\n"@ + "Error: "@ + error + "\n"@
        + "You can still navigate files normally.\n"@
}

/// The scrollback after `text` was typed with no shell to send it to: the
/// text is shown after a marker.
pub open spec fn echoed(output: Seq<char>, text: Seq<char>) -> Seq<char> {
    last_lines(output + "(no terminal) "@ + text, OUTPUT_LINE_LIMIT as nat)
}

/// What sending `text` on does: a connected session hands it back to be
/// written to the shell, any other shows it in the scrollback.
pub open spec fn sent(
    connected: bool,
    before: Seq<char>,
    text: Seq<char>,
    r: Option<String>,
    after: Seq<char>,
) -> bool {
    if connected {
        &&& r matches Some(s) && s@ == text
        &&& after == before
    } else {
        &&& r is None
        &&& after == echoed(before, text)
    }
}

/// A shell session as the user sees it: whether a shell receives the keys,
/// and the line typed so far.
pub struct TerminalSession {
    input: Vec<char>,
    connected: bool,
}

/// What the session state holds, as mathematical values.
pub struct SessionView {
    pub input: Seq<char>,
    pub connected: bool,
}

impl View for TerminalSession {
    type V = SessionView;

    closed spec fn view(&self) -> SessionView {
        SessionView { input: self.input@, connected: self.connected }
    }
}

impl TerminalSession {
    /// A session whose shell runs in `working_directory`; the scrollback
    /// says so.
    pub fn opened(output: &mut OutputBuffer, working_directory: &str) -> (r: TerminalSession)
        ensures
            r@ == (SessionView { input: Seq::empty(), connected: true }),
            final(output)@ == last_lines(
                old(output)@ + opened_banner(working_directory@),
                OUTPUT_LINE_LIMIT as nat,
            ),
    {
        let mut banner = chars_of("Terminal initialized successfully.\n");
        let mut part = chars_of("Working directory: ");
        banner.append(&mut part);
        let mut part = chars_of(working_directory);
        banner.append(&mut part);
        let mut part = chars_of("\n");
        banner.append(&mut part);
        let banner = string_of(&banner);
        output.append_chunk(banner.as_str());
        TerminalSession { input: Vec::new(), connected: true }
    }

    /// A session without a shell, after `error` prevented starting one: what
    /// is typed is only shown.
    pub fn fallback(output: &mut OutputBuffer, error: &str) -> (r: TerminalSession)
        ensures
            r@ == (SessionView { input: Seq::empty(), connected: false }),
            final(output)@ == last_lines(old(output)@ + fallback_banner(error@), OUTPUT_LINE_LIMIT as nat),
    {
        let mut banner = chars_of("Failed to create pseudo-terminal, using fallback mode.\n");
        let mut part = chars_of("Error: ");
        banner.append(&mut part);
        let mut part = chars_of(error);
        banner.append(&mut part);
        let mut part = chars_of("\n");
        banner.append(&mut part);
        let mut part = chars_of("You can still navigate files normally.\n");
        banner.append(&mut part);
        let banner = string_of(&banner);
        output.append_chunk(banner.as_str());
        TerminalSession { input: Vec::new(), connected: false }
    }

    /// Whether a shell receives what is typed.
    pub fn is_connected(&self) -> (r: bool)
        ensures
            r == self@.connected,
    {
        self.connected
    }

    /// The line typed so far.
    pub fn input(&self) -> (r: String)
        ensures
            r@ == self@.input,
    {
        string_of(&self.input)
    }

    /// What to display: the last `max_lines` lines of the scrollback, and
    /// the line typed so far.
    pub fn snapshot(&self, output: &OutputBuffer, max_lines: usize) -> (r: (String, String))
        ensures
            r.0@ == last_lines(output@, max_lines as nat),
            r.1@ == self@.input,
    {
        (output.snapshot(max_lines), self.input())
    }

    /// Sends `text` on: returns it for the caller to write to the shell, or,
    /// with no shell, shows it in the scrollback after a marker.
    pub fn forward_input(&self, output: &mut OutputBuffer, text: &str) -> (r: Option<String>)
        ensures
            sent(self@.connected, old(output)@, text@, r, final(output)@),
            !self@.connected && counted_lines(old(output)@ + "(no terminal) "@ + text@)
                <= OUTPUT_LINE_LIMIT ==> final(output)@ == old(output)@ + "(no terminal) "@ + text@,
    {
        if self.connected {
            Some(text.to_string())
        } else {
            let mut shown = chars_of("(no terminal) ");
            let mut typed = chars_of(text);
            shown.append(&mut typed);
            let shown = string_of(&shown);
            output.append_chunk(shown.as_str());
            proof {
                assert(old(output)@ + ("(no terminal) "@ + text@) =~= old(output)@
                    + "(no terminal) "@ + text@);
                lemma_last_lines_count(
                    old(output)@ + "(no terminal) "@ + text@,
                    OUTPUT_LINE_LIMIT as nat,
                );
            }
            None
        }
    }

    /// Adds `c` to the typed line and sends it on.
    pub fn type_char(&mut self, output: &mut OutputBuffer, c: char) -> (r: Option<String>)
        ensures
            final(self)@ == (SessionView { input: old(self)@.input.push(c), ..old(self)@ }),
            sent(old(self)@.connected, old(output)@, seq![c], r, final(output)@),
    {
        self.input.push(c);
        let typed = string_of(&vec![c]);
        proof {
            assert(typed@ =~= seq![c]);
        }
        self.forward_input(output, typed.as_str())
    }

    /// Sends the typed line with a line break, and starts a new one.
    pub fn submit_line(&mut self, output: &mut OutputBuffer) -> (r: Option<String>)
        ensures
            final(self)@ == (SessionView { input: Seq::empty(), ..old(self)@ }),
            sent(old(self)@.connected, old(output)@, old(self)@.input.push('\n'), r, final(output)@),
    {
        let mut line = self.input.clone();
        proof {
            assert(line@ =~= self.input@);
        }
        line.push('\n');
        let line = string_of(&line);
        self.input.clear();
        self.forward_input(output, line.as_str())
    }

    /// Takes the last character off the typed line and sends the shell the
    /// sequence that erases it; with nothing typed, does nothing.
    pub fn backspace(&mut self, output: &mut OutputBuffer) -> (r: Option<String>)
        ensures
            old(self)@.input.len() == 0 ==> r is None && final(self)@ == old(self)@ && final(output)@ == old(output)@,
            old(self)@.input.len() > 0 ==> final(self)@ == (SessionView {
                input: old(self)@.input.drop_last(),
                ..old(self)@
            }) && sent(old(self)@.connected, old(output)@, "\u{8} \u{8}"@, r, final(output)@),
    {
        if self.input.len() == 0 {
            return None;
        }
        self.input.pop();
        proof {
            assert(self.input@ =~= old(self).input@.drop_last());
        }
        self.forward_input(output, "\u{8} \u{8}")
    }

    /// Handles one key typed into the session: a line break submits the
    /// line, a backspace erases, anything else is typed.
    pub fn handle_input(&mut self, output: &mut OutputBuffer, c: char) -> (r: Option<String>)
        ensures
            (c == '\r' || c == '\n') ==> final(self)@ == (SessionView {
                input: Seq::empty(),
                ..old(self)@
            }) && sent(
                old(self)@.connected,
                old(output)@,
                old(self)@.input.push('\n'),
                r,
                final(output)@,
            ),
            (c == '\u{8}' || c == '\u{7f}') && old(self)@.input.len() == 0 ==> r is None
                && final(self)@ == old(self)@ && final(output)@ == old(output)@,
            (c == '\u{8}' || c == '\u{7f}') && old(self)@.input.len() > 0 ==> final(self)@ == (
            SessionView { input: old(self)@.input.drop_last(), ..old(self)@ }) && sent(
                old(self)@.connected,
                old(output)@,
                "\u{8} \u{8}"@,
                r,
                final(output)@,
            ),
            !(c == '\r' || c == '\n' || c == '\u{8}' || c == '\u{7f}') ==> final(self)@ == (
            SessionView { input: old(self)@.input.push(c), ..old(self)@ }) && sent(
                old(self)@.connected,
                old(output)@,
                seq![c],
                r,
                final(output)@,
            ),
    {
        if c == '\r' || c == '\n' {
            self.submit_line(output)
        } else if c == '\u{8}' || c == '\u{7f}' {
            self.backspace(output)
        } else {
            self.type_char(output, c)
        }
    }

    /// Ends the session: the scrollback and the typed line are emptied and
    /// nothing more reaches a shell.
    pub fn close(&mut self, output: &mut OutputBuffer)
        ensures
            final(self)@ == (SessionView { input: Seq::empty(), connected: false }),
            final(output)@ == Seq::<char>::empty(),
    {
        output.clear();
        self.input.clear();
        self.connected = false;
    }
}

/// With no shell, typed text stays in sight: a snapshot of `n` lines taken
/// right after it was shown ends with all of it, as long as it holds fewer
/// line breaks than the lines shown and the scrollback keeps.
pub proof fn lemma_echo_visible(output: Seq<char>, text: Seq<char>, n: nat)
    requires
        newline_count(text) < n,
        newline_count(text) < OUTPUT_LINE_LIMIT,
    ensures
        text.len() <= last_lines(echoed(output, text), n).len(),
        last_lines(echoed(output, text), n).subrange(
            last_lines(echoed(output, text), n).len() - text.len(),
            last_lines(echoed(output, text), n).len() as int,
        ) == text,
{
    let e = echoed(output, text);
    lemma_last_lines_keep_tail(output + "(no terminal) "@, text, OUTPUT_LINE_LIMIT as nat);
    let head = e.take(e.len() - text.len());
    assert(head + text =~= e);
    lemma_last_lines_keep_tail(head, text, n);
}

/// The chunks one after the other.
pub open spec fn joined(chunks: Seq<Seq<char>>) -> Seq<char>
    decreases chunks.len(),
{
    if chunks.len() == 0 {
        Seq::empty()
    } else {
        joined(chunks.drop_last()) + chunks.last()
    }
}

/// The scrollback `output` after `append_chunk` was called with each chunk
/// in turn.
pub open spec fn appended_all(output: Seq<char>, chunks: Seq<Seq<char>>) -> Seq<char>
    decreases chunks.len(),
{
    if chunks.len() == 0 {
        output
    } else {
        last_lines(appended_all(output, chunks.drop_last()) + chunks.last(), OUTPUT_LINE_LIMIT as nat)
    }
}

/// Output appended chunk by chunk is kept in order and whole: the
/// scrollback holds exactly the last `OUTPUT_LINE_LIMIT` lines of all of it,
/// as if it had been appended at once.
pub proof fn lemma_appends_keep_last_lines(output: Seq<char>, chunks: Seq<Seq<char>>)
    requires
        counted_lines(output) <= OUTPUT_LINE_LIMIT,
    ensures
        appended_all(output, chunks) == last_lines(output + joined(chunks), OUTPUT_LINE_LIMIT as nat),
    decreases chunks.len(),
{
    if chunks.len() == 0 {
        assert(output + joined(chunks) =~= output);
        lemma_last_lines_count(output, OUTPUT_LINE_LIMIT as nat);
    } else {
        let rest = chunks.drop_last();
        lemma_appends_keep_last_lines(output, rest);
        lemma_last_lines_append(output + joined(rest), chunks.last(), OUTPUT_LINE_LIMIT as nat);
        assert(output + joined(rest) + chunks.last() =~= output + joined(chunks));
    }
}

} // verus!
