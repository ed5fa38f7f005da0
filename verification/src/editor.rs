//! The line-editing engine: a state machine that consumes one key event at a
//! time, maintaining an edit buffer, a cursor offset, an optional cursor into
//! a caller-owned history list, and the double-interrupt cancellation latch.
//!
//! The whole per-key behaviour is pinned down by `step_spec`; the executable
//! `step` is proved to follow it exactly.

use vstd::prelude::*;
use vstd::string::StringExecFns;

use crate::keys::Key;
use crate::text::chars_to_string;
use crate::text::dec_digits;
use crate::text::push_char;
use crate::text::push_dec;
use crate::text::str_to_chars;

verus! {

/// What one key event did to the read operation.
#[derive(Clone, Copy, Debug, PartialEq, Eq, Structural)]
pub enum Step {
    /// Keep editing.
    Continue,
    /// Enter was pressed: the buffer is the finished line.
    Submitted,
    /// A second consecutive interrupt: the read is cancelled.
    Cancelled,
}

/// The mathematical state of the editor.
pub struct EditorModel {
    pub buffer: Seq<char>,
    pub cursor: int,
    pub history_cursor: Option<int>,
    pub latch: bool,
}

/// The editor state for one read operation: the line being composed, the
/// insertion offset into it, where history browsing stands, and whether the
/// previous key was an unconsumed interrupt.
pub struct Editor {
    pub buffer: Vec<char>,
    pub cursor: usize,
    pub history_cursor: Option<usize>,
    pub latch: bool,
}

impl View for Editor {
    type V = EditorModel;

    open spec fn view(&self) -> EditorModel {
        EditorModel {
            buffer: self.buffer@,
            cursor: self.cursor as int,
            history_cursor: match self.history_cursor {
                Some(i) => Some(i as int),
                None => None,
            },
            latch: self.latch,
        }
    }
}

/// The history list as a sequence of character sequences.
pub open spec fn hist_view(h: Seq<String>) -> Seq<Seq<char>> {
    crate::text::strings_view(h)
}

/// The editor invariant: the cursor lies within the buffer and the history
/// cursor, when set, points at an entry of a history list of length `hlen`.
pub open spec fn wf(m: EditorModel, hlen: int) -> bool {
    &&& 0 <= m.cursor <= m.buffer.len()
    &&& match m.history_cursor {
        Some(i) => 0 <= i < hlen,
        None => true,
    }
}

/// The state a read operation starts from: empty buffer, cursor at the
/// origin, no history browsing, latch clear.
pub open spec fn init_model() -> EditorModel {
    EditorModel { buffer: Seq::empty(), cursor: 0, history_cursor: None, latch: false }
}

/// The per-key transition table. Given the state before the key and the
/// history list, yields the state after the key and whether the read goes on,
/// submits the buffer, or is cancelled.
pub open spec fn step_spec(m: EditorModel, key: Key, hist: Seq<Seq<char>>) -> (EditorModel, Step) {
    match key {
        Key::Printable(c) => (
            EditorModel {
                buffer: m.buffer.insert(m.cursor, c),
                cursor: m.cursor + 1,
                history_cursor: None,
                latch: false,
            },
            Step::Continue,
        ),
        Key::Enter => (EditorModel { latch: false, ..m }, Step::Submitted),
        Key::Backspace => if m.cursor > 0 {
            (
                EditorModel {
                    buffer: m.buffer.remove(m.cursor - 1),
                    cursor: m.cursor - 1,
                    latch: false,
                    ..m
                },
                Step::Continue,
            )
        } else {
            (EditorModel { latch: false, ..m }, Step::Continue)
        },
        Key::ArrowLeft => if m.cursor > 0 {
            (EditorModel { cursor: m.cursor - 1, latch: false, ..m }, Step::Continue)
        } else {
            (EditorModel { latch: false, ..m }, Step::Continue)
        },
        Key::ArrowRight => if m.cursor < m.buffer.len() {
            (EditorModel { cursor: m.cursor + 1, latch: false, ..m }, Step::Continue)
        } else {
            (EditorModel { latch: false, ..m }, Step::Continue)
        },
        Key::ArrowUp => {
            let target = match m.history_cursor {
                Some(i) => Some(if i > 0 { i - 1 } else { 0 }),
                None => if hist.len() > 0 { Some(hist.len() - 1) } else { None },
            };
            match target {
                Some(i) => (
                    EditorModel {
                        buffer: hist[i as int],
                        cursor: hist[i as int].len() as int,
                        history_cursor: Some(i as int),
                        latch: false,
                    },
                    Step::Continue,
                ),
                None => (EditorModel { latch: false, ..m }, Step::Continue),
            }
        },
        Key::ArrowDown => match m.history_cursor {
            Some(i) => if i + 1 < hist.len() {
                (
                    EditorModel {
                        buffer: hist[i + 1],
                        cursor: hist[i + 1].len() as int,
                        history_cursor: Some(i + 1),
                        latch: false,
                    },
                    Step::Continue,
                )
            } else {
                (
                    EditorModel {
                        buffer: Seq::empty(),
                        cursor: 0,
                        history_cursor: None,
                        latch: false,
                    },
                    Step::Continue,
                )
            },
            None => (EditorModel { latch: false, ..m }, Step::Continue),
        },
        Key::Interrupt => if m.latch {
            (m, Step::Cancelled)
        } else {
            (EditorModel { latch: true, ..m }, Step::Continue)
        },
        Key::Other => (m, Step::Continue),
    }
}

/// Folding `step_spec` over a sequence of key events: the state after the
/// events, and whether the read is still editing, submitted, or cancelled.
/// Events after a terminating key are not consumed.
pub open spec fn run_spec(m: EditorModel, keys: Seq<Key>, hist: Seq<Seq<char>>) -> (
    EditorModel,
    Step,
)
    decreases keys.len(),
{
    if keys.len() == 0 {
        (m, Step::Continue)
    } else {
        let (m2, st) = step_spec(m, keys[0], hist);
        if st == Step::Continue {
            run_spec(m2, keys.drop_first(), hist)
        } else {
            (m2, st)
        }
    }
}

/// The state a read operation starts from. With a valid history cursor the
/// buffer opens on that entry, cursor at its end, as if it had just been
/// recalled; otherwise the read starts empty.
pub open spec fn start_model(hist: Seq<Seq<char>>, hc: Option<int>) -> EditorModel {
    match hc {
        Some(i) => if 0 <= i < hist.len() {
            EditorModel {
                buffer: hist[i],
                cursor: hist[i].len() as int,
                history_cursor: Some(i),
                latch: false,
            }
        } else {
            init_model()
        },
        None => init_model(),
    }
}

/// How a read operation ended.
#[derive(Debug, PartialEq, Eq)]
pub enum ReadResult {
    /// Enter was pressed: the finished line.
    Line(String),
    /// Two consecutive interrupts: no line.
    Cancelled,
    /// The key script ran out before a terminating key.
    Pending,
}

/// The ANSI escape sequence that moves the terminal cursor `n` columns left.
pub open spec fn esc_left(n: nat) -> Seq<char> {
    "\x1b["@ + dec_digits(n) + "D"@
}

/// The exact characters the editor writes to the terminal for one key event,
/// given the state before the key, the prompt, and the history list.
///
/// A mutation right of the cursor repaints only the suffix from the cursor to
/// the end of the buffer (backspace overwrites one extra column with a blank),
/// then repositions the cursor; history recall and the cancellation message
/// clear and repaint the whole prompt line.
pub open spec fn render_spec(
    m: EditorModel,
    key: Key,
    prompt: Seq<char>,
    hist: Seq<Seq<char>>,
) -> Seq<char> {
    let m2 = step_spec(m, key, hist).0;
    match key {
        Key::Printable(_) => {
            let tail = m2.buffer.subrange(m2.cursor - 1, m2.buffer.len() as int);
            if m2.cursor < m2.buffer.len() {
                tail + esc_left((m2.buffer.len() - m2.cursor) as nat)
            } else {
                tail
            }
        },
        Key::Backspace => if m.cursor > 0 {
            "\u{8}"@ + m2.buffer.subrange(m2.cursor, m2.buffer.len() as int) + " "@ + esc_left(
                (m2.buffer.len() - m2.cursor + 1) as nat,
            )
        } else {
            Seq::empty()
        },
        Key::ArrowLeft => if m.cursor > 0 {
            "\x1b[D"@
        } else {
            Seq::empty()
        },
        Key::ArrowRight => if m.cursor < m.buffer.len() {
            "\x1b[C"@
        } else {
            Seq::empty()
        },
        Key::ArrowUp => if m2.history_cursor is Some {
            "\r\x1b[K"@ + prompt + m2.buffer
        } else {
            Seq::empty()
        },
        Key::ArrowDown => if m.history_cursor is Some {
            "\r\x1b[K"@ + prompt + m2.buffer
        } else {
            Seq::empty()
        },
        Key::Enter => "\n"@,
        Key::Interrupt => if m.latch {
            "\r\nOperation cancelled.\n"@
        } else {
            Seq::empty()
        },
        Key::Other => Seq::empty(),
    }
}

/// Appends the characters of `v` from `a` (inclusive) to `b` (exclusive).
fn push_chars_range(out: &mut String, v: &Vec<char>, a: usize, b: usize)
    requires
        a <= b <= v@.len(),
    ensures
        final(out)@ == old(out)@ + v@.subrange(a as int, b as int),
{
    let mut i: usize = a;
    while i < b
        invariant
            a <= i <= b <= v@.len(),
            out@ == old(out)@ + v@.subrange(a as int, i as int),
        decreases b - i,
    {
        push_char(out, v[i]);
        i = i + 1;
        proof {
            assert(out@ =~= old(out)@ + v@.subrange(a as int, i as int));
        }
    }
    proof {
        assert(out@ =~= old(out)@ + v@.subrange(a as int, b as int));
    }
}

/// Appends the escape sequence that moves the cursor `n` columns left.
fn push_esc_left(out: &mut String, n: usize)
    ensures
        final(out)@ == old(out)@ + esc_left(n as nat),
{
    out.append("\x1b[");
    push_dec(out, n);
    out.append("D");
    proof {
        assert(out@ =~= old(out)@ + esc_left(n as nat));
    }
}

impl Editor {
    /// A fresh editor for one read operation.
    pub fn new() -> (r: Editor)
        ensures
            r@ == init_model(),
    {
        Editor { buffer: Vec::new(), cursor: 0, history_cursor: None, latch: false }
    }

    /// Apply one key event, following `step_spec` exactly.
    pub fn step(&mut self, key: Key, history: &Vec<String>) -> (r: Step)
        requires
            wf(old(self)@, history@.len() as int),
        ensures
            (final(self)@, r) == step_spec(old(self)@, key, hist_view(history@)),
            wf(final(self)@, history@.len() as int),
    {
        match key {
            Key::Printable(c) => {
                self.buffer.insert(self.cursor, c);
                let n = self.buffer.len();
                proof {
                    assert(self.cursor < n);
                }
                self.cursor = self.cursor + 1;
                self.history_cursor = None;
                self.latch = false;
                Step::Continue
            },
            Key::Enter => {
                self.latch = false;
                Step::Submitted
            },
            Key::Backspace => {
                if self.cursor > 0 {
                    self.cursor = self.cursor - 1;
                    self.buffer.remove(self.cursor);
                }
                self.latch = false;
                Step::Continue
            },
            Key::ArrowLeft => {
                if self.cursor > 0 {
                    self.cursor = self.cursor - 1;
                }
                self.latch = false;
                Step::Continue
            },
            Key::ArrowRight => {
                if self.cursor < self.buffer.len() {
                    self.cursor = self.cursor + 1;
                }
                self.latch = false;
                Step::Continue
            },
            Key::ArrowUp => {
                match self.history_cursor {
                    Some(i) => {
                        self.history_cursor = Some(if i > 0 { i - 1 } else { 0 });
                    },
                    None => {
                        if history.len() > 0 {
                            self.history_cursor = Some(history.len() - 1);
                        }
                    },
                }
                if let Some(i) = self.history_cursor {
                    proof {
                        assert(hist_view(history@)[i as int] == history@[i as int]@);
                    }
                    self.buffer = str_to_chars(history[i].as_str());
                    self.cursor = self.buffer.len();
                }
                self.latch = false;
                Step::Continue
            },
            Key::ArrowDown => {
                match self.history_cursor {
                    Some(i) => {
                        let hl = history.len();
                        proof {
                            assert(i < hl);
                        }
                        if i + 1 < hl {
                            proof {
                                assert(hist_view(history@)[i + 1] == history@[i + 1]@);
                            }
                            self.history_cursor = Some(i + 1);
                            self.buffer = str_to_chars(history[i + 1].as_str());
                            self.cursor = self.buffer.len();
                        } else {
                            self.history_cursor = None;
                            self.buffer = Vec::new();
                            self.cursor = 0;
                        }
                        self.latch = false;
                        Step::Continue
                    },
                    None => {
                        self.latch = false;
                        Step::Continue
                    },
                }
            },
            Key::Interrupt => {
                if self.latch {
                    Step::Cancelled
                } else {
                    self.latch = true;
                    Step::Continue
                }
            },
            Key::Other => Step::Continue,
        }
    }

    /// Apply one key event and also produce the exact redraw output that the
    /// terminal must be sent for it, following `render_spec`.
    pub fn step_render(&mut self, key: Key, prompt: &str, history: &Vec<String>) -> (r: (
        Step,
        String,
    ))
        requires
            wf(old(self)@, history@.len() as int),
        ensures
            (final(self)@, r.0) == step_spec(old(self)@, key, hist_view(history@)),
            wf(final(self)@, history@.len() as int),
            r.1@ == render_spec(old(self)@, key, prompt@, hist_view(history@)),
    {
        let pre_cursor = self.cursor;
        let pre_len = self.buffer.len();
        let pre_latch = self.latch;
        let pre_browsing = self.history_cursor.is_some();
        let st = self.step(key, history);
        let mut out = String::new();
        match key {
            Key::Printable(_) => {
                push_chars_range(&mut out, &self.buffer, self.cursor - 1, self.buffer.len());
                if self.cursor < self.buffer.len() {
                    push_esc_left(&mut out, self.buffer.len() - self.cursor);
                }
            },
            Key::Backspace => {
                if pre_cursor > 0 {
                    out.append("\u{8}");
                    push_chars_range(&mut out, &self.buffer, self.cursor, self.buffer.len());
                    out.append(" ");
                    push_esc_left(&mut out, self.buffer.len() - self.cursor + 1);
                }
            },
            Key::ArrowLeft => {
                if pre_cursor > 0 {
                    out.append("\x1b[D");
                }
            },
            Key::ArrowRight => {
                if pre_cursor < pre_len {
                    out.append("\x1b[C");
                }
            },
            Key::ArrowUp => {
                if self.history_cursor.is_some() {
                    out.append("\r\x1b[K");
                    out.append(prompt);
                    push_chars_range(&mut out, &self.buffer, 0, self.buffer.len());
                }
            },
            Key::ArrowDown => {
                if pre_browsing {
                    out.append("\r\x1b[K");
                    out.append(prompt);
                    push_chars_range(&mut out, &self.buffer, 0, self.buffer.len());
                }
            },
            Key::Enter => {
                out.append("\n");
            },
            Key::Interrupt => {
                if pre_latch {
                    out.append("\r\nOperation cancelled.\n");
                }
            },
            Key::Other => {},
        }
        proof {
            assert(out@ =~= render_spec(old(self)@, key, prompt@, hist_view(history@)));
        }
        (st, out)
    }

    /// The line composed so far, as a string.
    pub fn line(&self) -> (r: String)
        ensures
            r@ == self@.buffer,
    {
        chars_to_string(&self.buffer)
    }
}

/// One whole read operation over a scripted key sequence: start from
/// `start_model`, apply the keys in order until one submits or cancels the
/// read, and reset the history cursor, as every read does on return.
pub fn read_script(
    keys: &Vec<Key>,
    history: &Vec<String>,
    history_cursor: &mut Option<usize>,
) -> (r: ReadResult)
    ensures
        ({
            let hist = hist_view(history@);
            let hc0 = match *old(history_cursor) {
                Some(i) => Some(i as int),
                None => None,
            };
            let (fm, st) = run_spec(start_model(hist, hc0), keys@, hist);
            &&& match r {
                ReadResult::Line(s) => st == Step::Submitted && s@ == fm.buffer,
                ReadResult::Cancelled => st == Step::Cancelled,
                ReadResult::Pending => st == Step::Continue,
            }
            &&& *final(history_cursor) == None::<usize>
        }),
{
    let ghost hist = hist_view(history@);
    let ghost hc0 = match *history_cursor {
        Some(i) => Some(i as int),
        None => None,
    };
    let mut ed = Editor::new();
    match *history_cursor {
        Some(i) => {
            if i < history.len() {
                proof {
                    assert(hist[i as int] == history@[i as int]@);
                }
                ed.history_cursor = Some(i);
                ed.buffer = str_to_chars(history[i].as_str());
                ed.cursor = ed.buffer.len();
            }
        },
        None => {},
    }
    *history_cursor = None;
    proof {
        assert(ed@ == start_model(hist, hc0));
        assert(keys@.skip(0) =~= keys@);
    }
    let ghost start = start_model(hist, hc0);
    let mut k: usize = 0;
    while k < keys.len()
        invariant
            k <= keys@.len(),
            wf(ed@, history@.len() as int),
            hist == hist_view(history@),
            start == start_model(
                hist,
                match *old(history_cursor) {
                    Some(i) => Some(i as int),
                    None => None,
                },
            ),
            *history_cursor == None::<usize>,
            run_spec(start, keys@, hist) == run_spec(ed@, keys@.skip(k as int), hist),
        decreases keys@.len() - k,
    {
        let st = ed.step(keys[k], history);
        proof {
            assert(keys@.skip(k as int).len() == keys@.len() - k);
            assert(keys@.skip(k as int)[0] == keys@[k as int]);
            assert(keys@.skip(k as int).drop_first() =~= keys@.skip(k as int + 1));
            assert(run_spec(start, keys@, hist) == if st == Step::Continue {
                run_spec(ed@, keys@.skip(k as int + 1), hist)
            } else {
                (ed@, st)
            });
        }
        k = k + 1;
        match st {
            Step::Submitted => {
                return ReadResult::Line(ed.line());
            },
            Step::Cancelled => {
                return ReadResult::Cancelled;
            },
            Step::Continue => {},
        }
    }
    proof {
        assert(keys@.skip(keys@.len() as int) =~= Seq::<Key>::empty());
    }
    ReadResult::Pending
}

} // verus!
