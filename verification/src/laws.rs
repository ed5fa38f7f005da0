//! The general laws of the line editor, each stated over the transition
//! function `step_spec` (or its fold `run_spec`) and proved once and for all.

use vstd::prelude::*;

use crate::editor::init_model;
use crate::editor::run_spec;
use crate::editor::step_spec;
use crate::editor::wf;
use crate::editor::EditorModel;
use crate::editor::Step;
use crate::keys::Key;

verus! {

/// Whether every event in `keys` is a printable character.
pub open spec fn all_printable(keys: Seq<Key>) -> bool {
    forall|i: int| 0 <= i < keys.len() ==> keys[i] is Printable
}

/// The characters carried by the printable events of `keys`, in order.
pub open spec fn printable_chars(keys: Seq<Key>) -> Seq<char>
    decreases keys.len(),
{
    if keys.len() == 0 {
        Seq::empty()
    } else {
        match keys[0] {
            Key::Printable(c) => seq![c] + printable_chars(keys.drop_first()),
            _ => printable_chars(keys.drop_first()),
        }
    }
}

/// Typing printable characters with the cursor at the end of the buffer
/// appends them in order, keeps the cursor at the end, and keeps editing.
proof fn lemma_printable_run_from(m: EditorModel, keys: Seq<Key>, hist: Seq<Seq<char>>)
    requires
        all_printable(keys),
        m.cursor == m.buffer.len(),
        m.cursor >= 0,
    ensures
        ({
            let (fm, st) = run_spec(m, keys, hist);
            &&& st == Step::Continue
            &&& fm.buffer == m.buffer + printable_chars(keys)
            &&& fm.cursor == fm.buffer.len()
        }),
    decreases keys.len(),
{
    if keys.len() == 0 {
        assert(m.buffer + printable_chars(keys) =~= m.buffer);
    } else {
        let c = match keys[0] {
            Key::Printable(cc) => cc,
            _ => arbitrary(),
        };
        let (m1, st1) = step_spec(m, keys[0], hist);
        assert(m1.buffer =~= m.buffer.push(c));
        assert(all_printable(keys.drop_first())) by {
            assert(forall|i: int|
                0 <= i < keys.drop_first().len() ==> keys.drop_first()[i] == keys[i + 1]);
        }
        lemma_printable_run_from(m1, keys.drop_first(), hist);
        assert(m.buffer.push(c) + printable_chars(keys.drop_first()) =~= m.buffer
            + printable_chars(keys));
    }
}

/// Law: a read that sees only printable-key events keeps editing, its final
/// buffer is exactly the typed characters in order, and its cursor offset
/// equals the buffer length.
pub proof fn lemma_printable_keys_type_the_line(keys: Seq<Key>, hist: Seq<Seq<char>>)
    requires
        all_printable(keys),
    ensures
        ({
            let (fm, st) = run_spec(init_model(), keys, hist);
            &&& st == Step::Continue
            &&& fm.buffer == printable_chars(keys)
            &&& fm.cursor == fm.buffer.len()
        }),
{
    lemma_printable_run_from(init_model(), keys, hist);
    assert(Seq::<char>::empty() + printable_chars(keys) =~= printable_chars(keys));
}

/// Law: backspace is the left inverse of insertion — typing a character and
/// then pressing backspace restores the buffer and the cursor offset to their
/// pre-insertion state.
pub proof fn lemma_backspace_undoes_insert(m: EditorModel, c: char, hist: Seq<Seq<char>>)
    requires
        wf(m, hist.len() as int),
    ensures
        ({
            let m1 = step_spec(m, Key::Printable(c), hist).0;
            let m2 = step_spec(m1, Key::Backspace, hist).0;
            &&& m2.buffer == m.buffer
            &&& m2.cursor == m.cursor
        }),
{
    let m1 = step_spec(m, Key::Printable(c), hist).0;
    assert(m1.buffer.remove(m.cursor) =~= m.buffer);
}

/// Law: from any offset strictly inside the buffer, ArrowLeft followed by
/// ArrowRight is a no-op on both the buffer content and the cursor offset.
pub proof fn lemma_left_right_round_trip(m: EditorModel, hist: Seq<Seq<char>>)
    requires
        wf(m, hist.len() as int),
        0 < m.cursor < m.buffer.len(),
    ensures
        ({
            let m1 = step_spec(m, Key::ArrowLeft, hist).0;
            let m2 = step_spec(m1, Key::ArrowRight, hist).0;
            &&& m2.buffer == m.buffer
            &&& m2.cursor == m.cursor
        }),
{
}

/// Law: history recall is idempotent at the oldest entry — when browsing at
/// the first history entry, whose text the buffer shows, another ArrowUp
/// leaves both the history cursor and the buffer unchanged.
pub proof fn lemma_up_at_oldest_idempotent(m: EditorModel, hist: Seq<Seq<char>>)
    requires
        wf(m, hist.len() as int),
        m.history_cursor == Some(0int),
        m.buffer == hist[0],
    ensures
        ({
            let m1 = step_spec(m, Key::ArrowUp, hist).0;
            &&& m1.history_cursor == Some(0int)
            &&& m1.buffer == m.buffer
        }),
{
}

/// Law: two consecutive interrupt events cancel the read — with the latch
/// clear, the first interrupt keeps editing and sets the latch, and a second
/// interrupt straight after it cancels.
pub proof fn lemma_double_interrupt_cancels(m: EditorModel, hist: Seq<Seq<char>>)
    ensures
        m.latch ==> step_spec(m, Key::Interrupt, hist).1 == Step::Cancelled,
        !m.latch ==> ({
            let (m1, s1) = step_spec(m, Key::Interrupt, hist);
            &&& s1 == Step::Continue
            &&& m1.latch
            &&& step_spec(m1, Key::Interrupt, hist).1 == Step::Cancelled
        }),
{
}

/// Law: a read whose next two events are both interrupts is cancelled,
/// whatever state it is in and whatever events would have followed.
pub proof fn lemma_double_interrupt_cancels_the_read(
    m: EditorModel,
    keys: Seq<Key>,
    hist: Seq<Seq<char>>,
)
    requires
        keys.len() >= 2,
        keys[0] is Interrupt,
        keys[1] is Interrupt,
    ensures
        run_spec(m, keys, hist).1 == Step::Cancelled,
{
    let (m1, s1) = step_spec(m, keys[0], hist);
    if s1 == Step::Continue {
        assert(m1.latch);
        assert(keys.drop_first()[0] == keys[1]);
        assert(step_spec(m1, keys[1], hist).1 == Step::Cancelled);
        assert(run_spec(m1, keys.drop_first(), hist).1 == Step::Cancelled);
        assert(run_spec(m, keys, hist) == run_spec(m1, keys.drop_first(), hist));
    } else {
        assert(run_spec(m, keys, hist) == (m1, s1));
    }
}

/// Law: an interrupt separated from the next interrupt by any consumed key
/// does not cancel — the key in between clears the latch, so the two
/// interrupts act as two independent single latches.
pub proof fn lemma_interrupt_interleaved_does_not_cancel(
    m: EditorModel,
    k: Key,
    hist: Seq<Seq<char>>,
)
    requires
        !m.latch,
        !(k is Interrupt),
        !(k is Other),
    ensures
        ({
            let m1 = step_spec(m, Key::Interrupt, hist).0;
            let m2 = step_spec(m1, k, hist).0;
            &&& !m2.latch
            &&& step_spec(m2, Key::Interrupt, hist).1 == Step::Continue
        }),
{
}

} // verus!
