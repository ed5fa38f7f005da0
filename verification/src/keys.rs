//! Key events and the decoder from raw terminal bytes to key events.
//!
//! A raw-mode terminal delivers keystrokes as bytes: printable characters as
//! themselves, control keys as control bytes, and navigation keys as ANSI
//! escape sequences (`ESC [ A` through `ESC [ D`). The decoder here is a pure
//! function from a byte stream to tagged key events, so it can be driven by a
//! scripted byte source as well as by a live terminal.

use vstd::prelude::*;

verus! {

/// A decoded unit of input: a character, or a named control/navigation key.
///
/// Unrecognized byte sequences decode to `Other`, which the editor ignores.
#[derive(Clone, Copy, Debug, PartialEq, Eq, Structural)]
pub enum Key {
    Printable(char),
    Enter,
    Backspace,
    ArrowLeft,
    ArrowRight,
    ArrowUp,
    ArrowDown,
    Interrupt,
    Other,
}

/// The key event that the bytes at the front of `s` decode to, and how many
/// bytes it consumes (always at least one, never more than `s` holds).
///
/// Carriage return and line feed are Enter; DEL is Backspace; ETX (control-C)
/// is the interrupt; `ESC [ A` through `ESC [ D` are the arrows; printable
/// ASCII is itself; everything else, including any other escape sequence, is
/// `Other`.
pub open spec fn decode_one_spec(s: Seq<u8>) -> (Key, int)
    recommends
        s.len() > 0,
{
    let b = s[0];
    if b == 0x0d || b == 0x0a {
        (Key::Enter, 1)
    } else if b == 0x7f {
        (Key::Backspace, 1)
    } else if b == 0x03 {
        (Key::Interrupt, 1)
    } else if b == 0x1b {
        if s.len() >= 2 && s[1] == 0x5b {
            if s.len() >= 3 {
                if s[2] == 0x41 {
                    (Key::ArrowUp, 3)
                } else if s[2] == 0x42 {
                    (Key::ArrowDown, 3)
                } else if s[2] == 0x43 {
                    (Key::ArrowRight, 3)
                } else if s[2] == 0x44 {
                    (Key::ArrowLeft, 3)
                } else {
                    (Key::Other, 3)
                }
            } else {
                (Key::Other, 2)
            }
        } else if s.len() >= 2 {
            (Key::Other, 2)
        } else {
            (Key::Other, 1)
        }
    } else if 0x20 <= b && b <= 0x7e {
        (Key::Printable(b as char), 1)
    } else {
        (Key::Other, 1)
    }
}

/// The key events that a whole byte stream decodes to, in order.
pub open spec fn decode_spec(s: Seq<u8>) -> Seq<Key>
    decreases s.len(),
{
    if s.len() == 0 {
        Seq::empty()
    } else {
        let (k, n) = decode_one_spec(s);
        seq![k] + decode_spec(s.skip(n))
    }
}

/// Decode the single key event starting at `pos`, following
/// `decode_one_spec`; returns the event and how many bytes it consumed.
pub fn decode_one(bytes: &Vec<u8>, pos: usize) -> (r: (Key, usize))
    requires
        pos < bytes@.len(),
    ensures
        ({
            let (k, n) = decode_one_spec(bytes@.skip(pos as int));
            &&& r.0 == k
            &&& r.1 as int == n
            &&& 1 <= n
            &&& pos + n <= bytes@.len()
        }),
{
    let ghost tail = bytes@.skip(pos as int);
    proof {
        assert(tail[0] == bytes@[pos as int]);
    }
    let len = bytes.len();
    let b = bytes[pos];
    if b == 0x0d || b == 0x0a {
        (Key::Enter, 1)
    } else if b == 0x7f {
        (Key::Backspace, 1)
    } else if b == 0x03 {
        (Key::Interrupt, 1)
    } else if b == 0x1b {
        if pos + 1 < len && bytes[pos + 1] == 0x5b {
            proof {
                assert(tail[1] == bytes@[pos + 1]);
            }
            if pos + 2 < len {
                proof {
                    assert(tail[2] == bytes@[pos + 2]);
                }
                let b2 = bytes[pos + 2];
                if b2 == 0x41 {
                    (Key::ArrowUp, 3)
                } else if b2 == 0x42 {
                    (Key::ArrowDown, 3)
                } else if b2 == 0x43 {
                    (Key::ArrowRight, 3)
                } else if b2 == 0x44 {
                    (Key::ArrowLeft, 3)
                } else {
                    (Key::Other, 3)
                }
            } else {
                (Key::Other, 2)
            }
        } else if pos + 1 < len {
            proof {
                assert(tail[1] == bytes@[pos + 1]);
            }
            (Key::Other, 2)
        } else {
            (Key::Other, 1)
        }
    } else if 0x20 <= b && b <= 0x7e {
        (Key::Printable(b as char), 1)
    } else {
        (Key::Other, 1)
    }
}

/// Decode a whole byte stream into key events, following `decode_spec`.
pub fn decode_keys(bytes: &Vec<u8>) -> (r: Vec<Key>)
    ensures
        r@ == decode_spec(bytes@),
{
    let mut r: Vec<Key> = Vec::new();
    let mut pos: usize = 0;
    proof {
        assert(bytes@.skip(0) =~= bytes@);
        assert(r@ + decode_spec(bytes@) =~= decode_spec(bytes@));
    }
    while pos < bytes.len()
        invariant
            pos <= bytes@.len(),
            decode_spec(bytes@) == r@ + decode_spec(bytes@.skip(pos as int)),
        decreases bytes@.len() - pos,
    {
        let (k, n) = decode_one(bytes, pos);
        r.push(k);
        proof {
            assert(bytes@.skip(pos as int).skip(n as int) =~= bytes@.skip(pos as int + n as int));
            assert(decode_spec(bytes@) =~= r@ + decode_spec(bytes@.skip(pos as int + n as int)));
        }
        pos = pos + n;
    }
    proof {
        assert(decode_spec(bytes@) =~= r@);
    }
    r
}

} // verus!
