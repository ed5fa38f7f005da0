//! The shell loop's decisions: recognizing the reserved exit and clear
//! commands, and keeping the history free of consecutive repeats.

use vstd::prelude::*;

use crate::text::str_eq;
use crate::text::strings_view;
use crate::text::trim_spec;
use crate::text::trim_str;

verus! {

/// Whether the trimmed line is a reserved exit token (`exit` or `quit`).
pub fn is_exit_command(line: &str) -> (r: bool)
    ensures
        r == (trim_spec(line@) == "exit"@ || trim_spec(line@) == "quit"@),
{
    let t = trim_str(line);
    str_eq(t.as_str(), "exit") || str_eq(t.as_str(), "quit")
}

/// Whether the trimmed line asks to clear the screen (`clear` or `cls`).
pub fn is_clear_command(line: &str) -> (r: bool)
    ensures
        r == (trim_spec(line@) == "clear"@ || trim_spec(line@) == "cls"@),
{
    let t = trim_str(line);
    str_eq(t.as_str(), "clear") || str_eq(t.as_str(), "cls")
}

/// The elements of `s` from `i` on, keeping each only when it differs from
/// its predecessor in `s`.
pub open spec fn dedup_from(s: Seq<Seq<char>>, i: int) -> Seq<Seq<char>>
    decreases s.len() - i,
{
    if i < 0 || i >= s.len() {
        Seq::empty()
    } else if i == 0 || s[i] != s[i - 1] {
        seq![s[i]] + dedup_from(s, i + 1)
    } else {
        dedup_from(s, i + 1)
    }
}

/// `s` with every element that repeats its predecessor removed: runs of equal
/// adjacent elements collapse to their first element.
pub open spec fn dedup_spec(s: Seq<Seq<char>>) -> Seq<Seq<char>> {
    dedup_from(s, 0)
}

/// A sequence without adjacent repeats is its own deduplication.
proof fn lemma_dedup_from_nodup(s: Seq<Seq<char>>, i: int)
    requires
        0 <= i <= s.len(),
        forall|j: int| 1 <= j < s.len() && i <= j ==> #[trigger] s[j] != s[j - 1],
    ensures
        dedup_from(s, i) == s.subrange(i, s.len() as int),
    decreases s.len() - i,
{
    if i >= s.len() {
        assert(s.subrange(i, s.len() as int) =~= Seq::<Seq<char>>::empty());
    } else {
        lemma_dedup_from_nodup(s, i + 1);
        assert(seq![s[i]] + s.subrange(i + 1, s.len() as int) =~= s.subrange(i, s.len() as int));
    }
}

/// Removing an element equal to its predecessor does not change what the
/// deduplication keeps from that point on.
proof fn lemma_dedup_from_shift(s: Seq<Seq<char>>, i: int, k: int)
    requires
        0 < i < s.len(),
        s[i] == s[i - 1],
        i <= k <= s.len() - 1,
    ensures
        dedup_from(s.remove(i), k) == dedup_from(s, k + 1),
    decreases s.len() - k,
{
    let t = s.remove(i);
    assert(t.len() == s.len() - 1);
    assert(forall|j: int| 0 <= j < i ==> t[j] == s[j]);
    assert(forall|j: int| i <= j < t.len() ==> t[j] == s[j + 1]);
    if k < t.len() {
        lemma_dedup_from_shift(s, i, k + 1);
        if k == i {
            assert(t[k - 1] == s[i - 1]);
            assert(t[k - 1] == s[k]);
        }
    }
}

/// Removing an element equal to its predecessor does not change the
/// deduplication.
proof fn lemma_dedup_remove(s: Seq<Seq<char>>, i: int, k: int)
    requires
        0 < i < s.len(),
        s[i] == s[i - 1],
        0 <= k <= i,
    ensures
        dedup_from(s.remove(i), k) == dedup_from(s, k),
    decreases i - k,
{
    let t = s.remove(i);
    assert(forall|j: int| 0 <= j < i ==> t[j] == s[j]);
    assert(forall|j: int| i <= j < t.len() ==> t[j] == s[j + 1]);
    if k == i {
        lemma_dedup_from_shift(s, i, k);
        assert(dedup_from(s, i) == dedup_from(s, i + 1));
    } else {
        lemma_dedup_remove(s, i, k + 1);
    }
}

/// Remove every history entry that repeats the entry just before it, in
/// place, following `dedup_spec`.
pub fn dedup_consecutive(v: &mut Vec<String>)
    ensures
        strings_view(final(v)@) == dedup_spec(strings_view(old(v)@)),
{
    let ghost s0 = strings_view(old(v)@);
    let mut index: usize = 1;
    while index < v.len()
        invariant
            1 <= index,
            v@.len() >= 1 ==> index <= v@.len(),
            v@.len() == 0 ==> index == 1,
            s0 == strings_view(old(v)@),
            forall|j: int| 1 <= j < index && j < v@.len() ==> (#[trigger] v@[j])@ != v@[j - 1]@,
            dedup_spec(strings_view(v@)) == dedup_spec(s0),
        decreases v@.len() - index,
    {
        if v[index].eq(&v[index - 1]) {
            let ghost before = strings_view(v@);
            v.remove(index);
            proof {
                assert(strings_view(v@) =~= before.remove(index as int));
                lemma_dedup_remove(before, index as int, 0);
            }
        } else {
            index = index + 1;
        }
    }
    proof {
        let s = strings_view(v@);
        assert(forall|j: int| 1 <= j < s.len() ==> #[trigger] s[j] != s[j - 1]) by {
            assert(forall|j: int| 1 <= j < v@.len() ==> (#[trigger] v@[j])@ != v@[j - 1]@);
        }
        lemma_dedup_from_nodup(s, 0);
        assert(s.subrange(0, s.len() as int) =~= s);
    }
}

} // verus!
