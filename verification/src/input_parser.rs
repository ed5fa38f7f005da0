//! Turning an accepted line into the argument vector of a git invocation:
//! splitting on `&&` into separate commands, stripping a needless `git `
//! prefix, and tokenizing a command into arguments, where a double-quoted
//! piece is one argument and quotes are stripped.

use vstd::prelude::*;

use crate::text::chars_to_string;
use crate::text::is_space;
use crate::text::is_space_char;
use crate::text::str_eq;
use crate::text::str_to_chars;
use crate::text::strings_view;
use crate::text::subvec;
use crate::text::trim_spec;
use crate::text::trim_vec;

verus! {

/// The first index at or after `i` holding `c`, or -1 if there is none.
pub open spec fn find_from(s: Seq<char>, c: char, i: int) -> int
    decreases s.len() - i,
{
    if i < 0 || i >= s.len() {
        -1
    } else if s[i] == c {
        i
    } else {
        find_from(s, c, i + 1)
    }
}

/// Full characterization of `find_from`.
pub proof fn lemma_find_from(s: Seq<char>, c: char, i: int)
    requires
        0 <= i <= s.len(),
    ensures
        find_from(s, c, i) == -1 ==> (forall|j: int| i <= j < s.len() ==> s[j] != c),
        find_from(s, c, i) != -1 ==> {
            let k = find_from(s, c, i);
            &&& i <= k < s.len()
            &&& s[k] == c
            &&& forall|j: int| i <= j < k ==> s[j] != c
        },
    decreases s.len() - i,
{
    if i < s.len() && s[i] != c {
        lemma_find_from(s, c, i + 1);
    }
}

/// The end of the run of non-whitespace characters starting at `i`: the first
/// index at or after `i` that holds whitespace, or the end of the sequence.
pub open spec fn token_end(s: Seq<char>, i: int) -> int
    decreases s.len() - i,
{
    if i < 0 || i >= s.len() || is_space_char(s[i]) {
        i
    } else {
        token_end(s, i + 1)
    }
}

/// Full characterization of `token_end`.
pub proof fn lemma_token_end(s: Seq<char>, i: int)
    requires
        0 <= i <= s.len(),
    ensures
        i <= token_end(s, i) <= s.len(),
        forall|j: int| i <= j < token_end(s, i) ==> !is_space_char(s[j]),
        token_end(s, i) < s.len() ==> is_space_char(s[token_end(s, i)]),
    decreases s.len() - i,
{
    if i < s.len() && !is_space_char(s[i]) {
        lemma_token_end(s, i + 1);
    }
}

/// The sequence with leading `"` characters removed.
pub open spec fn trim_start_quotes(s: Seq<char>) -> Seq<char>
    decreases s.len(),
{
    if s.len() > 0 && s[0] == '"' {
        trim_start_quotes(s.drop_first())
    } else {
        s
    }
}

/// The sequence with trailing `"` characters removed.
pub open spec fn trim_end_quotes(s: Seq<char>) -> Seq<char>
    decreases s.len(),
{
    if s.len() > 0 && s.last() == '"' {
        trim_end_quotes(s.drop_last())
    } else {
        s
    }
}

/// The sequence with `"` characters removed from both ends.
pub open spec fn trim_quotes(s: Seq<char>) -> Seq<char> {
    trim_end_quotes(trim_start_quotes(s))
}

proof fn lemma_trim_start_quotes_at(s: Seq<char>, a: int)
    requires
        0 <= a <= s.len(),
        forall|j: int| 0 <= j < a ==> s[j] == '"',
        a < s.len() ==> s[a] != '"',
    ensures
        trim_start_quotes(s) == s.subrange(a, s.len() as int),
    decreases a,
{
    if a == 0 {
        assert(s.subrange(0, s.len() as int) =~= s);
    } else {
        let t = s.drop_first();
        assert(forall|j: int| 0 <= j < a - 1 ==> t[j] == '"');
        lemma_trim_start_quotes_at(t, a - 1);
        assert(t.subrange(a - 1, t.len() as int) =~= s.subrange(a, s.len() as int));
    }
}

proof fn lemma_trim_end_quotes_at(s: Seq<char>, b: int)
    requires
        0 <= b <= s.len(),
        forall|j: int| b <= j < s.len() ==> s[j] == '"',
        b > 0 ==> s[b - 1] != '"',
    ensures
        trim_end_quotes(s) == s.subrange(0, b),
    decreases s.len() - b,
{
    if b == s.len() {
        assert(s.subrange(0, s.len() as int) =~= s);
    } else {
        let t = s.drop_last();
        assert(forall|j: int| b <= j < t.len() ==> t[j] == '"');
        lemma_trim_end_quotes_at(t, b);
        assert(t.subrange(0, b) =~= s.subrange(0, b));
    }
}

/// The characters of `v` with `"` removed from both ends.
pub fn trim_quotes_vec(v: &Vec<char>) -> (r: Vec<char>)
    ensures
        r@ == trim_quotes(v@),
{
    let n = v.len();
    let mut a: usize = 0;
    while a < n && v[a] == '"'
        invariant
            a <= n,
            n == v@.len(),
            forall|j: int| 0 <= j < a ==> v@[j] == '"',
        decreases n - a,
    {
        a = a + 1;
    }
    let mut b: usize = n;
    while b > a && v[b - 1] == '"'
        invariant
            a <= b <= n,
            n == v@.len(),
            forall|j: int| b <= j < n ==> v@[j] == '"',
        decreases b,
    {
        b = b - 1;
    }
    proof {
        lemma_trim_start_quotes_at(v@, a as int);
        let t = v@.subrange(a as int, n as int);
        assert(forall|j: int| b - a <= j < t.len() ==> t[j] == '"');
        lemma_trim_end_quotes_at(t, b - a);
        assert(t.subrange(0, b - a) =~= v@.subrange(a as int, b as int));
    }
    subvec(v, a, b)
}

/// The arguments of a command line from position `i` on. Whitespace separates
/// arguments; a `"` with a closing `"` yields the text between them as one
/// argument; any other run of non-whitespace characters is one argument with
/// leading and trailing `"` stripped.
pub open spec fn tokenize_from(s: Seq<char>, i: int) -> Seq<Seq<char>>
    decreases s.len() - i,
{
    if i < 0 || i >= s.len() {
        Seq::empty()
    } else if is_space_char(s[i]) {
        tokenize_from(s, i + 1)
    } else if s[i] == '"' && find_from(s, '"', i + 1) != -1 {
        proof {
            lemma_find_from(s, '"', i + 1);
        }
        let j = find_from(s, '"', i + 1);
        seq![s.subrange(i + 1, j)] + tokenize_from(s, j + 1)
    } else {
        proof {
            lemma_token_end(s, i + 1);
        }
        seq![trim_quotes(s.subrange(i, token_end(s, i)))] + tokenize_from(s, token_end(s, i))
    }
}

/// The arguments of a whole command line.
pub open spec fn tokenize_spec(s: Seq<char>) -> Seq<Seq<char>> {
    tokenize_from(s, 0)
}

/// The first index at or after `i` where `&&` begins, or -1 if there is none.
pub open spec fn find_andand_from(s: Seq<char>, i: int) -> int
    decreases s.len() - i,
{
    if i < 0 || i + 1 >= s.len() {
        -1
    } else if s[i] == '&' && s[i + 1] == '&' {
        i
    } else {
        find_andand_from(s, i + 1)
    }
}

/// Full characterization of `find_andand_from`.
pub proof fn lemma_find_andand_from(s: Seq<char>, i: int)
    requires
        0 <= i,
    ensures
        find_andand_from(s, i) != -1 ==> {
            let k = find_andand_from(s, i);
            &&& i <= k
            &&& k + 1 < s.len()
            &&& s[k] == '&' && s[k + 1] == '&'
        },
    decreases s.len() - i,
{
    if i + 1 < s.len() && !(s[i] == '&' && s[i + 1] == '&') {
        lemma_find_andand_from(s, i + 1);
    }
}

/// The `&&`-separated commands of the line from `i` on, each trimmed.
pub open spec fn split_commands_from(s: Seq<char>, i: int) -> Seq<Seq<char>>
    decreases s.len() - i,
{
    if i < 0 || i > s.len() {
        Seq::empty()
    } else {
        let k = find_andand_from(s, i);
        if k == -1 {
            seq![trim_spec(s.subrange(i, s.len() as int))]
        } else {
            proof {
                lemma_find_andand_from(s, i);
            }
            seq![trim_spec(s.subrange(i, k))] + split_commands_from(s, k + 2)
        }
    }
}

/// The `&&`-separated commands of a whole line, each trimmed, in order.
pub open spec fn split_commands_spec(s: Seq<char>) -> Seq<Seq<char>> {
    split_commands_from(s, 0)
}

/// The first position at or after `start` holding `c`, following `find_from`.
fn find_char_from(v: &Vec<char>, c: char, start: usize) -> (r: Option<usize>)
    requires
        start <= v@.len(),
    ensures
        match r {
            Some(k) => start <= k < v@.len() && find_from(v@, c, start as int) == k as int,
            None => find_from(v@, c, start as int) == -1,
        },
{
    let mut j = start;
    while j < v.len()
        invariant
            start <= j <= v@.len(),
            find_from(v@, c, start as int) == find_from(v@, c, j as int),
        decreases v@.len() - j,
    {
        if v[j] == c {
            return Some(j);
        }
        j = j + 1;
    }
    None
}

/// The end of the non-whitespace run starting at `start`, following
/// `token_end`.
fn token_end_at(v: &Vec<char>, start: usize) -> (r: usize)
    requires
        start <= v@.len(),
    ensures
        r as int == token_end(v@, start as int),
        start <= r <= v@.len(),
{
    let mut j = start;
    while j < v.len() && !is_space(v[j])
        invariant
            start <= j <= v@.len(),
            token_end(v@, start as int) == token_end(v@, j as int),
        decreases v@.len() - j,
    {
        j = j + 1;
    }
    proof {
        lemma_token_end(v@, start as int);
    }
    j
}

/// Split a command into its arguments, following `tokenize_spec`: quoted
/// pieces are single arguments without their quotes, and every other
/// non-whitespace run is an argument with outer `"` stripped.
pub fn tokenize_args(line: &str) -> (r: Vec<String>)
    ensures
        strings_view(r@) == tokenize_spec(line@),
{
    let cs = str_to_chars(line);
    let n = cs.len();
    let mut r: Vec<String> = Vec::new();
    proof {
        assert(strings_view(r@) + tokenize_from(line@, 0) =~= tokenize_from(line@, 0));
    }
    let mut i: usize = 0;
    while i < n
        invariant
            i <= n,
            n == cs@.len(),
            cs@ == line@,
            tokenize_from(line@, 0) == strings_view(r@) + tokenize_from(line@, i as int),
        decreases n - i,
    {
        if is_space(cs[i]) {
            i = i + 1;
        } else {
            let quote_end: Option<usize> = if cs[i] == '"' {
                find_char_from(&cs, '"', i + 1)
            } else {
                None
            };
            match quote_end {
                Some(j) => {
                    let piece = chars_to_string(&subvec(&cs, i + 1, j));
                    r.push(piece);
                    proof {
                        assert(strings_view(r@) =~= strings_view(r@.drop_last()) + seq![
                            line@.subrange(i + 1, j as int),
                        ]);
                        assert(strings_view(r@) + tokenize_from(line@, j as int + 1)
                            =~= strings_view(r@.drop_last()) + tokenize_from(line@, i as int));
                    }
                    i = j + 1;
                },
                None => {
                    let e = token_end_at(&cs, i);
                    proof {
                        lemma_token_end(line@, i as int + 1);
                        assert(token_end(line@, i as int) == token_end(line@, i as int + 1));
                    }
                    let piece = chars_to_string(&trim_quotes_vec(&subvec(&cs, i, e)));
                    r.push(piece);
                    proof {
                        assert(strings_view(r@) =~= strings_view(r@.drop_last()) + seq![
                            trim_quotes(line@.subrange(i as int, e as int)),
                        ]);
                        assert(strings_view(r@) + tokenize_from(line@, e as int) =~= strings_view(
                            r@.drop_last(),
                        ) + tokenize_from(line@, i as int));
                    }
                    i = e;
                },
            }
        }
    }
    proof {
        assert(strings_view(r@) + tokenize_from(line@, n as int) =~= strings_view(r@));
    }
    r
}

/// The first position at or after `start` where `&&` begins, following
/// `find_andand_from`.
fn find_andand_at(v: &Vec<char>, start: usize) -> (r: Option<usize>)
    requires
        start <= v@.len(),
    ensures
        match r {
            Some(k) => start <= k && k + 1 < v@.len() && find_andand_from(v@, start as int)
                == k as int,
            None => find_andand_from(v@, start as int) == -1,
        },
{
    let mut j = start;
    while j < v.len() && j + 1 < v.len()
        invariant
            start <= j,
            j <= v@.len(),
            find_andand_from(v@, start as int) == find_andand_from(v@, j as int),
        decreases v@.len() - j,
    {
        if v[j] == '&' && v[j + 1] == '&' {
            return Some(j);
        }
        j = j + 1;
    }
    None
}

/// Split a line at every `&&` into commands, each trimmed, following
/// `split_commands_spec`.
pub fn split_commands(line: &str) -> (r: Vec<String>)
    ensures
        strings_view(r@) == split_commands_spec(line@),
{
    let cs = str_to_chars(line);
    let n = cs.len();
    let mut r: Vec<String> = Vec::new();
    proof {
        assert(strings_view(r@) + split_commands_from(line@, 0) =~= split_commands_from(line@, 0));
    }
    let mut i: usize = 0;
    let mut go = true;
    while go
        invariant
            n == cs@.len(),
            cs@ == line@,
            i <= n,
            go ==> split_commands_from(line@, 0) == strings_view(r@) + split_commands_from(
                line@,
                i as int,
            ),
            !go ==> strings_view(r@) == split_commands_from(line@, 0),
        decreases (if go {
            1int
        } else {
            0int
        }), n - i,
    {
        match find_andand_at(&cs, i) {
            Some(k) => {
                let piece = chars_to_string(&trim_vec(&subvec(&cs, i, k)));
                r.push(piece);
                proof {
                    assert(strings_view(r@) =~= strings_view(r@.drop_last()) + seq![
                        trim_spec(line@.subrange(i as int, k as int)),
                    ]);
                    assert(strings_view(r@) + split_commands_from(line@, k as int + 2)
                        =~= strings_view(r@.drop_last()) + split_commands_from(line@, i as int));
                }
                i = k + 2;
            },
            None => {
                let piece = chars_to_string(&trim_vec(&subvec(&cs, i, n)));
                r.push(piece);
                proof {
                    assert(strings_view(r@) =~= strings_view(r@.drop_last()) + seq![
                        trim_spec(line@.subrange(i as int, n as int)),
                    ]);
                }
                go = false;
            },
        }
    }
    r
}

/// Whether the line starts with the needless `git ` prefix.
pub open spec fn has_git_prefix(s: Seq<char>) -> bool {
    s.len() >= 4 && s.subrange(0, 4) == "git "@
}

/// The line with a leading `git ` removed, since the shell supplies git
/// itself.
pub open spec fn strip_git_spec(s: Seq<char>) -> Seq<char> {
    if has_git_prefix(s) {
        s.subrange(4, s.len() as int)
    } else {
        s
    }
}

/// Remove a leading `git ` from the line if it has one; also says whether it
/// did, so the caller can tell the user the prefix is not needed.
pub fn strip_git_prefix(line: &str) -> (r: (String, bool))
    ensures
        r.0@ == strip_git_spec(line@),
        r.1 == has_git_prefix(line@),
{
    let cs = str_to_chars(line);
    let n = cs.len();
    proof {
        reveal_strlit("git ");
    }
    if n >= 4 && cs[0] == 'g' && cs[1] == 'i' && cs[2] == 't' && cs[3] == ' ' {
        proof {
            assert(line@.subrange(0, 4) =~= "git "@);
        }
        (chars_to_string(&subvec(&cs, 4, n)), true)
    } else {
        proof {
            if n >= 4 && line@.subrange(0, 4) == "git "@ {
                assert(line@.subrange(0, 4)[0] == 'g');
                assert(line@.subrange(0, 4)[1] == 'i');
                assert(line@.subrange(0, 4)[2] == 't');
                assert(line@.subrange(0, 4)[3] == ' ');
                assert(false);
            }
        }
        (chars_to_string(&cs), false)
    }
}

/// Whether the argument vector is exactly the single word `setup`, which
/// starts the configuration wizard instead of a git command.
pub fn is_setup_command(args: &Vec<String>) -> (r: bool)
    ensures
        r == (args@.len() == 1 && args@[0]@ == "setup"@),
{
    args.len() == 1 && str_eq(args[0].as_str(), "setup")
}

} // verus!
