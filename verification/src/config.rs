//! The configuration wizard's data and decisions: the table of git settings
//! the wizard walks through, and the pure readings of each prompt reply. The
//! prompting itself is I/O and lives outside the library.

use vstd::prelude::*;

use crate::text::split_char;
use crate::text::split_char_spec;
use crate::text::str_eq;
use crate::text::strings_view;
use crate::text::trim_spec;
use crate::text::trim_str;

verus! {

/// One setting the wizard offers: its display name, an example value, a
/// description, the usual values, and the `git config` key it sets.
#[derive(Debug)]
pub struct GitConfigEntry {
    pub title: String,
    pub example: String,
    pub description: String,
    pub possibles: Vec<String>,
    pub identifier: String,
}

/// The fixed table of settings the wizard offers, in order.
#[derive(Debug)]
pub struct GitConfigSettings {
    pub settings: Vec<GitConfigEntry>,
}

/// The `git config` keys of the wizard's table, in order.
pub open spec fn settings_keys() -> Seq<Seq<char>> {
    seq![
        "user.name"@,
        "user.email"@,
        "pull.rebase"@,
        "core.editor"@,
        "core.autocrlf"@,
        "core.ignorecase"@,
        "core.filemode"@,
        "merge.tool"@,
        "diff.tool"@,
        "commit.gpgSign"@,
        "init.defaultBranch"@,
        "push.default"@,
        "fetch.prune"@,
        "core.pager"@,
    ]
}

/// The example value of each table entry, in order; the wizard offers it as
/// the default.
pub open spec fn settings_examples() -> Seq<Seq<char>> {
    seq![
        "Your Name"@,
        "youremail@example.com"@,
        "true"@,
        "vim"@,
        "false"@,
        "true"@,
        "true"@,
        "vimdiff"@,
        "vimdiff"@,
        "false"@,
        "main"@,
        "simple"@,
        "false"@,
        "less"@,
    ]
}

fn entry(
    title: &str,
    example: &str,
    description: &str,
    possibles: Vec<String>,
    identifier: &str,
) -> (r: GitConfigEntry)
    ensures
        r.title@ == title@,
        r.example@ == example@,
        r.description@ == description@,
        r.possibles == possibles,
        r.identifier@ == identifier@,
{
    GitConfigEntry {
        title: title.to_owned(),
        example: example.to_owned(),
        description: description.to_owned(),
        possibles,
        identifier: identifier.to_owned(),
    }
}

fn one_value(a: &str) -> (r: Vec<String>)
    ensures
        strings_view(r@) == seq![a@],
{
    let mut v: Vec<String> = Vec::new();
    v.push(a.to_owned());
    proof {
        assert(strings_view(v@) =~= seq![a@]);
    }
    v
}

fn two_values(a: &str, b: &str) -> (r: Vec<String>)
    ensures
        strings_view(r@) == seq![a@, b@],
{
    let mut v: Vec<String> = Vec::new();
    v.push(a.to_owned());
    v.push(b.to_owned());
    proof {
        assert(strings_view(v@) =~= seq![a@, b@]);
    }
    v
}

fn three_values(a: &str, b: &str, c: &str) -> (r: Vec<String>)
    ensures
        strings_view(r@) == seq![a@, b@, c@],
{
    let mut v: Vec<String> = Vec::new();
    v.push(a.to_owned());
    v.push(b.to_owned());
    v.push(c.to_owned());
    proof {
        assert(strings_view(v@) =~= seq![a@, b@, c@]);
    }
    v
}

impl GitConfigSettings {
    /// The wizard's table: fourteen settings, each with its `git config` key
    /// and its example value, in the fixed order `settings_keys` gives.
    pub fn new() -> (r: GitConfigSettings)
        ensures
            r.settings@.len() == settings_keys().len(),
            forall|i: int|
                0 <= i < r.settings@.len() ==> r.settings@[i].identifier@ == settings_keys()[i],
            forall|i: int|
                0 <= i < r.settings@.len() ==> r.settings@[i].example@ == settings_examples()[i],
    {
        let mut settings: Vec<GitConfigEntry> = Vec::new();
        settings.push(
            entry(
                "Git User Name",
                "Your Name",
                "Sets the name to be associated with Git commits.",
                one_value("Your Name"),
                "user.name",
            ),
        );
        settings.push(
            entry(
                "Git User Email",
                "youremail@example.com",
                "Sets the email to be associated with Git commits.",
                one_value("youremail@example.com"),
                "user.email",
            ),
        );
        settings.push(
            entry(
                "Git Pull Rebase",
                "true",
                "Controls whether `git pull` uses rebase instead of merge.",
                three_values("true", "false", "ff-only"),
                "pull.rebase",
            ),
        );
        settings.push(
            entry(
                "Git Editor",
                "vim",
                "Sets the default editor for Git commands.",
                three_values("vim", "nano", "code"),
                "core.editor",
            ),
        );
        settings.push(
            entry(
                "Core Auto CRLF",
                "false",
                "Controls automatic conversion of CRLF line endings.",
                three_values("true", "false", "input"),
                "core.autocrlf",
            ),
        );
        settings.push(
            entry(
                "Core Ignore Case",
                "true",
                "Configures case sensitivity in file names on the filesystem.",
                two_values("true", "false"),
                "core.ignorecase",
            ),
        );
        settings.push(
            entry(
                "Core File Mode",
                "true",
                "Controls the tracking of file mode changes (permissions).",
                two_values("true", "false"),
                "core.filemode",
            ),
        );
        settings.push(
            entry(
                "Merge Tool",
                "vimdiff",
                "Sets the merge tool used for resolving conflicts.",
                three_values("vimdiff", "meld", "kdiff3"),
                "merge.tool",
            ),
        );
        settings.push(
            entry(
                "Diff Tool",
                "vimdiff",
                "Sets the diff tool used for comparing changes.",
                three_values("vimdiff", "meld", "kdiff3"),
                "diff.tool",
            ),
        );
        settings.push(
            entry(
                "Commit GPG Sign",
                "false",
                "Configures whether to sign commits with a GPG key.",
                two_values("true", "false"),
                "commit.gpgSign",
            ),
        );
        settings.push(
            entry(
                "Init Default Branch",
                "main",
                "Sets the default branch name when initializing a new repository.",
                two_values("main", "master"),
                "init.defaultBranch",
            ),
        );
        settings.push(
            entry(
                "Push Default",
                "simple",
                "Determines the behavior of `git push` when no refspec is specified.",
                three_values("simple", "current", "matching"),
                "push.default",
            ),
        );
        settings.push(
            entry(
                "Fetch Prune",
                "false",
                "Controls whether `git fetch` automatically prunes deleted branches.",
                two_values("true", "false"),
                "fetch.prune",
            ),
        );
        settings.push(
            entry(
                "Core Pager",
                "less",
                "Sets the pager program used to view Git output.",
                two_values("less", "more"),
                "core.pager",
            ),
        );
        GitConfigSettings { settings }
    }
}

/// The scope one menu choice selects when importing existing configuration:
/// `1` is local, `2` global, `3` system, `4` none; anything else is invalid.
pub open spec fn choice_scope(t: Seq<char>) -> Option<Seq<char>> {
    if t == "1"@ {
        Some("local"@)
    } else if t == "2"@ {
        Some("global"@)
    } else if t == "3"@ {
        Some("system"@)
    } else if t == "4"@ {
        Some("none"@)
    } else {
        None
    }
}

/// The scopes a list of menu choices selects, each choice trimmed; `None` as
/// soon as any choice is invalid.
pub open spec fn choices_of(parts: Seq<Seq<char>>) -> Option<Seq<Seq<char>>>
    decreases parts.len(),
{
    if parts.len() == 0 {
        Some(Seq::empty())
    } else {
        match choice_scope(trim_spec(parts[0])) {
            Some(sc) => match choices_of(parts.drop_first()) {
                Some(rest) => Some(seq![sc] + rest),
                None => None,
            },
            None => None,
        }
    }
}

/// The scopes a comma-separated reply to the import menu selects, or `None`
/// when any entry of the list is invalid.
pub open spec fn import_choices_spec(s: Seq<char>) -> Option<Seq<Seq<char>>> {
    choices_of(split_char_spec(s, ','))
}

/// Read a comma-separated reply to the import menu, following
/// `import_choices_spec`: the selected scope names, or `None` when any entry
/// is invalid and the wizard must ask again.
pub fn parse_import_choices(input: &str) -> (r: Option<Vec<String>>)
    ensures
        match r {
            Some(v) => import_choices_spec(input@) == Some(strings_view(v@)),
            None => import_choices_spec(input@) is None,
        },
{
    let parts = split_char(input, ',');
    let ghost ps = strings_view(parts@);
    let mut out: Vec<String> = Vec::new();
    proof {
        assert(ps.skip(0) =~= ps);
    }
    let mut i: usize = 0;
    while i < parts.len()
        invariant
            i <= parts@.len(),
            ps == strings_view(parts@),
            import_choices_spec(input@) == choices_of(ps),
            choices_of(ps) == match choices_of(ps.skip(i as int)) {
                Some(rest) => Some(strings_view(out@) + rest),
                None => None::<Seq<Seq<char>>>,
            },
        decreases parts@.len() - i,
    {
        proof {
            assert(ps.skip(i as int)[0] == ps[i as int]);
            assert(ps[i as int] == parts@[i as int]@);
            assert(ps.skip(i as int).drop_first() =~= ps.skip(i as int + 1));
        }
        let t = trim_str(parts[i].as_str());
        let scope: &str = if str_eq(t.as_str(), "1") {
            "local"
        } else if str_eq(t.as_str(), "2") {
            "global"
        } else if str_eq(t.as_str(), "3") {
            "system"
        } else if str_eq(t.as_str(), "4") {
            "none"
        } else {
            return None;
        };
        out.push(scope.to_owned());
        proof {
            assert(strings_view(out@) =~= strings_view(out@.drop_last()) + seq![scope@]);
            assert(choices_of(ps.skip(i as int)) == match choices_of(ps.skip(i as int + 1)) {
                Some(rest) => Some(seq![scope@] + rest),
                None => None::<Seq<Seq<char>>>,
            });
            assert(forall|rest: Seq<Seq<char>>|
                (strings_view(out@.drop_last()) + seq![scope@]) + rest =~= strings_view(
                    out@.drop_last(),
                ) + (seq![scope@] + rest));
        }
        i = i + 1;
    }
    proof {
        assert(ps.skip(parts@.len() as int) =~= Seq::<Seq<char>>::empty());
        assert(strings_view(out@) + Seq::<Seq<char>>::empty() =~= strings_view(out@));
    }
    Some(out)
}

/// The scope a free-form reply names: its trimmed text when that is `local`,
/// `global` or `system`, and nothing otherwise.
pub open spec fn scope_choice_spec(s: Seq<char>) -> Option<Seq<char>> {
    let t = trim_spec(s);
    if t == "local"@ || t == "global"@ || t == "system"@ {
        Some(t)
    } else {
        None
    }
}

/// Read a reply naming the creation scope, following `scope_choice_spec`.
pub fn parse_scope_choice(input: &str) -> (r: Option<String>)
    ensures
        match r {
            Some(v) => scope_choice_spec(input@) == Some(v@),
            None => scope_choice_spec(input@) is None,
        },
{
    let t = trim_str(input);
    if str_eq(t.as_str(), "local") || str_eq(t.as_str(), "global") || str_eq(t.as_str(), "system") {
        Some(t)
    } else {
        None
    }
}

/// The yes/no answer a prompt reply gives: blank or `y`/`Y` is yes, `n`/`N`
/// is no, anything else is no answer and the prompt must ask again.
pub open spec fn yes_no_spec(s: Seq<char>) -> Option<bool> {
    let t = trim_spec(s);
    if t.len() == 0 || t == "Y"@ || t == "y"@ {
        Some(true)
    } else if t == "N"@ || t == "n"@ {
        Some(false)
    } else {
        None
    }
}

/// Read a yes/no prompt reply, following `yes_no_spec`.
pub fn parse_yes_no(input: &str) -> (r: Option<bool>)
    ensures
        r == yes_no_spec(input@),
{
    let t = trim_str(input);
    if t.as_str().is_empty() || str_eq(t.as_str(), "Y") || str_eq(t.as_str(), "y") {
        Some(true)
    } else if str_eq(t.as_str(), "N") || str_eq(t.as_str(), "n") {
        Some(false)
    } else {
        None
    }
}

/// The value a wizard reply selects: the reply itself, or the default when
/// the reply is blank.
pub open spec fn chosen_value_spec(input: Seq<char>, default_value: Seq<char>) -> Seq<char> {
    if trim_spec(input).len() == 0 {
        default_value
    } else {
        input
    }
}

/// Pick between a wizard reply and the default on offer, following
/// `chosen_value_spec`.
pub fn choose_value(input: &str, default_value: &str) -> (r: String)
    ensures
        r@ == chosen_value_spec(input@, default_value@),
{
    let t = trim_str(input);
    if t.as_str().is_empty() {
        default_value.to_owned()
    } else {
        input.to_owned()
    }
}

} // verus!
