//! The configuration-file logic: `key=value` entries for git settings and
//! command aliases, the line-by-line parser for the configuration file, the
//! renderer that writes it back, and the commands that apply it.
//!
//! The file holds three sections: a `scope { ... }` line naming the scope the
//! settings apply at, a `gitconfig { ... }` section of `key.sub=value` git
//! settings, and a `gitcmd { ... }` section of `alias=command` entries.

use vstd::prelude::*;
use vstd::string::StringExecFns;

use crate::text::chars_to_string;
use crate::text::find_char;
use crate::text::first_index_of;
use crate::text::lemma_first_index_of;
use crate::text::str_to_chars;
use crate::text::subvec;
use crate::text::trim_spec;
use crate::text::trim_vec;

verus! {

/// Whether `s` is a `key=value` entry, that is, holds an `=`.
pub open spec fn entry_has_eq(s: Seq<char>) -> bool {
    first_index_of(s, '=') != -1
}

/// The text left of the first `=`, trimmed.
pub open spec fn entry_key(s: Seq<char>) -> Seq<char> {
    trim_spec(s.subrange(0, first_index_of(s, '=')))
}

/// The text right of the first `=`, trimmed.
pub open spec fn entry_value(s: Seq<char>) -> Seq<char> {
    trim_spec(s.subrange(first_index_of(s, '=') + 1, s.len() as int))
}

/// Split a `key=value` entry at its first `=`, trimming both sides; `None`
/// when there is no `=`.
pub fn split_entry(entry: &str) -> (r: Option<(String, String)>)
    ensures
        match r {
            Some(p) => {
                &&& entry_has_eq(entry@)
                &&& p.0@ == entry_key(entry@)
                &&& p.1@ == entry_value(entry@)
            },
            None => !entry_has_eq(entry@),
        },
{
    let cs = str_to_chars(entry);
    match find_char(&cs, '=') {
        None => None,
        Some(k) => {
            proof {
                lemma_first_index_of(cs@, '=');
            }
            let n = cs.len();
            let key = trim_vec(&subvec(&cs, 0, k));
            let val = trim_vec(&subvec(&cs, k + 1, n));
            Some((chars_to_string(&key), chars_to_string(&val)))
        },
    }
}

/// An alias for a git subcommand, as in `st=status`.
#[derive(Debug, Clone)]
pub struct GitCmdAlias {
    pub identifier: String,
    pub command: String,
}

impl View for GitCmdAlias {
    type V = (Seq<char>, Seq<char>);

    open spec fn view(&self) -> (Seq<char>, Seq<char>) {
        (self.identifier@, self.command@)
    }
}

impl GitCmdAlias {
    pub fn new(id: &str, comm: &str) -> (r: GitCmdAlias)
        ensures
            r@ == (id@, comm@),
    {
        GitCmdAlias { identifier: id.to_owned(), command: comm.to_owned() }
    }

    /// The configuration-file form `identifier=command`.
    pub fn to_entry(&self) -> (r: String)
        ensures
            r@ == self.identifier@ + "="@ + self.command@,
    {
        let mut r = self.identifier.clone();
        r.append("=");
        r.append(self.command.as_str());
        r
    }

    /// Parse `alias=command`, trimming both sides; `None` when `=` is absent.
    pub fn from_entry(entry: &str) -> (r: Option<GitCmdAlias>)
        ensures
            match r {
                Some(a) => entry_has_eq(entry@) && a@ == (entry_key(entry@), entry_value(entry@)),
                None => !entry_has_eq(entry@),
            },
    {
        match split_entry(entry) {
            Some((id, comm)) => Some(GitCmdAlias { identifier: id, command: comm }),
            None => None,
        }
    }
}

/// One git setting, as in `user.name=Ada`.
#[derive(Debug, Clone)]
pub struct GitConfig {
    pub identifier: String,
    pub value: String,
}

impl View for GitConfig {
    type V = (Seq<char>, Seq<char>);

    open spec fn view(&self) -> (Seq<char>, Seq<char>) {
        (self.identifier@, self.value@)
    }
}

/// The `git config` invocation that applies the setting `e` at `scope`.
pub open spec fn command_of(scope: Seq<char>, e: (Seq<char>, Seq<char>)) -> Seq<char> {
    "git config --"@ + scope + " "@ + e.0 + " \""@ + e.1 + "\""@
}

impl GitConfig {
    pub fn new(id: &str, val: &str) -> (r: GitConfig)
        ensures
            r@ == (id@, val@),
    {
        GitConfig { identifier: id.to_owned(), value: val.to_owned() }
    }

    /// The configuration-file form `identifier=value`.
    pub fn to_entry(&self) -> (r: String)
        ensures
            r@ == self.identifier@ + "="@ + self.value@,
    {
        let mut r = self.identifier.clone();
        r.append("=");
        r.append(self.value.as_str());
        r
    }

    /// The shell command that applies this setting at `scope`.
    pub fn to_command(&self, scope: &str) -> (r: String)
        ensures
            r@ == command_of(scope@, self@),
    {
        let mut r = String::new();
        r.append("git config --");
        r.append(scope);
        r.append(" ");
        r.append(self.identifier.as_str());
        r.append(" \"");
        r.append(self.value.as_str());
        r.append("\"");
        proof {
            assert(r@ =~= command_of(scope@, self@));
        }
        r
    }

    /// Parse `key=value`, trimming both sides; `None` when `=` is absent.
    pub fn from_entry(entry: &str) -> (r: Option<GitConfig>)
        ensures
            match r {
                Some(c) => entry_has_eq(entry@) && c@ == (entry_key(entry@), entry_value(entry@)),
                None => !entry_has_eq(entry@),
            },
    {
        match split_entry(entry) {
            Some((id, val)) => Some(GitConfig { identifier: id, value: val }),
            None => None,
        }
    }
}

/// The mathematical content of a configuration: the scope text and the two
/// entry lists, each entry a trimmed key and value.
pub struct ConfigModel {
    pub scope: Seq<char>,
    pub git_configs: Seq<(Seq<char>, Seq<char>)>,
    pub git_cmds: Seq<(Seq<char>, Seq<char>)>,
}

/// The whole parsed configuration file.
#[derive(Debug)]
pub struct GitCmdConfig {
    pub scope: String,
    pub git_configs: Vec<GitConfig>,
    pub git_cmds: Vec<GitCmdAlias>,
}

/// A list of git settings as a sequence of key/value pairs.
pub open spec fn configs_view(s: Seq<GitConfig>) -> Seq<(Seq<char>, Seq<char>)> {
    s.map_values(|c: GitConfig| c@)
}

/// A list of command aliases as a sequence of key/value pairs.
pub open spec fn aliases_view(s: Seq<GitCmdAlias>) -> Seq<(Seq<char>, Seq<char>)> {
    s.map_values(|a: GitCmdAlias| a@)
}

impl View for GitCmdConfig {
    type V = ConfigModel;

    open spec fn view(&self) -> ConfigModel {
        ConfigModel {
            scope: self.scope@,
            git_configs: configs_view(self.git_configs@),
            git_cmds: aliases_view(self.git_cmds@),
        }
    }
}

/// The configuration with nothing in it.
pub open spec fn empty_config() -> ConfigModel {
    ConfigModel { scope: Seq::empty(), git_configs: Seq::empty(), git_cmds: Seq::empty() }
}

/// What one configuration line does to the configuration being built.
///
/// Blank lines and `//` comments do nothing. A line without braces and
/// without `=` names the scope. A line with `=` is an entry: a key containing
/// `.` is a git setting, any other key is a command alias. Brace lines (the
/// section headers) do nothing.
pub open spec fn parse_line_spec(m: ConfigModel, line: Seq<char>) -> ConfigModel {
    let t = trim_spec(line);
    if t.len() == 0 || (t.len() >= 2 && t[0] == '/' && t[1] == '/') {
        m
    } else if first_index_of(t, '{') == -1 && first_index_of(t, '}') == -1 && first_index_of(
        t,
        '=',
    ) == -1 {
        ConfigModel { scope: t, ..m }
    } else if first_index_of(t, '=') != -1 {
        if first_index_of(entry_key(t), '.') != -1 {
            ConfigModel { git_configs: m.git_configs.push((entry_key(t), entry_value(t))), ..m }
        } else {
            ConfigModel { git_cmds: m.git_cmds.push((entry_key(t), entry_value(t))), ..m }
        }
    } else {
        m
    }
}

/// Folding `parse_line_spec` over the lines of a file, first line first.
pub open spec fn parse_lines_spec(m: ConfigModel, lines: Seq<Seq<char>>) -> ConfigModel
    decreases lines.len(),
{
    if lines.len() == 0 {
        m
    } else {
        parse_lines_spec(parse_line_spec(m, lines[0]), lines.drop_first())
    }
}

impl GitCmdConfig {
    /// A configuration with nothing in it.
    pub fn new() -> (r: GitCmdConfig)
        ensures
            r@ == empty_config(),
    {
        let r = GitCmdConfig { scope: String::new(), git_configs: Vec::new(), git_cmds: Vec::new() };
        proof {
            assert(r@.git_configs =~= empty_config().git_configs);
            assert(r@.git_cmds =~= empty_config().git_cmds);
        }
        r
    }

    /// Take one configuration line into the configuration, following
    /// `parse_line_spec`.
    pub fn parse_line(&mut self, line: &str)
        ensures
            final(self)@ == parse_line_spec(old(self)@, line@),
    {
        let cs = str_to_chars(line);
        let t = trim_vec(&cs);
        let n = t.len();
        if n == 0 || (n >= 2 && t[0] == '/' && t[1] == '/') {
            return ;
        }
        let has_brace = find_char(&t, '{').is_some() || find_char(&t, '}').is_some();
        let ts = chars_to_string(&t);
        match split_entry(ts.as_str()) {
            Some((key, value)) => {
                let key_chars = str_to_chars(key.as_str());
                if find_char(&key_chars, '.').is_some() {
                    self.git_configs.push(GitConfig { identifier: key, value });
                    proof {
                        assert(self@.git_configs =~= parse_line_spec(
                            old(self)@,
                            line@,
                        ).git_configs);
                    }
                } else {
                    self.git_cmds.push(GitCmdAlias { identifier: key, command: value });
                    proof {
                        assert(self@.git_cmds =~= parse_line_spec(old(self)@, line@).git_cmds);
                    }
                }
            },
            None => {
                if !has_brace {
                    self.scope = ts;
                }
            },
        }
    }
}

/// One rendered entry line: a tab, `key=value`, and a newline.
pub open spec fn entry_line(e: (Seq<char>, Seq<char>)) -> Seq<char> {
    "\t"@ + e.0 + "="@ + e.1 + "\n"@
}

/// The rendered lines of a list of entries, in order.
pub open spec fn render_entries(entries: Seq<(Seq<char>, Seq<char>)>) -> Seq<char>
    decreases entries.len(),
{
    if entries.len() == 0 {
        Seq::empty()
    } else {
        entry_line(entries[0]) + render_entries(entries.drop_first())
    }
}

proof fn lemma_render_entries_push(entries: Seq<(Seq<char>, Seq<char>)>, e: (Seq<char>, Seq<char>))
    ensures
        render_entries(entries.push(e)) == render_entries(entries) + entry_line(e),
    decreases entries.len(),
{
    if entries.len() == 0 {
        assert(entries.push(e)[0] == e);
        assert(entries.push(e).drop_first() =~= Seq::<(Seq<char>, Seq<char>)>::empty());
        assert(render_entries(entries.push(e).drop_first()) == Seq::<char>::empty());
        assert(render_entries(entries.push(e)) =~= render_entries(entries) + entry_line(e));
    } else {
        assert(entries.push(e).drop_first() =~= entries.drop_first().push(e));
        assert(entries.push(e)[0] == entries[0]);
        assert(render_entries(entries.push(e)) == entry_line(entries[0]) + render_entries(
            entries.drop_first().push(e),
        ));
        lemma_render_entries_push(entries.drop_first(), e);
        assert(render_entries(entries.push(e)) =~= render_entries(entries) + entry_line(e));
    }
}

/// The exact text of the configuration file for `m`: the scope section, the
/// gitconfig section, and the gitcmd section, each entry on its own line.
pub open spec fn render_config_spec(m: ConfigModel) -> Seq<char> {
    "scope {\n\t"@ + m.scope + "\n}\n\ngitconfig {\n"@ + render_entries(m.git_configs)
        + "}\n\ngitcmd {\n"@ + render_entries(m.git_cmds) + "}\n"@
}

impl GitCmdConfig {
    /// The exact text of the configuration file for this configuration.
    pub fn to_file_text(&self) -> (r: String)
        ensures
            r@ == render_config_spec(self@),
    {
        let mut out = String::new();
        out.append("scope {\n\t");
        out.append(self.scope.as_str());
        out.append("\n}\n\ngitconfig {\n");
        let ghost head = "scope {\n\t"@ + self@.scope + "\n}\n\ngitconfig {\n"@;
        proof {
            assert(out@ =~= head + render_entries(self@.git_configs.take(0)));
        }
        let mut i: usize = 0;
        while i < self.git_configs.len()
            invariant
                i <= self@.git_configs.len(),
                self@.git_configs.len() == self.git_configs@.len(),
                head == "scope {\n\t"@ + self@.scope + "\n}\n\ngitconfig {\n"@,
                out@ == head + render_entries(self@.git_configs.take(i as int)),
            decreases self.git_configs@.len() - i,
        {
            let e = self.git_configs[i].to_entry();
            out.append("\t");
            out.append(e.as_str());
            out.append("\n");
            i = i + 1;
            proof {
                assert(self@.git_configs.take(i as int) =~= self@.git_configs.take(
                    i - 1,
                ).push(self@.git_configs[i - 1]));
                lemma_render_entries_push(
                    self@.git_configs.take(i - 1),
                    self@.git_configs[i - 1],
                );
                assert(out@ =~= head + render_entries(self@.git_configs.take(i as int)));
            }
        }
        proof {
            assert(self@.git_configs.take(self@.git_configs.len() as int) =~= self@.git_configs);
        }
        out.append("}\n\ngitcmd {\n");
        let ghost head2 = head + render_entries(self@.git_configs) + "}\n\ngitcmd {\n"@;
        proof {
            assert(out@ =~= head2 + render_entries(self@.git_cmds.take(0)));
        }
        let mut j: usize = 0;
        while j < self.git_cmds.len()
            invariant
                j <= self@.git_cmds.len(),
                self@.git_cmds.len() == self.git_cmds@.len(),
                head2 == head + render_entries(self@.git_configs) + "}\n\ngitcmd {\n"@,
                head == "scope {\n\t"@ + self@.scope + "\n}\n\ngitconfig {\n"@,
                out@ == head2 + render_entries(self@.git_cmds.take(j as int)),
            decreases self.git_cmds@.len() - j,
        {
            let e = self.git_cmds[j].to_entry();
            out.append("\t");
            out.append(e.as_str());
            out.append("\n");
            j = j + 1;
            proof {
                assert(self@.git_cmds.take(j as int) =~= self@.git_cmds.take(
                    j - 1,
                ).push(self@.git_cmds[j - 1]));
                lemma_render_entries_push(self@.git_cmds.take(j - 1), self@.git_cmds[j - 1]);
                assert(out@ =~= head2 + render_entries(self@.git_cmds.take(j as int)));
            }
        }
        proof {
            assert(self@.git_cmds.take(self@.git_cmds.len() as int) =~= self@.git_cmds);
        }
        out.append("}\n");
        proof {
            assert(out@ =~= render_config_spec(self@));
        }
        out
    }

    /// The `git config` commands that apply every setting of this
    /// configuration at its scope, in order.
    pub fn config_commands(&self) -> (r: Vec<String>)
        ensures
            r@.len() == self@.git_configs.len(),
            forall|i: int|
                0 <= i < r@.len() ==> r@[i]@ == command_of(self@.scope, self@.git_configs[i]),
    {
        let mut r: Vec<String> = Vec::new();
        let mut i: usize = 0;
        while i < self.git_configs.len()
            invariant
                i <= self@.git_configs.len(),
                self@.git_configs.len() == self.git_configs@.len(),
                r@.len() == i,
                forall|k: int|
                    0 <= k < i ==> r@[k]@ == command_of(self@.scope, self@.git_configs[k]),
            decreases self.git_configs@.len() - i,
        {
            let c = self.git_configs[i].to_command(self.scope.as_str());
            r.push(c);
            i = i + 1;
        }
        r
    }
}

/// Parse the lines of a configuration file, first line first, following
/// `parse_line_spec` on each.
pub fn parse_gitcmd_conf(lines: &Vec<String>) -> (r: GitCmdConfig)
    ensures
        r@ == parse_lines_spec(empty_config(), crate::text::strings_view(lines@)),
{
    let ghost ls = crate::text::strings_view(lines@);
    let mut config = GitCmdConfig::new();
    proof {
        assert(ls.skip(0) =~= ls);
    }
    let mut i: usize = 0;
    while i < lines.len()
        invariant
            i <= lines@.len(),
            ls == crate::text::strings_view(lines@),
            parse_lines_spec(empty_config(), ls) == parse_lines_spec(
                config@,
                ls.skip(i as int),
            ),
        decreases lines@.len() - i,
    {
        proof {
            assert(ls.skip(i as int)[0] == ls[i as int]);
            assert(ls[i as int] == lines@[i as int]@);
            assert(ls.skip(i as int).drop_first() =~= ls.skip(i as int + 1));
        }
        config.parse_line(lines[i].as_str());
        i = i + 1;
    }
    proof {
        assert(ls.skip(lines@.len() as int) =~= Seq::<Seq<char>>::empty());
    }
    config
}

/// The settings named by the output of `git config --list`: one `key=value`
/// per line, lines without `=` skipped.
pub open spec fn listing_spec(lines: Seq<Seq<char>>) -> Seq<(Seq<char>, Seq<char>)>
    decreases lines.len(),
{
    if lines.len() == 0 {
        Seq::empty()
    } else {
        let rest = listing_spec(lines.drop_first());
        if entry_has_eq(lines[0]) {
            seq![(entry_key(lines[0]), entry_value(lines[0]))] + rest
        } else {
            rest
        }
    }
}

/// Parse the lines of a `git config --list` output into settings, keeping
/// their order and skipping lines without `=`.
pub fn parse_config_listing(lines: &Vec<String>) -> (r: Vec<GitConfig>)
    ensures
        configs_view(r@) == listing_spec(crate::text::strings_view(lines@)),
{
    let ghost ls = crate::text::strings_view(lines@);
    let mut r: Vec<GitConfig> = Vec::new();
    proof {
        assert(ls.skip(0) =~= ls);
        assert(configs_view(r@) + listing_spec(ls) =~= listing_spec(ls));
    }
    let mut i: usize = 0;
    while i < lines.len()
        invariant
            i <= lines@.len(),
            ls == crate::text::strings_view(lines@),
            listing_spec(ls) == configs_view(r@) + listing_spec(ls.skip(i as int)),
        decreases lines@.len() - i,
    {
        proof {
            assert(ls.skip(i as int)[0] == ls[i as int]);
            assert(ls[i as int] == lines@[i as int]@);
            assert(ls.skip(i as int).drop_first() =~= ls.skip(i as int + 1));
        }
        match GitConfig::from_entry(lines[i].as_str()) {
            Some(c) => {
                r.push(c);
                proof {
                    assert(listing_spec(ls) =~= configs_view(r@) + listing_spec(
                        ls.skip(i as int + 1),
                    ));
                }
            },
            None => {},
        }
        i = i + 1;
    }
    proof {
        assert(ls.skip(lines@.len() as int) =~= Seq::<Seq<char>>::empty());
        assert(configs_view(r@) =~= configs_view(r@) + listing_spec(
            ls.skip(lines@.len() as int),
        ));
    }
    r
}

} // verus!
