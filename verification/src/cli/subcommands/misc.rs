//! The listing subcommand: a command shown in full, the aliases for a
//! fuzzy finder, or a one-line summary of each command.
use vstd::prelude::*;
use crate::bindings::{highlight, highlighted};
use crate::command::{clone_opt_string, description_text, opt_str, tags_text, Command, CommandView};
use crate::commands::{views, with_alias, Commands, CommandsError};
use crate::text::{
    chars_of, concat, index_of_char, own, slice_prefix, str_eq, string_of, strs, utf8_len,
};

verus! {

/// The most characters of a command that a summary shows.
pub open spec fn summary_width() -> int {
    50
}

/// The command as a summary shows it: cut before a line break among its
/// first 50 characters, or after its first 50 bytes when those 50 bytes
/// are its first characters, with `...` marking the cut.
pub open spec fn summary_command(cmd: Seq<char>) -> Seq<char> {
    let head = cmd.take(if cmd.len() < summary_width() { cmd.len() as int } else { summary_width() });
    match index_of_char(cmd, '\n') {
        Some(i) if i < summary_width() => cmd.take(i) + "..."@,
        _ => if utf8_len(head) == summary_width() {
            head + "..."@
        } else {
            cmd
        },
    }
}

/// A command in one line: `namespace.alias: description --> command`, or
/// without the description part when it has none.
pub open spec fn summary(c: CommandView) -> Seq<char> {
    match c.description {
        Some(d) => c.namespace + "."@ + c.alias + ": "@ + d + " --> "@ + summary_command(c.command),
        None => c.namespace + "."@ + c.alias + " --> "@ + summary_command(c.command),
    }
}

/// A command shown in full, each field highlighted.
pub open spec fn color_text(c: CommandView) -> Seq<char> {
    "Alias: "@ + highlighted(c.alias) + "\nNamespace: "@ + highlighted(c.namespace)
        + "\nDescription: "@ + highlighted(description_text(c)) + "\nTags: "@ + highlighted(
        tags_text(c),
    ) + "\nCommand: "@ + highlighted(c.command)
}

/// Whether another command of the list has the alias of the one at `i`.
pub open spec fn alias_repeated(s: Seq<CommandView>, i: int) -> bool {
    exists|j: int| 0 <= j < s.len() && j != i && #[trigger] s[j].alias == s[i].alias
}

/// The line a fuzzy finder gets for the command at `i`: its alias, with
/// the highlighted namespace when the alias is not unique.
pub open spec fn finder_line(s: Seq<CommandView>, i: int) -> Seq<char> {
    if alias_repeated(s, i) {
        s[i].alias + " ("@ + highlighted(s[i].namespace) + ")"@
    } else {
        s[i].alias
    }
}

impl Command {
    /// The command in one line, its command part cut as `summary_command` says.
    pub fn sumarize(&self) -> (r: String)
        ensures
            r@ == summary(self@),
    {
        let v = chars_of(self.command.as_str());
        let n: usize = if v.len() < 50 { v.len() } else { 50 };
        proof {
            crate::text::lemma_index_of_char(v@, '\n');
        }
        let mut i: usize = 0;
        let mut bytes: usize = 0;
        let mut newline: Option<usize> = None;
        while i < n
            invariant
                n <= v.len(),
                n <= 50,
                i <= n,
                v@ == self.command@,
                bytes == utf8_len(v@.take(i as int)),
                bytes <= 4 * i,
                newline is None ==> forall|k: int| 0 <= k < i ==> v@[k] != '\n',
                newline matches Some(j) ==> j < n && v@[j as int] == '\n' && forall|k: int|
                    0 <= k < j ==> v@[k] != '\n',
            decreases n - i,
        {
            proof {
                crate::text::lemma_utf8_len_step(v@, i as int);
            }
            let c = v[i];
            if c == '\n' && newline.is_none() {
                newline = Some(i);
            }
            let w: usize = if c <= '\u{7f}' {
                1
            } else if c <= '\u{7ff}' {
                2
            } else if c <= '\u{ffff}' {
                3
            } else {
                4
            };
            bytes = bytes + w;
            i = i + 1;
        }
        let shown = match newline {
            Some(j) => {
                assert(index_of_char(v@, '\n') == Some(j as int));
                let head = string_of(slice_prefix(&v, j).as_slice());
                concat(head.as_str(), "...")
            },
            None => {
                assert(index_of_char(v@, '\n') matches Some(k) ==> k >= 50);
                if bytes == 50 {
                    let head = string_of(slice_prefix(&v, n).as_slice());
                    concat(head.as_str(), "...")
                } else {
                    self.command.clone()
                }
            },
        };
        let ns_dot = concat(self.namespace.as_str(), ".");
        let named = concat(ns_dot.as_str(), self.alias.as_str());
        match &self.description {
            Some(d) => {
                let a = concat(named.as_str(), ": ");
                let b = concat(a.as_str(), d.as_str());
                let c = concat(b.as_str(), " --> ");
                concat(c.as_str(), shown.as_str())
            },
            None => {
                let c = concat(named.as_str(), " --> ");
                concat(c.as_str(), shown.as_str())
            },
        }
    }

    /// The command shown in full, one field per line, each value highlighted.
    pub fn to_color_string(&self) -> (r: String)
        ensures
            r@ == color_text(self@),
    {
        let alias = concat("Alias: ", highlight(self.alias.as_str()).as_str());
        let ns = concat("\nNamespace: ", highlight(self.namespace.as_str()).as_str());
        let desc = concat("\nDescription: ", highlight(self.description().as_str()).as_str());
        let tags = concat("\nTags: ", highlight(self.tags_as_string().as_str()).as_str());
        let cmd = concat("\nCommand: ", highlight(self.command.as_str()).as_str());
        let a = concat(alias.as_str(), ns.as_str());
        let b = concat(a.as_str(), desc.as_str());
        let c = concat(b.as_str(), tags.as_str());
        concat(c.as_str(), cmd.as_str())
    }
}

/// The lines a fuzzy finder gets, one for each command in order.
pub fn finder_lines(commands: &Vec<Command>) -> (r: Vec<String>)
    ensures
        strs(r@) == Seq::new(commands@.len(), |i: int| finder_line(views(commands@), i)),
{
    let ghost s = views(commands@);
    assert(s.len() == commands@.len());
    let mut out: Vec<String> = Vec::new();
    let mut i: usize = 0;
    while i < commands.len()
        invariant
            i <= commands.len(),
            s == views(commands@),
            s.len() == commands@.len(),
            strs(out@) == Seq::new(i as nat, |k: int| finder_line(s, k)),
        decreases commands.len() - i,
    {
        let mut repeated = false;
        let mut j: usize = 0;
        while j < commands.len()
            invariant
                i < commands.len(),
                j <= commands.len(),
                s == views(commands@),
                s.len() == commands@.len(),
                repeated <==> exists|k: int| 0 <= k < j && k != i && #[trigger] s[k].alias
                    == s[i as int].alias,
            decreases commands.len() - j,
        {
            assert(s[j as int] == commands@[j as int]@);
            assert(s[i as int] == commands@[i as int]@);
            let same = j != i && str_eq(commands[j].alias.as_str(), commands[i].alias.as_str());
            if same {
                repeated = true;
            }
            assert(same <==> (j != i && s[j as int].alias == s[i as int].alias));
            assert(repeated <==> exists|k: int| 0 <= k < j + 1 && k != i && #[trigger] s[k].alias
                == s[i as int].alias) by {
                if same {
                    assert(s[j as int].alias == s[i as int].alias);
                }
            }
            j = j + 1;
        }
        assert(repeated == alias_repeated(s, i as int));
        assert(s[i as int] == commands@[i as int]@);
        let c = &commands[i];
        let line = if repeated {
            let a = concat(c.alias.as_str(), " (");
            let b = concat(a.as_str(), highlight(c.namespace.as_str()).as_str());
            concat(b.as_str(), ")")
        } else {
            c.alias.clone()
        };
        let ghost old_o = strs(out@);
        out.push(line);
        assert(strs(out@) =~= old_o.push(finder_line(s, i as int)));
        assert(Seq::new((i + 1) as nat, |k: int| finder_line(s, k)) =~= Seq::new(
            i as nat,
            |k: int| finder_line(s, k),
        ).push(finder_line(s, i as int)));
        i = i + 1;
    }
    out
}

/// The one-line summary of each command, in order.
pub fn summary_lines(commands: &Vec<Command>) -> (r: Vec<String>)
    ensures
        strs(r@) == views(commands@).map_values(|c: CommandView| summary(c)),
{
    let ghost s = views(commands@);
    let mut out: Vec<String> = Vec::new();
    let mut i: usize = 0;
    while i < commands.len()
        invariant
            i <= commands.len(),
            s == views(commands@),
            strs(out@) == s.take(i as int).map_values(|c: CommandView| summary(c)),
        decreases commands.len() - i,
    {
        assert(s[i as int] == commands@[i as int]@);
        let ghost old_o = strs(out@);
        out.push(commands[i].sumarize());
        assert(strs(out@) =~= old_o.push(summary(s[i as int])));
        assert(s.take(i + 1).map_values(|c: CommandView| summary(c)) =~= s.take(
            i as int,
        ).map_values(|c: CommandView| summary(c)).push(summary(s[i as int])));
        i = i + 1;
    }
    assert(s.take(commands.len() as int) =~= s);
    out
}

/// The options of the listing subcommand.
pub struct Misc {
    /// Show one command in full.
    pub description: bool,
    /// The alias of the command to show in full.
    pub alias: Option<String>,
    /// The namespace of that command, when its alias is not unique.
    pub namespace: Option<String>,
    /// List the aliases for a fuzzy finder.
    pub fzf: bool,
}

impl Misc {
    /// The lines to print for the stored commands: the chosen command in
    /// full, the finder lines, or a summary of each command.
    pub fn output(&self, commands: &Commands) -> (r: Result<Vec<String>, CommandsError>)
        ensures
            self.description && self.alias is None ==> (r matches Ok(v) && v@.len() == 0),
            self.description && self.alias is Some ==> ({
                let found = with_alias(commands.list(), self.alias->0@, opt_str(self.namespace));
                &&& found.len() == 0 ==> (r matches Err(CommandsError::AliasNotFound { alias: a })
                    && a@ == self.alias->0@)
                &&& found.len() == 1 ==> (r matches Ok(v) && strs(v@) == seq![color_text(found[0])])
                &&& found.len() > 1 ==> (r matches Err(CommandsError::AmbiguousAlias { alias: a })
                    && a@ == self.alias->0@)
            }),
            !self.description && self.fzf ==> (r matches Ok(v) && strs(v@) == Seq::new(
                commands.list().len(),
                |i: int| finder_line(commands.list(), i),
            )),
            !self.description && !self.fzf ==> (r matches Ok(v) && strs(v@)
                == commands.list().map_values(|c: CommandView| summary(c))),
    {
        if self.description {
            match &self.alias {
                Some(alias) => {
                    let command = commands.find_command(alias.clone(), clone_opt_string(&self.namespace))?;
                    let mut lines: Vec<String> = Vec::new();
                    lines.push(command.to_color_string());
                    assert(strs(lines@) =~= seq![color_text(command@)]);
                    Ok(lines)
                },
                None => Ok(Vec::new()),
            }
        } else if self.fzf {
            let list = commands.command_list();
            Ok(finder_lines(list))
        } else {
            let list = commands.command_list();
            Ok(summary_lines(list))
        }
    }
}

} // verus!
