//! The list of stored commands and the operations on it.
use vstd::prelude::*;
use crate::bindings::{lowercase, skim_fuzzy_match, skim_match_score, to_lowercase};
use crate::command::{Command, CommandView};
use crate::fuzzy::{command_lookup, unique_words, Fuzzy};
use crate::order::{
    keyed, keys_ascend, lemma_sort_ascending, lemma_sort_by_key, lemma_sort_map, lex_le, map_value, sort_by_key,
    sort_pairs_by_key, sort_seqs, sort_strings,
};
use crate::text::{byte_prefix, char_index, chars_of, concat, is_char_boundary, longer_than, own, str_eq, strs, utf8_len};

verus! {

/// The commands taken by view.
pub open spec fn views(v: Seq<Command>) -> Seq<CommandView> {
    v.map_values(|c: Command| c@)
}

/// The elements of `s` for which `p` holds, in order.
pub open spec fn keep_where(s: Seq<CommandView>, p: spec_fn(CommandView) -> bool) -> Seq<CommandView>
    decreases s.len(),
{
    if s.len() == 0 {
        s
    } else if p(s.last()) {
        keep_where(s.drop_last(), p).push(s.last())
    } else {
        keep_where(s.drop_last(), p)
    }
}

/// Every element kept satisfies `p`, and every element of `s` that
/// satisfies `p` is kept.
pub proof fn lemma_keep_where(s: Seq<CommandView>, p: spec_fn(CommandView) -> bool)
    ensures
        forall|c: CommandView| #[trigger] keep_where(s, p).contains(c) <==> (s.contains(c) && p(c)),
        keep_where(s, p).len() <= s.len(),
    decreases s.len(),
{
    if s.len() > 0 {
        let d = s.drop_last();
        lemma_keep_where(d, p);
        let k = keep_where(d, p);
        assert forall|c: CommandView| keep_where(s, p).contains(c) <==> (s.contains(c) && p(c)) by {
            assert(s[s.len() - 1] == s.last());
            assert(s.contains(c) <==> (d.contains(c) || c == s.last())) by {
                if s.contains(c) && c != s.last() {
                    let i = choose|i: int| 0 <= i < s.len() && s[i] == c;
                    assert(d[i] == c);
                }
                if d.contains(c) {
                    let i = choose|i: int| 0 <= i < d.len() && d[i] == c;
                    assert(s[i] == c);
                }
            }
            if p(s.last()) {
                assert(k.push(s.last()).contains(c) <==> (k.contains(c) || c == s.last())) by {
                    if k.push(s.last()).contains(c) && c != s.last() {
                        let i = choose|i: int| 0 <= i < k.len() + 1 && k.push(s.last())[i] == c;
                        assert(k[i] == c);
                    }
                    if k.contains(c) {
                        let i = choose|i: int| 0 <= i < k.len() && k[i] == c;
                        assert(k.push(s.last())[i] == c);
                    }
                    if c == s.last() {
                        assert(k.push(s.last())[k.len() as int] == c);
                    }
                }
            }
        }
    }
}

/// A copy of a list of commands.
pub fn clone_commands(v: &Vec<Command>) -> (r: Vec<Command>)
    ensures
        views(r@) == views(v@),
{
    let mut out: Vec<Command> = Vec::new();
    let mut i: usize = 0;
    while i < v.len()
        invariant
            i <= v.len(),
            views(out@) == views(v@).take(i as int),
        decreases v.len() - i,
    {
        let c = v[i].clone();
        let ghost old_o = out@;
        assert(views(old_o).len() == old_o.len());
        assert(views(v@).len() == v@.len());
        out.push(c);
        assert(views(out@).len() == out@.len());
        assert forall|m: int| 0 <= m < i + 1 implies views(out@)[m] == views(v@).take(i + 1)[m] by {
            if m < i {
                assert(out@[m] == old_o[m]);
                assert(views(old_o)[m] == views(v@).take(i as int)[m]);
            }
        }
        assert(views(out@) =~= views(v@).take(i + 1));
        i = i + 1;
    }
    assert(views(v@).take(v.len() as int) =~= views(v@));
    out
}

/// The errors of the operations on the command list.
#[derive(Debug)]
pub enum CommandsError {
    NoCommandsForNamespace { namespace: String },
    AlreadyExists { alias: String, namespace: String },
    AliasNotFound { alias: String },
    AmbiguousAlias { alias: String },
}

impl CommandsError {
    /// The message of this error.
    pub open spec fn message(&self) -> Seq<char> {
        match self {
            CommandsError::NoCommandsForNamespace { namespace } =>
                "There are no commands to show for namespace \""@ + namespace@ + "\""@,
            CommandsError::AlreadyExists { alias, namespace } => "Command with alias \""@ + alias@
                + "\" already exists in \""@ + namespace@ + "\" namespace"@,
            CommandsError::AliasNotFound { alias } => "The alias '"@ + alias@ + "' was not found!"@,
            CommandsError::AmbiguousAlias { alias } => "There are commands with the alias '"@
                + alias@
                + "' in multiples namespaces. Please use the '--namespace' flag"@,
        }
    }

    /// The message of this error.
    pub fn to_string(&self) -> (r: String)
        ensures
            r@ == self.message(),
    {
        match self {
            CommandsError::NoCommandsForNamespace { namespace } => {
                let a = concat("There are no commands to show for namespace \"", namespace.as_str());
                concat(a.as_str(), "\"")
            },
            CommandsError::AlreadyExists { alias, namespace } => {
                let a = concat("Command with alias \"", alias.as_str());
                let b = concat(a.as_str(), "\" already exists in \"");
                let c = concat(b.as_str(), namespace.as_str());
                concat(c.as_str(), "\" namespace")
            },
            CommandsError::AliasNotFound { alias } => {
                let a = concat("The alias '", alias.as_str());
                concat(a.as_str(), "' was not found!")
            },
            CommandsError::AmbiguousAlias { alias } => {
                let a = concat("There are commands with the alias '", alias.as_str());
                concat(a.as_str(), "' in multiples namespaces. Please use the '--namespace' flag")
            },
        }
    }
}

/// The namespace that stands for every namespace.
pub open spec fn all_namespace() -> Seq<char> {
    "All"@
}

/// The commands ordered by their lowercased alias, stably.
pub open spec fn sorted_by_alias(s: Seq<CommandView>) -> Seq<CommandView> {
    sort_by_key(s.map_values(|c: CommandView| (lowercase(c.alias), c))).map_values(
        |p: (Seq<char>, CommandView)| p.1,
    )
}

/// Whether the commands come in order of their lowercased alias.
pub open spec fn alias_ordered(s: Seq<CommandView>) -> bool {
    forall|i: int, j: int|
        0 <= i < j < s.len() ==> lex_le(lowercase(#[trigger] s[i].alias), lowercase(#[trigger] s[j].alias))
}

/// Commands ordered by alias come out of the sort as they went in, and
/// whatever goes in comes out ordered.
pub proof fn lemma_sorted_by_alias(s: Seq<CommandView>)
    ensures
        alias_ordered(sorted_by_alias(s)),
        alias_ordered(s) ==> sorted_by_alias(s) == s,
{
    broadcast use vstd::seq_lib::group_to_multiset_ensures;

    let p = s.map_values(|c: CommandView| (lowercase(c.alias), c));
    let sorted = sort_by_key(p);
    lemma_sort_by_key(p);
    let r = sorted_by_alias(s);
    assert(r.len() == sorted.len());
    assert forall|k: int| 0 <= k < sorted.len() implies #[trigger] sorted[k].0 == lowercase(sorted[k].1.alias) by {
        assert(sorted.to_multiset().count(sorted[k]) > 0);
        assert(p.contains(sorted[k]));
        let m = choose|m: int| 0 <= m < p.len() && p[m] == sorted[k];
        assert(p[m] == (lowercase(s[m].alias), s[m]));
    }
    assert forall|i: int, j: int| 0 <= i < j < r.len() implies lex_le(
        lowercase(#[trigger] r[i].alias),
        lowercase(#[trigger] r[j].alias),
    ) by {
        assert(r[i] == sorted[i].1 && r[j] == sorted[j].1);
        assert(sorted[i].0 == lowercase(sorted[i].1.alias));
        assert(sorted[j].0 == lowercase(sorted[j].1.alias));
    }
    if alias_ordered(s) {
        assert(keys_ascend(p)) by {
            assert forall|i: int, j: int| 0 <= i < j < p.len() implies lex_le(
                #[trigger] p[i].0,
                #[trigger] p[j].0,
            ) by {
                assert(p[i].0 == lowercase(s[i].alias) && p[j].0 == lowercase(s[j].alias));
            }
        }
        lemma_sort_ascending(p);
        assert(r =~= s);
    }
}

/// Taking a command out of an ordered list leaves it ordered.
pub proof fn lemma_ordered_remove(s: Seq<CommandView>, k: int)
    requires
        alias_ordered(s),
        0 <= k < s.len(),
    ensures
        alias_ordered(s.remove(k)),
{
    let r = s.remove(k);
    assert forall|i: int, j: int| 0 <= i < j < r.len() implies lex_le(
        lowercase(#[trigger] r[i].alias),
        lowercase(#[trigger] r[j].alias),
    ) by {
        let a = if i < k { i } else { i + 1 };
        let b = if j < k { j } else { j + 1 };
        assert(r[i] == s[a] && r[j] == s[b]);
    }
}

/// What a lookup by alias selects: every command it gives has the alias
/// asked for, and the namespace asked for when one is given, and is stored;
/// when exactly one stored command has them, it is the only one selected.
pub proof fn law_with_alias(s: Seq<CommandView>, alias: Seq<char>, ns: Option<Seq<char>>)
    ensures
        forall|k: int| 0 <= k < with_alias(s, alias, ns).len() ==> {
            let c = #[trigger] with_alias(s, alias, ns)[k];
            &&& c.alias == alias
            &&& (ns matches Some(n) ==> c.namespace == n)
            &&& s.contains(c)
        },
        forall|i: int| #![trigger s[i]] 0 <= i < s.len() && s[i].alias == alias && (ns matches Some(n) ==> s[i].namespace == n)
            && (forall|j: int| 0 <= j < s.len() && j != i ==> !(#[trigger] s[j].alias == alias && (ns matches Some(n) ==> s[j].namespace == n)))
            ==> with_alias(s, alias, ns) == seq![s[i]],
{
    let p = |c: CommandView|
        (match ns {
            Some(n) => c.namespace == n,
            None => true,
        }) && c.alias == alias;
    lemma_keep_where(s, p);
    assert forall|k: int| 0 <= k < with_alias(s, alias, ns).len() implies {
        let c = #[trigger] with_alias(s, alias, ns)[k];
        &&& c.alias == alias
        &&& (ns matches Some(n) ==> c.namespace == n)
        &&& s.contains(c)
    } by {
        assert(keep_where(s, p).contains(keep_where(s, p)[k]));
    }
    assert forall|i: int| #![trigger s[i]] 0 <= i < s.len() && s[i].alias == alias && (ns matches Some(n) ==> s[i].namespace == n)
        && (forall|j: int| 0 <= j < s.len() && j != i ==> !(#[trigger] s[j].alias == alias && (ns matches Some(n) ==> s[j].namespace == n)))
        implies with_alias(s, alias, ns) == seq![s[i]] by {
        assert forall|j: int| 0 <= j < s.len() implies (#[trigger] p(s[j]) <==> j == i) by {
            if j != i {
                assert(!(s[j].alias == alias && (ns matches Some(n) ==> s[j].namespace == n)));
            }
        }
        lemma_keep_single(s, p, i);
    }
}

/// Keeping the elements that satisfy `p`, when only the one at `i` does,
/// gives that element alone.
proof fn lemma_keep_single(s: Seq<CommandView>, p: spec_fn(CommandView) -> bool, i: int)
    requires
        0 <= i < s.len(),
        forall|j: int| 0 <= j < s.len() ==> (#[trigger] p(s[j]) <==> j == i),
    ensures
        keep_where(s, p) == seq![s[i]],
    decreases s.len(),
{
    let d = s.drop_last();
    if i == s.len() - 1 {
        lemma_keep_where(d, p);
        if keep_where(d, p).len() > 0 {
            let c = keep_where(d, p)[0];
            assert(keep_where(d, p).contains(c));
            let j = choose|j: int| 0 <= j < d.len() && d[j] == c;
            assert(s[j] == d[j]);
            assert(p(s[j]));
        }
        assert(keep_where(d, p) =~= Seq::<CommandView>::empty());
        assert(p(s[s.len() - 1]));
        assert(keep_where(s, p) =~= seq![s[i]]);
    } else {
        assert forall|j: int| 0 <= j < d.len() implies (#[trigger] p(d[j]) <==> j == i) by {
            assert(d[j] == s[j]);
        }
        assert(!p(s[s.len() - 1]));
        lemma_keep_single(d, p, i);
        assert(d[i] == s[i]);
    }
}

/// The distinct namespaces of the commands together with `"All"`, in
/// ascending order.
pub open spec fn namespace_list(s: Seq<CommandView>) -> Seq<Seq<char>> {
    namespace_choices(s.map_values(|c: CommandView| c.namespace))
}

/// The given namespaces together with `"All"`, each once, in ascending order.
pub open spec fn namespace_choices(ns: Seq<Seq<char>>) -> Seq<Seq<char>> {
    sort_seqs(unique_words(seq![all_namespace()] + ns))
}

/// Whether a command belongs to the namespace `ns`, `"All"` holding every command.
pub open spec fn in_namespace(c: CommandView, ns: Seq<char>) -> bool {
    ns == all_namespace() || c.namespace == ns
}

/// Whether the fuzzy search for `query` matches the command.
pub open spec fn query_matches(c: CommandView, query: Seq<char>) -> bool {
    skim_match_score(command_lookup(c), query) is Some
}

/// The commands of namespace `ns` that the query matches.
pub open spec fn matching(s: Seq<CommandView>, ns: Seq<char>, query: Seq<char>) -> Seq<CommandView> {
    keep_where(s, |c: CommandView| in_namespace(c, ns) && query_matches(c, query))
}

/// A search gives exactly the stored commands of the namespace asked for
/// (any namespace for `"All"`) that the query matches.
pub proof fn law_matching(s: Seq<CommandView>, ns: Seq<char>, query: Seq<char>)
    ensures
        forall|c: CommandView| #[trigger] matching(s, ns, query).contains(c) <==> (s.contains(c) && (ns == "All"@
            || c.namespace == ns) && skim_match_score(command_lookup(c), query) is Some),
        matching(s, ns, query).len() <= s.len(),
{
    lemma_keep_where(s, |c: CommandView| in_namespace(c, ns) && query_matches(c, query));
}

/// The commands of `namespace` (every command for `"All"`) that the fuzzy
/// search for `query_string` matches, in order.
pub fn matching_commands(commands: &Vec<Command>, namespace: &str, query_string: &str) -> (r: Vec<Command>)
    ensures
        views(r@) == matching(views(commands@), namespace@, query_string@),
{
    let ghost list = views(commands@);
    let all_ns = str_eq(namespace, "All");
    let mut out: Vec<Command> = Vec::new();
    let mut i: usize = 0;
    while i < commands.len()
        invariant
            i <= commands.len(),
            list == views(commands@),
            all_ns == (namespace@ == all_namespace()),
            views(out@) == matching(list.take(i as int), namespace@, query_string@),
        decreases commands.len() - i,
    {
        let c = &commands[i];
        let ghost t = list.take(i + 1);
        assert(list.len() == commands@.len());
        assert(t.drop_last() == list.take(i as int));
        assert(t.last() == c@);
        let in_ns = all_ns || str_eq(c.namespace.as_str(), namespace);
        let keep = if in_ns {
            let lookup = c.lookup_string();
            skim_fuzzy_match(lookup.as_str(), query_string).is_some()
        } else {
            false
        };
        proof {
            if in_ns {
                assert(c.lookup() == command_lookup(c@));
            }
        }
        assert(keep == (in_namespace(c@, namespace@) && query_matches(c@, query_string@)));
        if keep {
            let ghost old_o = out@;
            assert(views(old_o).len() == old_o.len());
            out.push(c.clone());
            assert(views(out@) =~= views(old_o).push(c@)) by {
                assert forall|k: int| 0 <= k < old_o.len() implies out@[k] == old_o[k] by {}
            }
        }
        i = i + 1;
    }
    assert(list.take(commands.len() as int) =~= list);
    out
}

/// Whether two commands have the same alias and namespace.
pub open spec fn same_key(a: CommandView, b: CommandView) -> bool {
    a.alias == b.alias && a.namespace == b.namespace
}

/// Whether a command with the alias and namespace of `c` is in `s`.
pub open spec fn has_key(s: Seq<CommandView>, c: CommandView) -> bool {
    exists|i: int| 0 <= i < s.len() && same_key(s[i], c)
}

/// The commands of `s` without those with the alias and namespace of `c`.
pub open spec fn without_key(s: Seq<CommandView>, c: CommandView) -> Seq<CommandView> {
    keep_where(s, differs_from(c))
}

/// Whether a command lacks the alias and namespace of `c`.
pub open spec fn differs_from(c: CommandView) -> spec_fn(CommandView) -> bool {
    |x: CommandView| !same_key(x, c)
}

/// Whether editing `current` into `edited` would give `edited` the alias
/// and namespace of a command in `s`: the alias changes, and a command of
/// the namespace of `edited` already has that alias.
pub open spec fn edit_conflicts(s: Seq<CommandView>, edited: CommandView, current: CommandView) -> bool {
    edited.alias != current.alias && has_key(s, edited)
}

/// The commands of `s` that have the given alias and, when one is given,
/// the given namespace.
pub open spec fn with_alias(s: Seq<CommandView>, alias: Seq<char>, ns: Option<Seq<char>>) -> Seq<
    CommandView,
> {
    keep_where(
        s,
        |c: CommandView|
            (match ns {
                Some(n) => c.namespace == n,
                None => true,
            }) && c.alias == alias,
    )
}

/// The stored commands, with the list of their namespaces.
pub struct Commands {
    pub commands: Vec<Command>,
    namespaces: Vec<String>,
}

impl Commands {
    /// The stored commands, taken by view.
    pub closed spec fn list(&self) -> Seq<CommandView> {
        views(self.commands@)
    }

    /// The namespaces known to this list, as computed when it was made.
    pub closed spec fn namespace_view(&self) -> Seq<Seq<char>> {
        strs(self.namespaces@)
    }

    /// Makes the list: the commands ordered by their lowercased alias, and
    /// the distinct namespaces with `"All"`, in ascending order.
    pub fn init(items: Vec<Command>) -> (r: Commands)
        ensures
            r.list() == sorted_by_alias(views(items@)),
            r.namespace_view() == namespace_list(views(items@)),
    {
        let names = namespace_names(&items);
        let commands = sort_by_alias(items);
        Commands { commands, namespaces: names }
    }

    /// The command at position `idx`, if there is one.
    pub fn get_command_item_ref(&self, idx: usize) -> (r: Option<&Command>)
        ensures
            idx < self.list().len() ==> (r matches Some(c) && c@ == self.list()[idx as int]),
            idx >= self.list().len() ==> r is None,
    {
        if idx < self.commands.len() {
            Some(&self.commands[idx])
        } else {
            None
        }
    }

    /// The namespaces known to this list.
    pub fn namespaces(&self) -> (r: Vec<String>)
        ensures
            strs(r@) == self.namespace_view(),
    {
        crate::command::clone_strings(&self.namespaces)
    }

    /// Whether a command with the alias and namespace of `command_item` is stored.
    pub fn command_already_exists(&self, command_item: &Command) -> (r: bool)
        ensures
            r == has_key(self.list(), command_item@),
    {
        let mut i: usize = 0;
        while i < self.commands.len()
            invariant
                i <= self.commands.len(),
                forall|k: int| 0 <= k < i ==> !same_key(#[trigger] self.list()[k], command_item@),
            decreases self.commands.len() - i,
        {
            assert(self.list()[i as int] == self.commands@[i as int]@);
            if self.commands[i].alias == command_item.alias && self.commands[i].namespace
                == command_item.namespace {
                return true;
            }
            i = i + 1;
        }
        false
    }

    /// The commands of `namespace` (every command for `"All"`) that the
    /// fuzzy search for `query_string` matches. With no stored command the
    /// result is the default command alone; with none matching it is an error.
    pub fn filter_commands(&self, namespace: &str, query_string: &str) -> (r: Result<Vec<Command>, CommandsError>)
        ensures
            self.list().len() == 0 ==> (r matches Ok(v) && views(v@) == seq![
                crate::command::default_command(),
            ]),
            self.list().len() > 0 && matching(self.list(), namespace@, query_string@).len() > 0
                ==> (r matches Ok(v) && views(v@) == matching(self.list(), namespace@, query_string@)),
            self.list().len() > 0 && matching(self.list(), namespace@, query_string@).len() == 0
                ==> (r matches Err(CommandsError::NoCommandsForNamespace { namespace: n }) && n@
                == namespace@),
    {
        if self.commands.len() == 0 {
            let mut v: Vec<Command> = Vec::new();
            v.push(Command::default());
            assert(views(v@) =~= seq![crate::command::default_command()]);
            return Ok(v);
        }
        let out = matching_commands(&self.commands, namespace, query_string);
        if out.len() == 0 {
            assert(views(out@).len() == out@.len());
            Err(CommandsError::NoCommandsForNamespace { namespace: own(namespace) })
        } else {
            assert(views(out@).len() == out@.len());
            Ok(out)
        }
    }

    /// Adds a command unless one with its alias and namespace is stored;
    /// gives the new list.
    pub fn add_command(&mut self, command: &Command) -> (r: Result<Vec<Command>, CommandsError>)
        ensures
            has_key(old(self).list(), command@) ==> (r matches Err(
                CommandsError::AlreadyExists { alias: a, namespace: n },
            ) && a@ == command.alias@ && n@ == command.namespace@) && final(self).list() == old(self).list(),
            !has_key(old(self).list(), command@) ==> final(self).list() == old(self).list().push(
                command@,
            ) && (r matches Ok(v) && views(v@) == final(self).list()),
            final(self).namespace_view() == old(self).namespace_view(),
    {
        if self.command_already_exists(command) {
            return Err(
                CommandsError::AlreadyExists {
                    alias: command.alias.clone(),
                    namespace: command.namespace.clone(),
                },
            );
        }
        let ghost before = self.commands@;
        self.commands.push(command.clone());
        assert(views(self.commands@) =~= views(before).push(command@));
        Ok(clone_commands(&self.commands))
    }

    /// Replaces `current_command` by `edited_command`: every command with
    /// the alias and namespace of `current_command` leaves, and
    /// `edited_command` goes to the end. Refused when the alias changes
    /// and another command of the edited namespace already has it.
    pub fn add_edited_command(&mut self, edited_command: &Command, current_command: &Command) -> (r: Result<Vec<Command>, CommandsError>)
        ensures
            edit_conflicts(old(self).list(), edited_command@, current_command@) ==> (r matches Err(
                CommandsError::AlreadyExists { alias: a, namespace: n },
            ) && a@ == edited_command.alias@ && n@ == edited_command.namespace@) && final(self).list()
                == old(self).list(),
            !edit_conflicts(old(self).list(), edited_command@, current_command@) ==> final(self).list() == without_key(old(self).list(), current_command@).push(edited_command@) && (
            r matches Ok(v) && views(v@) == final(self).list()),
            final(self).namespace_view() == old(self).namespace_view(),
    {
        let alias_changes = edited_command.alias != current_command.alias;
        if alias_changes && self.command_already_exists(edited_command) {
            return Err(
                CommandsError::AlreadyExists {
                    alias: edited_command.alias.clone(),
                    namespace: edited_command.namespace.clone(),
                },
            );
        }
        self.retain_other_keys(current_command);
        let ghost before = self.commands@;
        self.commands.push(edited_command.clone());
        assert(views(self.commands@) =~= views(before).push(edited_command@));
        Ok(clone_commands(&self.commands))
    }

    /// Removes every command with the alias and namespace of `command`;
    /// gives the new list.
    pub fn remove(&mut self, command: &Command) -> (r: Result<Vec<Command>, CommandsError>)
        ensures
            final(self).list() == without_key(old(self).list(), command@),
            r matches Ok(v) && views(v@) == final(self).list(),
            final(self).namespace_view() == old(self).namespace_view(),
    {
        self.retain_other_keys(command);
        Ok(clone_commands(&self.commands))
    }

    fn retain_other_keys(&mut self, command: &Command)
        ensures
            final(self).list() == without_key(old(self).list(), command@),
            final(self).namespace_view() == old(self).namespace_view(),
    {
        let mut kept: Vec<Command> = Vec::new();
        let mut rest = Vec::new();
        std::mem::swap(&mut rest, &mut self.commands);
        let ghost orig = rest@;
        let mut i: usize = 0;
        let n = rest.len();
        while rest.len() > 0
            invariant
                n == orig.len(),
                i <= n,
                rest@ == orig.skip(i as int),
                views(kept@) == without_key(views(orig).take(i as int), command@),
            decreases rest.len(),
        {
            let c = rest.remove(0);
            assert(c == orig[i as int]);
            assert(rest@ == orig.skip(i + 1));
            let ghost t = views(orig).take(i + 1);
            assert(views(orig).len() == orig.len());
            assert(t.drop_last() == views(orig).take(i as int));
            assert(t.last() == c@);
            let same = c.alias == command.alias && c.namespace == command.namespace;
            if !same {
                let ghost old_k = kept@;
                assert(views(old_k).len() == old_k.len());
                kept.push(c);
                assert(views(kept@) =~= views(old_k).push(t.last())) by {
                    assert forall|k: int| 0 <= k < old_k.len() implies kept@[k] == old_k[k] by {}
                }
            }
            i = i + 1;
        }
        assert(views(orig).take(n as int) =~= views(orig));
        self.commands = kept;
    }

    /// The command with the given alias, in the given namespace when one is
    /// given. Fails when there is none, or more than one.
    pub fn find_command(&self, alias: String, namespace: Option<String>) -> (r: Result<Command, CommandsError>)
        ensures
            with_alias(self.list(), alias@, crate::command::opt_str(namespace)).len() == 0 ==> (
            r matches Err(CommandsError::AliasNotFound { alias: a }) && a@ == alias@),
            with_alias(self.list(), alias@, crate::command::opt_str(namespace)).len() == 1 ==> (
            r matches Ok(c) && c@ == with_alias(self.list(), alias@, crate::command::opt_str(namespace))[0]),
            with_alias(self.list(), alias@, crate::command::opt_str(namespace)).len() > 1 ==> (
            r matches Err(CommandsError::AmbiguousAlias { alias: a }) && a@ == alias@),
            r matches Ok(c) ==> c@.alias == alias@ && (namespace matches Some(n) ==> c@.namespace == n@)
                && self.list().contains(c@),
            forall|i: int| #![trigger self.list()[i]] 0 <= i < self.list().len() && self.list()[i].alias == alias@
                && (namespace matches Some(n) ==> self.list()[i].namespace == n@)
                && (forall|j: int| 0 <= j < self.list().len() && j != i ==> !(#[trigger] self.list()[j].alias == alias@
                && (namespace matches Some(n) ==> self.list()[j].namespace == n@)))
                ==> (r matches Ok(c) && c@ == self.list()[i]),
    {
        proof {
            law_with_alias(self.list(), alias@, crate::command::opt_str(namespace));
        }
        let ghost ns = crate::command::opt_str(namespace);
        let mut found: Vec<Command> = Vec::new();
        let mut i: usize = 0;
        while i < self.commands.len()
            invariant
                i <= self.commands.len(),
                ns == crate::command::opt_str(namespace),
                views(found@) == with_alias(self.list().take(i as int), alias@, ns),
            decreases self.commands.len() - i,
        {
            let c = &self.commands[i];
            let ghost t = self.list().take(i + 1);
            assert(self.list().len() == self.commands@.len());
            assert(t.drop_last() == self.list().take(i as int));
            assert(t.last() == c@);
            let ns_ok = match &namespace {
                Some(n) => c.namespace == *n,
                None => true,
            };
            let keep = ns_ok && c.alias == alias;
            if keep {
                let ghost old_f = found@;
                assert(views(old_f).len() == old_f.len());
                found.push(c.clone());
                assert(views(found@) =~= views(old_f).push(c@)) by {
                    assert forall|k: int| 0 <= k < old_f.len() implies found@[k] == old_f[k] by {}
                }
            }
            i = i + 1;
        }
        assert(self.list().take(self.commands.len() as int) =~= self.list());
        assert(views(found@).len() == found@.len());
        let ghost w = with_alias(self.list(), alias@, ns);
        assert(namespace matches Some(n) ==> ns == Some(n@));
        assert forall|i: int| #![trigger self.list()[i]] 0 <= i < self.list().len() && self.list()[i].alias == alias@
            && (namespace matches Some(n) ==> self.list()[i].namespace == n@)
            && (forall|j: int| 0 <= j < self.list().len() && j != i ==> !(#[trigger] self.list()[j].alias == alias@
            && (namespace matches Some(n) ==> self.list()[j].namespace == n@)))
            implies w == seq![self.list()[i]] by {
            assert forall|j: int| 0 <= j < self.list().len() && j != i implies !(#[trigger] self.list()[j].alias == alias@
                && (ns matches Some(n) ==> self.list()[j].namespace == n)) by {}
        }
        if found.len() == 0 {
            Err(CommandsError::AliasNotFound { alias })
        } else if found.len() == 1 {
            let c = found.pop().unwrap();
            assert(w[0] == c@);
            Ok(c)
        } else {
            Err(CommandsError::AmbiguousAlias { alias })
        }
    }

    /// The stored commands.
    pub fn command_list(&self) -> (r: &Vec<Command>)
        ensures
            views(r@) == self.list(),
    {
        &self.commands
    }

    /// How a command is run: in a dry run it is only printed; otherwise it
    /// runs in the shell, announced first unless a quiet mode is on.
    pub fn exec_command(&self, command_item: &Command, dry_run: bool, quiet_mode: bool, config_quiet: bool) -> (r: ExecPlan)
        requires
            utf8_len(command_item.command@) > 120 ==> is_char_boundary(command_item.command@, 120),
        ensures
            dry_run ==> (r matches ExecPlan::Print(t) && t@ == command_item.command@),
            !dry_run ==> (r matches ExecPlan::Run { announce, command } && command@ == command_item.command@ && (
            if !config_quiet && !quiet_mode {
                announce matches Some(a) && a@ == announce_line(command_item@)
            } else {
                announce is None
            })),
    {
        if dry_run {
            return ExecPlan::Print(own(command_item.command.as_str()));
        }
        let announce = if !config_quiet && !quiet_mode {
            let description = if longer_than(command_item.command.as_str(), 120) {
                let cut = byte_prefix(command_item.command.as_str(), 120);
                concat(cut.as_str(), "...")
            } else {
                own(command_item.command.as_str())
            };
            let a = concat(command_item.namespace.as_str(), ".");
            let b = concat(a.as_str(), command_item.alias.as_str());
            let c = concat(b.as_str(), " --> ");
            Some(concat(c.as_str(), description.as_str()))
        } else {
            None
        };
        ExecPlan::Run { announce, command: own(command_item.command.as_str()) }
    }
}

/// The line printed before a command runs: its namespace and alias, and the
/// command, cut after its first 120 bytes with `...` when it is longer.
pub open spec fn announce_line(c: CommandView) -> Seq<char> {
    c.namespace + "."@ + c.alias + " --> "@ + (if utf8_len(c.command) > 120 {
        c.command.take(char_index(c.command, 120)) + "..."@
    } else {
        c.command
    })
}

/// How a command is run.
#[derive(Debug)]
pub enum ExecPlan {
    /// The command is printed and nothing runs.
    Print(String),
    /// The command runs with the shell's `-c`, after the announce line is
    /// printed on the error output when there is one.
    Run { announce: Option<String>, command: String },
}

/// The commands ordered by their lowercased alias; commands with the same
/// lowercased alias keep their order.
pub fn sort_by_alias(items: Vec<Command>) -> (r: Vec<Command>)
    ensures
        views(r@) == sorted_by_alias(views(items@)),
{
    let ghost orig = items@;
    let mut pairs: Vec<(Vec<char>, Command)> = Vec::new();
    let mut rest = items;
    let mut i: usize = 0;
    let n = rest.len();
    while rest.len() > 0
        invariant
            n == orig.len(),
            i <= n,
            rest@ == orig.skip(i as int),
            keyed(pairs@).map_values(|p: (Seq<char>, Command)| (p.0, p.1@)) == views(
                orig.take(i as int),
            ).map_values(|c: CommandView| (lowercase(c.alias), c)),
        decreases rest.len(),
    {
        let c = rest.remove(0);
        assert(c == orig[i as int]);
        assert(rest@ == orig.skip(i + 1));
        let key = to_lowercase(c.alias.as_str());
        let k = chars_of(key.as_str());
        let ghost old_p = pairs@;
        let ghost f = |p: (Seq<char>, Command)| (p.0, p.1@);
        let ghost g = |c: CommandView| (lowercase(c.alias), c);
        assert(keyed(old_p).len() == old_p.len());
        assert(keyed(old_p).map_values(f).len() == old_p.len());
        assert(views(orig.take(i as int)).map_values(g).len() == i);
        pairs.push((k, c));
        assert(keyed(pairs@).map_values(f) =~= views(orig.take(i + 1)).map_values(g)) by {
            assert(keyed(pairs@).len() == pairs@.len());
            assert(views(orig.take(i + 1)).len() == i + 1);
            assert forall|m: int| 0 <= m < i + 1 implies keyed(pairs@).map_values(f)[m]
                == views(orig.take(i + 1)).map_values(g)[m] by {
                if m < i {
                    assert(pairs@[m] == old_p[m]);
                    assert(keyed(old_p).map_values(f)[m] == views(orig.take(i as int)).map_values(
                        g,
                    )[m]);
                    assert(orig.take(i + 1)[m] == orig.take(i as int)[m]);
                } else {
                    assert(orig.take(i + 1)[m] == orig[i as int]);
                }
            }
        }
        i = i + 1;
    }
    assert(orig.take(n as int) == orig);
    let ghost pairs_before = pairs@;
    let sorted = sort_pairs_by_key(pairs);
    let mut commands: Vec<Command> = Vec::new();
    let mut rest2 = sorted;
    let ghost srt = rest2@;
    let mut j: usize = 0;
    let m = rest2.len();
    while rest2.len() > 0
        invariant
            m == srt.len(),
            j <= m,
            rest2@ == srt.skip(j as int),
            views(commands@) == keyed(srt).take(j as int).map_values(
                |p: (Seq<char>, Command)| p.1@,
            ),
        decreases rest2.len(),
    {
        let p = rest2.remove(0);
        assert(p == srt[j as int]);
        let ghost old_c = commands@;
        let ghost h = |p: (Seq<char>, Command)| p.1@;
        assert(views(old_c).len() == old_c.len());
        assert(keyed(srt).len() == srt.len());
        commands.push(p.1);
        assert(views(commands@) =~= keyed(srt).take(j + 1).map_values(h)) by {
            assert(views(commands@).len() == commands@.len());
            assert forall|k: int| 0 <= k < j + 1 implies views(commands@)[k] == keyed(srt).take(
                j + 1,
            ).map_values(h)[k] by {
                if k < j {
                    assert(commands@[k] == old_c[k]);
                    assert(views(old_c)[k] == keyed(srt).take(j as int).map_values(h)[k]);
                }
            }
        }
        j = j + 1;
    }
    proof {
        assert(keyed(srt).take(m as int) == keyed(srt));
        let ghost f = |c: Command| c@;
        let ghost g = |p: (Seq<char>, Command)| map_value(p, f);
        let ghost kp = keyed(pairs_before);
        lemma_sort_map(kp, f);
        assert(kp.map_values(g) =~= views(orig).map_values(|c: CommandView| (lowercase(c.alias), c))) by {
            assert(kp.map_values(g) =~= kp.map_values(|p: (Seq<char>, Command)| (p.0, p.1@)));
        }
        assert(views(commands@) =~= sort_by_key(kp).map_values(g).map_values(
            |p: (Seq<char>, CommandView)| p.1,
        ));
    }
    commands
}

/// The distinct namespaces of the commands together with `"All"`, in
/// ascending order.
fn namespace_names(items: &Vec<Command>) -> (r: Vec<String>)
    ensures
        strs(r@) == namespace_list(views(items@)),
{
    let mut all: Vec<String> = Vec::new();
    all.push(own("All"));
    let mut i: usize = 0;
    while i < items.len()
        invariant
            i <= items.len(),
            strs(all@) == seq![all_namespace()] + views(items@).take(i as int).map_values(
                |c: CommandView| c.namespace,
            ),
        decreases items.len() - i,
    {
        let ghost old_a = all@;
        let ghost f = |c: CommandView| c.namespace;
        assert(strs(old_a).len() == old_a.len());
        assert(views(items@).len() == items@.len());
        all.push(items[i].namespace.clone());
        assert(strs(all@) =~= seq![all_namespace()] + views(items@).take(i + 1).map_values(f)) by {
            assert(strs(all@).len() == all@.len());
            assert forall|k: int| 0 <= k < i + 2 implies strs(all@)[k] == (seq![all_namespace()]
                + views(items@).take(i + 1).map_values(f))[k] by {
                if k < i + 1 {
                    assert(all@[k] == old_a[k]);
                    assert(strs(old_a)[k] == (seq![all_namespace()] + views(items@).take(
                        i as int,
                    ).map_values(f))[k]);
                }
            }
        }
        i = i + 1;
    }
    assert(views(items@).take(items.len() as int) =~= views(items@));
    let unique = unique_strings(&all);
    sort_strings(&unique)
}

/// The strings without repetitions, each kept where it first appears.
pub fn unique_strings(v: &Vec<String>) -> (r: Vec<String>)
    ensures
        strs(r@) == unique_words(strs(v@)),
{
    let mut unique: Vec<String> = Vec::new();
    let mut i: usize = 0;
    while i < v.len()
        invariant
            i <= v.len(),
            strs(unique@) == unique_words(strs(v@).take(i as int)),
        decreases v.len() - i,
    {
        let ghost t = strs(v@).take(i + 1);
        assert(strs(v@).len() == v@.len());
        assert(t.drop_last() == strs(v@).take(i as int));
        assert(t.last() == v@[i as int]@);
        let mut found = false;
        let mut k: usize = 0;
        while k < unique.len()
            invariant
                k <= unique.len(),
                i < v.len(),
                found <==> exists|m: int| 0 <= m < k && unique@[m]@ == v@[i as int]@,
            decreases unique.len() - k,
        {
            if str_eq(unique[k].as_str(), v[i].as_str()) {
                found = true;
            }
            k = k + 1;
        }
        let ghost u = strs(unique@);
        assert(u.len() == unique@.len());
        assert(found <==> u.contains(t.last())) by {
            if found {
                let m = choose|m: int| 0 <= m < unique.len() && unique@[m]@ == v@[i as int]@;
                assert(u[m] == t.last());
            }
            if u.contains(t.last()) {
                let m = choose|m: int| 0 <= m < u.len() && u[m] == t.last();
                assert(unique@[m]@ == v@[i as int]@);
            }
        }
        if !found {
            let ghost old_u = unique@;
            unique.push(v[i].clone());
            assert(strs(unique@) =~= u.push(t.last())) by {
                assert forall|m: int| 0 <= m < old_u.len() implies unique@[m] == old_u[m] by {}
            }
        }
        i = i + 1;
    }
    assert(strs(v@).take(v.len() as int) =~= strs(v@));
    unique
}


/// `keep_where` keeps everything when everything satisfies `p`.
pub proof fn lemma_keep_all(s: Seq<CommandView>, p: spec_fn(CommandView) -> bool)
    requires
        forall|i: int| 0 <= i < s.len() ==> p(#[trigger] s[i]),
    ensures
        keep_where(s, p) == s,
    decreases s.len(),
{
    if s.len() > 0 {
        let d = s.drop_last();
        assert forall|i: int| 0 <= i < d.len() implies p(#[trigger] d[i]) by {
            assert(d[i] == s[i]);
        }
        lemma_keep_all(d, p);
        assert(p(s[s.len() - 1]));
        assert(d.push(s.last()) =~= s);
    }
}

/// After a removal no command with the removed alias and namespace is
/// left, and every other command stays.
pub proof fn law_remove_drops_only_key(s: Seq<CommandView>, c: CommandView)
    ensures
        !has_key(without_key(s, c), c),
        forall|x: CommandView| s.contains(x) && !same_key(x, c) ==> without_key(s, c).contains(x),
        forall|x: CommandView| without_key(s, c).contains(x) ==> s.contains(x),
{
    lemma_keep_where(s, differs_from(c));
    let w = without_key(s, c);
    if has_key(w, c) {
        let i = choose|i: int| 0 <= i < w.len() && same_key(w[i], c);
        assert(w.contains(w[i]));
        assert(keep_where(s, differs_from(c)).contains(w[i]));
        assert(differs_from(c)(w[i]));
        assert(false);
    }
}

/// Adding a command that is not stored and then removing it gives back
/// the list as it was.
pub proof fn law_add_then_remove(s: Seq<CommandView>, c: CommandView)
    requires
        !has_key(s, c),
    ensures
        without_key(s.push(c), c) == s,
{
    let p = differs_from(c);
    assert forall|i: int| 0 <= i < s.len() implies p(#[trigger] s[i]) by {
        if same_key(s[i], c) {
            assert(has_key(s, c));
        }
    }
    lemma_keep_all(s, p);
    assert(s.push(c).drop_last() == s);
    assert(same_key(c, c));
}

/// No two commands share an alias and a namespace.
pub open spec fn unique_keys(s: Seq<CommandView>) -> bool {
    forall|i: int, j: int| 0 <= i < j < s.len() ==> !same_key(#[trigger] s[i], #[trigger] s[j])
}

/// A command whose key is not in a list of unique keys keeps them unique.
proof fn lemma_unique_push(s: Seq<CommandView>, c: CommandView)
    requires
        unique_keys(s),
        !has_key(s, c),
    ensures
        unique_keys(s.push(c)),
{
    let t = s.push(c);
    assert forall|i: int, j: int| 0 <= i < j < t.len() implies !same_key(#[trigger] t[i], #[trigger] t[j]) by {
        if j == s.len() {
            assert(t[i] == s[i]);
            if same_key(t[i], t[j]) {
                assert(same_key(s[i], c));
            }
        } else {
            assert(t[i] == s[i] && t[j] == s[j]);
        }
    }
}

/// Keeping some commands of a list of unique keys keeps them unique.
proof fn lemma_unique_keep(s: Seq<CommandView>, p: spec_fn(CommandView) -> bool)
    requires
        unique_keys(s),
    ensures
        unique_keys(keep_where(s, p)),
    decreases s.len(),
{
    if s.len() > 0 {
        let d = s.drop_last();
        assert forall|i: int, j: int| 0 <= i < j < d.len() implies !same_key(#[trigger] d[i], #[trigger] d[j]) by {
            assert(d[i] == s[i] && d[j] == s[j]);
        }
        lemma_unique_keep(d, p);
        if p(s.last()) {
            lemma_keep_where(d, p);
            let k = keep_where(d, p);
            if has_key(k, s.last()) {
                let i = choose|i: int| 0 <= i < k.len() && same_key(k[i], s.last());
                assert(k.contains(k[i]));
                assert(d.contains(k[i]));
                let m = choose|m: int| 0 <= m < d.len() && d[m] == k[i];
                assert(s[m] == d[m]);
                assert(same_key(s[m], s[s.len() - 1]));
                assert(false);
            }
            lemma_unique_push(k, s.last());
        }
    }
}

/// Commands keep unique aliases within a namespace: adding a command whose
/// alias and namespace are new, removing a command, and an edit whose
/// result takes no key left by the others keep the keys unique.
pub proof fn law_keys_stay_unique(s: Seq<CommandView>, c: CommandView, edited: CommandView, current: CommandView)
    requires
        unique_keys(s),
    ensures
        !has_key(s, c) ==> unique_keys(s.push(c)),
        unique_keys(without_key(s, c)),
        !has_key(without_key(s, current), edited) ==> unique_keys(without_key(s, current).push(edited)),
        edited.alias != current.alias && !edit_conflicts(s, edited, current)
            ==> unique_keys(without_key(s, current).push(edited)),
        same_key(edited, current) ==> unique_keys(without_key(s, current).push(edited)),
{
    if !has_key(s, c) {
        lemma_unique_push(s, c);
    }
    lemma_unique_keep(s, differs_from(c));
    lemma_unique_keep(s, differs_from(current));
    let w = without_key(s, current);
    law_remove_drops_only_key(s, current);
    if !has_key(w, edited) {
        lemma_unique_push(w, edited);
    }
    if edited.alias != current.alias && !edit_conflicts(s, edited, current) {
        if has_key(w, edited) {
            let i = choose|i: int| 0 <= i < w.len() && same_key(w[i], edited);
            assert(w.contains(w[i]));
            assert(s.contains(w[i]));
            let m = choose|m: int| 0 <= m < s.len() && s[m] == w[i];
            assert(same_key(s[m], edited));
            assert(has_key(s, edited));
            assert(false);
        }
        lemma_unique_push(w, edited);
    }
    if same_key(edited, current) {
        if has_key(w, edited) {
            let i = choose|i: int| 0 <= i < w.len() && same_key(w[i], edited);
            assert(same_key(w[i], current));
            assert(has_key(w, current));
            assert(false);
        }
        lemma_unique_push(w, edited);
    }
}

/// After an edit that is not refused, the edited command is stored, and
/// no command is left with the alias and namespace of the replaced one
/// unless the edited command itself has them.
pub proof fn law_edit_replaces(s: Seq<CommandView>, edited: CommandView, current: CommandView)
    requires
        !edit_conflicts(s, edited, current),
    ensures
        has_key(without_key(s, current).push(edited), edited),
        forall|i: int|
            0 <= i < without_key(s, current).len() ==> !same_key(
                #[trigger] without_key(s, current)[i],
                current,
            ),
{
    law_remove_drops_only_key(s, current);
    let w = without_key(s, current);
    assert(w.push(edited)[w.len() as int] == edited);
    assert forall|i: int| 0 <= i < w.len() implies !same_key(#[trigger] w[i], current) by {
        if same_key(w[i], current) {
            assert(has_key(w, current));
        }
    }
}

/// The list that `init` makes holds exactly the given commands, ordered by
/// lowercased alias.
pub proof fn law_init_orders_by_alias(items: Seq<CommandView>)
    ensures
        sorted_by_alias(items).len() == items.len(),
        forall|c: CommandView| sorted_by_alias(items).contains(c) <==> items.contains(c),
        forall|i: int, j: int|
            0 <= i < j < items.len() ==> crate::order::lex_le(
                lowercase(#[trigger] sorted_by_alias(items)[i].alias),
                lowercase(#[trigger] sorted_by_alias(items)[j].alias),
            ),
{
    broadcast use vstd::seq_lib::group_to_multiset_ensures;

    let pairs = items.map_values(|c: CommandView| (lowercase(c.alias), c));
    crate::order::lemma_sort_by_key(pairs);
    let sorted = sort_by_key(pairs);
    let r = sorted_by_alias(items);
    assert(r.len() == items.len());
    assert forall|k: int| 0 <= k < sorted.len() implies #[trigger] sorted[k].0 == lowercase(
        sorted[k].1.alias,
    ) by {
        assert(sorted.contains(sorted[k]));
        assert(sorted.to_multiset().count(sorted[k]) > 0);
        assert(pairs.contains(sorted[k]));
        let m = choose|m: int| 0 <= m < pairs.len() && pairs[m] == sorted[k];
    }
    assert forall|i: int, j: int| 0 <= i < j < items.len() implies crate::order::lex_le(
        lowercase(#[trigger] r[i].alias),
        lowercase(#[trigger] r[j].alias),
    ) by {
        assert(sorted[i].0 == lowercase(sorted[i].1.alias));
        assert(sorted[j].0 == lowercase(sorted[j].1.alias));
        assert(r[i] == sorted[i].1);
        assert(r[j] == sorted[j].1);
    }
    assert forall|c: CommandView| r.contains(c) <==> items.contains(c) by {
        if r.contains(c) {
            let k = choose|k: int| 0 <= k < r.len() && r[k] == c;
            assert(sorted.contains(sorted[k]));
            assert(sorted.to_multiset().count(sorted[k]) > 0);
            assert(pairs.contains(sorted[k]));
            let m = choose|m: int| 0 <= m < pairs.len() && pairs[m] == sorted[k];
            assert(items[m] == c);
        }
        if items.contains(c) {
            let m = choose|m: int| 0 <= m < items.len() && items[m] == c;
            assert(pairs.contains(pairs[m]));
            assert(pairs.to_multiset().count(pairs[m]) > 0);
            assert(sorted.contains(pairs[m]));
            let k = choose|k: int| 0 <= k < sorted.len() && sorted[k] == pairs[m];
            assert(r[k] == c);
        }
    }
}

/// The given namespaces together with `"All"`, each once, in ascending order.
pub fn sorted_namespaces(v: &Vec<String>) -> (r: Vec<String>)
    ensures
        strs(r@) == namespace_choices(strs(v@)),
{
    let mut all: Vec<String> = Vec::new();
    all.push(own("All"));
    let mut i: usize = 0;
    while i < v.len()
        invariant
            i <= v.len(),
            strs(all@) == seq![all_namespace()] + strs(v@).take(i as int),
        decreases v.len() - i,
    {
        let ghost old_a = strs(all@);
        all.push(v[i].clone());
        assert(strs(all@) =~= old_a.push(v@[i as int]@));
        assert(strs(v@).take(i + 1) =~= strs(v@).take(i as int).push(v@[i as int]@));
        i = i + 1;
    }
    assert(strs(v@).take(v.len() as int) =~= strs(v@));
    let unique = unique_strings(&all);
    sort_strings(&unique)
}

/// The namespaces offered are `"All"` and the given ones, each once, in
/// ascending order; so there is always at least one.
pub proof fn law_namespace_choices(ns: Seq<Seq<char>>)
    ensures
        namespace_choices(ns).len() >= 1,
        namespace_choices(ns).contains(all_namespace()),
        forall|x: Seq<char>| #[trigger] namespace_choices(ns).contains(x) <==> (x == all_namespace()
            || ns.contains(x)),
        namespace_choices(ns).no_duplicates(),
        forall|i: int, j: int|
            0 <= i < j < namespace_choices(ns).len() ==> crate::order::lex_le(
                #[trigger] namespace_choices(ns)[i],
                #[trigger] namespace_choices(ns)[j],
            ),
{
    broadcast use vstd::seq_lib::group_to_multiset_ensures;

    let l = seq![all_namespace()] + ns;
    crate::fuzzy::lemma_unique_words(l);
    let u = unique_words(l);
    let pairs = u.map_values(|x: Seq<char>| (x, ()));
    crate::order::lemma_sort_by_key(pairs);
    let sorted = sort_by_key(pairs);
    let r = namespace_choices(ns);
    assert(r == sorted.map_values(|p: (Seq<char>, ())| p.0));
    assert(l[0] == all_namespace());
    assert(l.contains(all_namespace()));
    assert forall|x: Seq<char>| l.contains(x) <==> (x == all_namespace() || ns.contains(x)) by {
        if l.contains(x) && x != all_namespace() {
            let k = choose|k: int| 0 <= k < l.len() && l[k] == x;
            assert(ns[k - 1] == x);
        }
        if ns.contains(x) {
            let k = choose|k: int| 0 <= k < ns.len() && ns[k] == x;
            assert(l[k + 1] == x);
        }
    }
    assert forall|x: Seq<char>| r.contains(x) <==> u.contains(x) by {
        if r.contains(x) {
            let k = choose|k: int| 0 <= k < r.len() && r[k] == x;
            assert(sorted.contains(sorted[k]));
            assert(sorted.to_multiset().count(sorted[k]) > 0);
            assert(pairs.contains(sorted[k]));
            let m = choose|m: int| 0 <= m < pairs.len() && pairs[m] == sorted[k];
            assert(u[m] == x);
        }
        if u.contains(x) {
            let m = choose|m: int| 0 <= m < u.len() && u[m] == x;
            assert(pairs.contains(pairs[m]));
            assert(pairs.to_multiset().count(pairs[m]) > 0);
            assert(sorted.contains(pairs[m]));
            let k = choose|k: int| 0 <= k < sorted.len() && sorted[k] == pairs[m];
            assert(r[k] == x);
        }
    }
    assert(u.contains(all_namespace()));
    assert(r.contains(all_namespace()));
    assert(pairs.no_duplicates()) by {
        assert forall|i: int, j: int| 0 <= i < pairs.len() && 0 <= j < pairs.len() && i != j
            implies pairs[i] != pairs[j] by {
            assert(u[i] != u[j]);
        }
    }
    pairs.lemma_multiset_has_no_duplicates();
    sorted.lemma_multiset_has_no_duplicates_conv();
    assert forall|i: int, j: int| 0 <= i < r.len() && 0 <= j < r.len() && i != j implies r[i]
        != r[j] by {
        assert(sorted[i] != sorted[j]);
        assert(sorted[i].1 == sorted[j].1);
    }
}

} // verus!
