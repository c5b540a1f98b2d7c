//! The commands of the main screen in the layout where moving through the
//! list filters it first: the stored list, the cache by namespace, the
//! position selected and the command to run.
use vstd::prelude::*;
use crate::command::{default_command, validation, Command, CommandView};
use crate::commands::{
    all_namespace, edit_conflicts, has_key, matching, matching_commands, sorted_by_alias, views,
    without_key, Commands,
};
use crate::gui::entities::contexts::commands_context::{
    cache_for, cached, ordered_entries, sort_all, with_entry, without_entry, CacheInfo,
};
use crate::gui::list_state::ListState;
use crate::text::{own, str_eq};

verus! {

/// What the list shows for a namespace and a query: the cached commands of
/// a namespace, or every command (the demo one when none is stored),
/// searched with the query when there are at least two.
pub open spec fn listed(
    list: Seq<CommandView>,
    cache: Map<Seq<char>, Seq<CommandView>>,
    ns: Seq<char>,
    q: Seq<char>,
) -> Seq<CommandView> {
    let base = if ns.len() > 0 && ns != all_namespace() {
        cache[ns]
    } else if list.len() == 0 {
        seq![default_command()]
    } else {
        list
    };
    if base.len() > 1 && q.len() > 0 {
        matching(base, ns, q)
    } else {
        base
    }
}

/// Whether the cache can give the commands of a namespace that is named.
pub open spec fn listable(cache: Map<Seq<char>, Seq<CommandView>>, ns: Seq<char>) -> bool {
    ns.len() > 0 && ns != all_namespace() ==> cache.dom().contains(ns)
}

/// The position after `i` among `n`: the first after the last; nothing
/// moves when there is nothing.
pub open spec fn step_down(i: int, n: int) -> int {
    if n == 0 {
        i
    } else if i >= n - 1 {
        0
    } else {
        i + 1
    }
}

/// The position before `i` among `n`: the last before the first; nothing
/// moves when there is nothing.
pub open spec fn step_up(i: int, n: int) -> int {
    if n == 0 {
        i
    } else if i == 0 {
        n - 1
    } else {
        i - 1
    }
}

/// The message of a new command that cannot be stored.
pub open spec fn cannot_save_new() -> Seq<char> {
    "Cannot save the new command"@
}

/// The message of an edited command that cannot be stored.
pub open spec fn cannot_save_edited() -> Seq<char> {
    "Cannot save the edited command"@
}

/// The commands, the position selected and the command to run.
pub struct CommandsContext {
    commands: Commands,
    state: ListState,
    to_be_executed: Option<Command>,
    commands_cache: CacheInfo,
}

impl CommandsContext {
    /// The stored commands.
    pub closed spec fn list(&self) -> Seq<CommandView> {
        self.commands.list()
    }

    /// The cache by namespace.
    pub closed spec fn cache(&self) -> Map<Seq<char>, Seq<CommandView>> {
        self.commands_cache@
    }

    /// The position selected.
    pub closed spec fn selection(&self) -> Option<usize> {
        self.state.selection()
    }

    /// The command to run once the interface closes.
    pub closed spec fn to_run(&self) -> Option<CommandView> {
        match self.to_be_executed {
            Some(c) => Some(c@),
            None => None,
        }
    }

    /// The cache keeps one entry per namespace, each ordered by lowercased
    /// alias.
    pub closed spec fn well_formed(&self) -> bool {
        &&& self.commands_cache.well_formed()
        &&& ordered_entries(self.commands_cache@)
    }

    /// The context for the stored commands, the first position selected.
    pub fn new(commands: Vec<Command>) -> (r: CommandsContext)
        ensures
            r.well_formed(),
            r.list() == sorted_by_alias(views(commands@)),
            r.cache() == cache_for(views(commands@)),
            r.selection() == Some(0usize),
            r.to_run() is None,
    {
        let copy = crate::commands::clone_commands(&commands);
        let mut state = ListState::new();
        state.select(Some(0));
        CommandsContext {
            commands: Commands::init(copy),
            state,
            to_be_executed: None,
            commands_cache: CacheInfo::new(commands),
        }
    }

    /// The selection.
    pub fn state(&self) -> (r: ListState)
        ensures
            r.selection() == self.selection(),
    {
        self.state
    }

    /// The command to run once the interface closes.
    pub fn command_to_be_executed(&self) -> (r: Option<Command>)
        ensures
            (match r {
                Some(c) => Some(c@),
                None => None::<CommandView>,
            }) == self.to_run(),
    {
        match &self.to_be_executed {
            Some(c) => Some(c.clone()),
            None => None,
        }
    }

    /// Sets the command to run once the interface closes.
    pub fn set_command_to_be_executed(&mut self, command: Option<Command>)
        ensures
            final(self).to_run() == (match command {
                Some(c) => Some(c@),
                None => None::<CommandView>,
            }),
            final(self).list() == old(self).list(),
            final(self).cache() == old(self).cache(),
            final(self).selection() == old(self).selection(),
            final(self).well_formed() == old(self).well_formed(),
    {
        self.to_be_executed = command;
    }

    /// Selects a position.
    pub fn select_command(&mut self, idx: usize)
        ensures
            final(self).selection() == Some(idx),
            final(self).list() == old(self).list(),
            final(self).cache() == old(self).cache(),
            final(self).to_run() == old(self).to_run(),
            final(self).well_formed() == old(self).well_formed(),
    {
        self.state.select(Some(idx));
    }

    /// The position selected, 0 when none is.
    pub fn get_selected_command_idx(&self) -> (r: usize)
        ensures
            r == (match self.selection() {
                Some(i) => i,
                None => 0usize,
            }),
    {
        match self.state.selected() {
            Some(i) => i,
            None => 0,
        }
    }

    /// The commands to show for a namespace and a query.
    pub fn filter_commands(&self, current_namespace: &str, query_string: &str) -> (r: Vec<Command>)
        requires
            self.well_formed(),
            listable(self.cache(), current_namespace@),
        ensures
            views(r@) == listed(self.list(), self.cache(), current_namespace@, query_string@),
    {
        let commands = if !current_namespace.is_empty() && !str_eq(current_namespace, "All") {
            self.commands_cache.get_entry(current_namespace)
        } else {
            let list = crate::commands::clone_commands(self.commands.command_list());
            if list.len() == 0 {
                let mut v: Vec<Command> = Vec::new();
                v.push(Command::default());
                assert(views(v@) =~= seq![default_command()]);
                v
            } else {
                list
            }
        };
        assert(views(commands@).len() == commands@.len());
        if commands.len() > 1 && !query_string.is_empty() {
            self.fuzzy_find(current_namespace, query_string, commands)
        } else {
            commands
        }
    }

    /// The commands of the namespace (any for `"All"`) that the query
    /// matches, in order.
    pub fn fuzzy_find(&self, namespace: &str, query_string: &str, commands: Vec<Command>) -> (r: Vec<Command>)
        ensures
            views(r@) == matching(views(commands@), namespace@, query_string@),
    {
        matching_commands(&commands, namespace, query_string)
    }

    /// Selects the next command of the list for the namespace and the
    /// query, the first after the last.
    pub fn next_command(&mut self, current_namespace: &str, query_string: &str)
        requires
            old(self).well_formed(),
            listable(old(self).cache(), current_namespace@),
        ensures
            final(self).selection() == Some(step_down(
                (match old(self).selection() {
                    Some(i) => i as int,
                    None => 0,
                }),
                listed(old(self).list(), old(self).cache(), current_namespace@, query_string@).len() as int,
            ) as usize),
            final(self).list() == old(self).list(),
            final(self).cache() == old(self).cache(),
            final(self).to_run() == old(self).to_run(),
            final(self).well_formed(),
    {
        let mut i = self.get_selected_command_idx();
        let filtered_commands = self.filter_commands(current_namespace, query_string);
        assert(views(filtered_commands@).len() == filtered_commands@.len());
        if filtered_commands.len() != 0 {
            i = if i >= filtered_commands.len() - 1 {
                0
            } else {
                i + 1
            };
        }
        self.select_command(i);
    }

    /// Selects the previous command of the list for the namespace and the
    /// query, the last before the first.
    pub fn previous_command(&mut self, current_namespace: &str, query_string: &str)
        requires
            old(self).well_formed(),
            listable(old(self).cache(), current_namespace@),
        ensures
            final(self).selection() == Some(step_up(
                (match old(self).selection() {
                    Some(i) => i as int,
                    None => 0,
                }),
                listed(old(self).list(), old(self).cache(), current_namespace@, query_string@).len() as int,
            ) as usize),
            final(self).list() == old(self).list(),
            final(self).cache() == old(self).cache(),
            final(self).to_run() == old(self).to_run(),
            final(self).well_formed(),
    {
        let mut i = self.get_selected_command_idx();
        let filtered_commands = self.filter_commands(current_namespace, query_string);
        assert(views(filtered_commands@).len() == filtered_commands@.len());
        if filtered_commands.len() != 0 {
            i = if i == 0 {
                filtered_commands.len() - 1
            } else {
                i - 1
            };
        }
        self.select_command(i);
    }

    /// Adds a valid command that is not stored yet; gives the list to write.
    pub fn add_command(&mut self, new_command: &Command) -> (r: Result<Vec<Command>, String>)
        requires
            old(self).well_formed(),
        ensures
            final(self).well_formed(),
            final(self).selection() == old(self).selection(),
            final(self).to_run() == old(self).to_run(),
            validation(new_command@) matches Err(e) ==> (r matches Err(m) && m@ == e.message()
                && final(self).list() == old(self).list() && final(self).cache() == old(self).cache()),
            validation(new_command@) is Ok && has_key(old(self).list(), new_command@) ==> (r matches Err(m)
                && m@ == cannot_save_new()
                && final(self).list() == old(self).list() && final(self).cache() == old(self).cache()),
            validation(new_command@) is Ok && !has_key(old(self).list(), new_command@) ==> (r matches Ok(v)
                && views(v@) == old(self).list().push(new_command@)
                && final(self).list() == old(self).list().push(new_command@)
                && final(self).cache() == sort_all(with_entry(old(self).cache(), new_command@))
                && final(self).cache() == old(self).cache().insert(
                    new_command@.namespace,
                    sorted_by_alias(cached(old(self).cache(), new_command@.namespace).push(new_command@)),
                )),
    {
        match new_command.validate() {
            Ok(()) => {},
            Err(e) => {
                return Err(e.to_string());
            },
        }
        match self.commands.add_command(new_command) {
            Ok(commands) => {
                self.commands_cache.insert_entry(new_command.clone());
                Ok(commands)
            },
            Err(_) => Err(own("Cannot save the new command")),
        }
    }

    /// Replaces a command by its edited form; gives the list to write.
    pub fn add_edited_command(&mut self, edited_command: &Command, current_command: &Command) -> (r: Result<Vec<Command>, String>)
        requires
            old(self).well_formed(),
        ensures
            final(self).well_formed(),
            final(self).selection() == old(self).selection(),
            final(self).to_run() == old(self).to_run(),
            validation(edited_command@) matches Err(e) ==> (r matches Err(m) && m@ == e.message()
                && final(self).list() == old(self).list() && final(self).cache() == old(self).cache()),
            validation(edited_command@) is Ok && edit_conflicts(old(self).list(), edited_command@, current_command@)
                ==> (r matches Err(m) && m@ == cannot_save_edited()
                && final(self).list() == old(self).list() && final(self).cache() == old(self).cache()),
            validation(edited_command@) is Ok && !edit_conflicts(old(self).list(), edited_command@, current_command@)
                ==> (r matches Ok(v) && views(v@) == final(self).list()
                && final(self).list() == without_key(old(self).list(), current_command@).push(edited_command@)
                && final(self).cache() == sort_all(without_entry(
                    if old(self).cache().dom().contains(edited_command@.namespace) {
                        with_entry(old(self).cache(), edited_command@)
                    } else {
                        old(self).cache()
                    },
                    current_command@,
                ))),
    {
        match edited_command.validate() {
            Ok(()) => {},
            Err(e) => {
                return Err(e.to_string());
            },
        }
        match self.commands.add_edited_command(edited_command, current_command) {
            Ok(commands) => {
                self.commands_cache.push_if_present(edited_command.clone());
                self.commands_cache.remove_entry(current_command);
                self.commands_cache.sort_entries();
                Ok(commands)
            },
            Err(_) => Err(own("Cannot save the edited command")),
        }
    }

    /// Removes a command; gives the list to write.
    pub fn remove_command(&mut self, command: &Command) -> (r: Result<Vec<Command>, String>)
        requires
            old(self).well_formed(),
        ensures
            final(self).well_formed(),
            r matches Ok(v) && views(v@) == final(self).list(),
            final(self).list() == without_key(old(self).list(), command@),
            final(self).cache() == without_entry(old(self).cache(), command@),
            final(self).selection() == old(self).selection(),
            final(self).to_run() == old(self).to_run(),
    {
        match self.commands.remove(command) {
            Ok(commands) => {
                self.commands_cache.remove_entry(command);
                Ok(commands)
            },
            Err(_) => Err(own("Cannot remove the command")),
        }
    }
}

} // verus!
