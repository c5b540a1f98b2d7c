//! The data of the main screen: the namespaces offered, the commands
//! shown and selected, and the options read from the configuration.
use vstd::prelude::*;
use crate::command::{Command, CommandView};
use crate::command::validation;
use crate::commands::{edit_conflicts, has_key, namespace_list, views, without_key};
use crate::gui::entities::contexts::Selectable;
use crate::gui::entities::contexts::commands_context::{
    cache_for, filter_view, filtered_cache, sort_all, with_entry, without_entry, ChangeError, CommandsContext,
};
use crate::gui::entities::contexts::namespaces_context::{law_wrap_round_trip, wrap_next, wrap_previous, NamespacesContext, DEFAULT_NAMESPACE};
use crate::gui::list_state::ListState;
use crate::text::{own, strs};

verus! {

/// The options of the interface read from the configuration.
#[derive(Clone, Copy, Debug, PartialEq, Eq, Structural)]
pub struct Options {
    /// Whether the matches of the query are highlighted.
    pub highlight: bool,
    /// Whether a command runs without printing it first.
    pub quiet_mode: bool,
}

impl Options {
    /// Whether the matches of the query are highlighted.
    pub fn get_highlight(&self) -> (r: bool)
        ensures
            r == self.highlight,
    {
        self.highlight
    }

    /// Whether a command runs without printing it first.
    pub fn get_quiet_mode(&self) -> (r: bool)
        ensures
            r == self.quiet_mode,
    {
        self.quiet_mode
    }
}

/// The namespaces of the commands, in their order.
pub open spec fn namespaces_in(s: Seq<CommandView>) -> Seq<Seq<char>> {
    s.map_values(|c: CommandView| c.namespace)
}

/// The namespace of each command.
pub fn namespaces_of(commands: &Vec<Command>) -> (r: Vec<String>)
    ensures
        strs(r@) == namespaces_in(views(commands@)),
{
    let mut out: Vec<String> = Vec::new();
    let mut i: usize = 0;
    while i < commands.len()
        invariant
            i <= commands.len(),
            strs(out@) == namespaces_in(views(commands@)).take(i as int),
        decreases commands.len() - i,
    {
        let ghost before = out@;
        out.push(own(commands[i].namespace.as_str()));
        assert(strs(out@) =~= strs(before).push(commands@[i as int].namespace@));
        assert(namespaces_in(views(commands@)).take(i + 1) =~= namespaces_in(views(commands@)).take(i as int).push(commands@[i as int].namespace@));
        i = i + 1;
    }
    assert(namespaces_in(views(commands@)).take(commands.len() as int) =~= namespaces_in(views(commands@)));
    out
}

/// The data of the main screen taken by view.
pub struct AppView {
    /// The namespaces offered.
    pub offered: Seq<Seq<char>>,
    /// The position of the namespace selected.
    pub position: usize,
    /// The namespace shown.
    pub current: Seq<char>,
    /// The stored commands.
    pub list: Seq<CommandView>,
    /// The stored commands by namespace.
    pub cache: Map<Seq<char>, Seq<CommandView>>,
    /// The commands shown.
    pub shown: Seq<CommandView>,
    /// The position of the command selected.
    pub selection: Option<usize>,
    /// The command to run once the interface closes.
    pub to_run: Option<CommandView>,
    /// The options.
    pub options: Options,
}

/// The position selected, 0 when none is.
pub open spec fn selected_or_zero(s: Option<usize>) -> int {
    match s {
        Some(i) => i as int,
        None => 0,
    }
}

/// Every command shown and the first selected; the namespaces of the
/// commands shown offered and the first selected.
pub open spec fn reloaded(v: AppView) -> AppView {
    let shown = filter_view(v.list, v.cache, "All"@, Seq::<char>::empty());
    let offered = namespace_list(shown);
    AppView { shown, selection: Some(0usize), offered, position: 0usize, current: offered[0], ..v }
}

/// The next namespace, or the previous one, selected and shown, and the
/// first command selected.
pub open spec fn namespace_stepped(v: AppView, forward: bool) -> AppView {
    let p = if forward {
        wrap_next(v.position as int, v.offered.len() as int)
    } else {
        wrap_previous(v.position as int, v.offered.len() as int)
    };
    AppView { position: p as usize, current: v.offered[p], selection: Some(0usize), ..v }
}

/// The next command shown, or the previous one, selected.
pub open spec fn command_stepped(v: AppView, forward: bool) -> AppView {
    let p = if forward {
        wrap_next(selected_or_zero(v.selection), v.shown.len() as int)
    } else {
        wrap_previous(selected_or_zero(v.selection), v.shown.len() as int)
    };
    AppView { selection: Some(p as usize), ..v }
}

/// The message given when a command of the same alias and namespace is
/// stored.
pub open spec fn exists_message(c: CommandView) -> Seq<char> {
    "Command with alias \""@ + c.alias + "\" already exists in \""@ + c.namespace + "\" namespace"@
}

/// A change taken by view: the list to write, or the message of the error.
pub open spec fn change_view(r: Result<Vec<Command>, ChangeError>) -> Result<Seq<CommandView>, Seq<char>> {
    match r {
        Ok(v) => Ok(views(v@)),
        Err(e) => Err(e.message()),
    }
}

/// Adding a command: refused when invalid or already stored, else stored
/// and cached.
pub open spec fn added(v: AppView, c: CommandView) -> (AppView, Result<Seq<CommandView>, Seq<char>>) {
    match validation(c) {
        Err(e) => (v, Err(e.message())),
        Ok(_) => if has_key(v.list, c) {
            (v, Err(exists_message(c)))
        } else {
            let list = v.list.push(c);
            (AppView { list, cache: sort_all(with_entry(v.cache, c)), ..v }, Ok(list))
        },
    }
}

/// Replacing a command by its edited form: refused when invalid or when
/// it takes the key of another command, else stored and cached.
pub open spec fn edited_in(v: AppView, e: CommandView, cur: CommandView) -> (AppView, Result<Seq<CommandView>, Seq<char>>) {
    match validation(e) {
        Err(x) => (v, Err(x.message())),
        Ok(_) => if edit_conflicts(v.list, e, cur) {
            (v, Err(exists_message(e)))
        } else {
            let list = without_key(v.list, cur).push(e);
            (AppView { list, cache: sort_all(without_entry(with_entry(v.cache, e), cur)), ..v }, Ok(list))
        },
    }
}

/// Removing a command and its cache entry.
pub open spec fn deleted(v: AppView, c: CommandView) -> AppView {
    AppView { list: without_key(v.list, c), cache: without_entry(v.cache, c), ..v }
}

/// Selecting the next command and then the previous one, or the other way
/// round, comes back to the command selected.
pub proof fn law_command_step_round_trip(v: AppView)
    requires
        v.selection matches Some(i) && (i as int) < v.shown.len(),
        v.shown.len() <= usize::MAX,
    ensures
        command_stepped(command_stepped(v, true), false) == v,
        command_stepped(command_stepped(v, false), true) == v,
{
    let i = v.selection->0 as int;
    let n = v.shown.len() as int;
    law_wrap_round_trip(i, n);
    let a = wrap_next(i, n);
    let b = wrap_previous(i, n);
    law_wrap_round_trip(a, n);
    law_wrap_round_trip(b, n);
    assert(a as usize as int == a);
    assert(b as usize as int == b);
    assert(command_stepped(v, true).selection == Some(a as usize));
    assert(command_stepped(v, false).selection == Some(b as usize));
}

/// Selecting the next namespace and then the previous one, or the other
/// way round, comes back to the namespace shown, with the first command
/// selected.
pub proof fn law_namespace_step_round_trip(v: AppView)
    requires
        (v.position as int) < v.offered.len(),
        v.offered.len() <= usize::MAX,
        v.current == v.offered[v.position as int],
    ensures
        namespace_stepped(namespace_stepped(v, true), false) == (AppView { selection: Some(0usize), ..v }),
        namespace_stepped(namespace_stepped(v, false), true) == (AppView { selection: Some(0usize), ..v }),
{
    let i = v.position as int;
    let n = v.offered.len() as int;
    law_wrap_round_trip(i, n);
    let a = wrap_next(i, n);
    let b = wrap_previous(i, n);
    law_wrap_round_trip(a, n);
    law_wrap_round_trip(b, n);
    assert(a as usize as int == a);
    assert(b as usize as int == b);
}

/// The data of the main screen.
pub struct ApplicationContext {
    pub namespaces_context: NamespacesContext,
    pub commands_context: CommandsContext,
    pub config_options: Options,
}

impl View for ApplicationContext {
    type V = AppView;

    open spec fn view(&self) -> AppView {
        AppView {
            offered: self.namespaces_context.offered(),
            position: self.namespaces_context.position(),
            current: self.namespaces_context.current(),
            list: self.commands_context.list(),
            cache: self.commands_context.cache(),
            shown: self.commands_context.shown(),
            selection: self.commands_context.selection(),
            to_run: self.commands_context.to_run(),
            options: self.config_options,
        }
    }
}

impl ApplicationContext {
    /// The commands' cache keeps one entry per namespace.
    pub open spec fn well_formed(&self) -> bool {
        self.commands_context.well_formed()
    }

    /// The contexts for the stored commands: their namespaces offered, the
    /// first selected, nothing shown yet.
    pub fn init(commands: Vec<Command>, config_options: Options) -> (r: ApplicationContext)
        ensures
            r.well_formed(),
            r@.offered == namespace_list(views(commands@)),
            r@.position == 0,
            r@.current == namespace_list(views(commands@))[0],
            r@.list == crate::commands::sorted_by_alias(views(commands@)),
            r@.cache == cache_for(views(commands@)),
            r@.shown.len() == 0,
            r@.selection == Some(0usize),
            r@.to_run is None,
            r@.options == config_options,
    {
        let namespaces = namespaces_of(&commands);
        ApplicationContext {
            namespaces_context: NamespacesContext::new(namespaces),
            commands_context: CommandsContext::new(commands),
            config_options,
        }
    }

    /// The namespaces offered.
    pub fn namespaces_context(&self) -> (r: &NamespacesContext)
        ensures
            *r == self.namespaces_context,
    {
        &self.namespaces_context
    }

    /// Shows every command, selects the first, offers the namespaces of
    /// the commands shown and selects the first of them.
    pub fn reload_contexts(&mut self)
        requires
            old(self).well_formed(),
        ensures
            final(self).well_formed(),
            final(self)@ == reloaded(old(self)@),
    {
        self.reload_commands_context();
        self.reload_namespaces_context();
    }

    /// Shows every command and selects the first.
    fn reload_commands_context(&mut self)
        requires
            old(self).well_formed(),
        ensures
            final(self).well_formed(),
            final(self)@ == (AppView {
                shown: filter_view(old(self)@.list, old(self)@.cache, "All"@, Seq::<char>::empty()),
                selection: Some(0usize),
                ..old(self)@
            }),
    {
        proof {
            reveal_strlit("All");
            reveal_strlit("");
        }
        self.commands_context.filter_commands(DEFAULT_NAMESPACE, "");
        self.commands_context.reset_selected_command_idx();
    }

    /// Offers the namespaces of the commands shown and selects the first.
    fn reload_namespaces_context(&mut self)
        ensures
            final(self)@ == (AppView {
                offered: namespace_list(old(self)@.shown),
                position: 0usize,
                current: namespace_list(old(self)@.shown)[0],
                ..old(self)@
            }),
            final(self).well_formed() == old(self).well_formed(),
    {
        self.filter_namespaces();
        self.namespaces_context.reset_context();
    }

    /// Selects the next namespace and the first command.
    pub fn next_namespace(&mut self)
        ensures
            final(self)@ == namespace_stepped(old(self)@, true),
            final(self).well_formed() == old(self).well_formed(),
    {
        self.namespaces_context.next();
        self.commands_context.reset_selected_command_idx();
    }

    /// Selects the previous namespace and the first command.
    pub fn previous_namespace(&mut self)
        ensures
            final(self)@ == namespace_stepped(old(self)@, false),
            final(self).well_formed() == old(self).well_formed(),
    {
        self.namespaces_context.previous();
        self.commands_context.reset_selected_command_idx();
    }

    /// Selects the next command shown, the first after the last.
    pub fn next_command(&mut self)
        requires
            old(self)@.shown.len() > 0,
        ensures
            final(self)@ == command_stepped(old(self)@, true),
            final(self).well_formed() == old(self).well_formed(),
    {
        self.commands_context.next();
    }

    /// Selects the previous command shown, the last before the first.
    pub fn previous_command(&mut self)
        requires
            old(self)@.shown.len() > 0,
        ensures
            final(self)@ == command_stepped(old(self)@, false),
            final(self).well_formed() == old(self).well_formed(),
    {
        self.commands_context.previous();
    }

    /// Adds a valid new command; gives the list to write.
    pub fn add_command(&mut self, command: Command) -> (r: Result<Vec<Command>, ChangeError>)
        requires
            old(self).well_formed(),
        ensures
            final(self).well_formed(),
            (final(self)@, change_view(r)) == added(old(self)@, command@),
    {
        self.commands_context.add_command(&command)
    }

    /// Removes a command; gives the list to write.
    pub fn delete_selected_command(&mut self, command: &Command) -> (r: Result<Vec<Command>, ChangeError>)
        requires
            old(self).well_formed(),
        ensures
            final(self).well_formed(),
            final(self)@ == deleted(old(self)@, command@),
            change_view(r) == Ok::<Seq<CommandView>, Seq<char>>(final(self)@.list),
    {
        self.commands_context.remove_command(command)
    }

    /// Replaces a command by its edited form; gives the list to write.
    pub fn add_edited_command(&mut self, edited_command: Command, old_command: &Command) -> (r: Result<Vec<Command>, ChangeError>)
        requires
            old(self).well_formed(),
        ensures
            final(self).well_formed(),
            (final(self)@, change_view(r)) == edited_in(old(self)@, edited_command@, old_command@),
    {
        self.commands_context.add_edited_command(&edited_command, old_command)
    }

    /// Sets the command to run once the interface closes.
    pub fn set_current_command_as_callback(&mut self, command: &Command)
        ensures
            final(self)@ == (AppView { to_run: Some(command@), ..old(self)@ }),
            final(self).well_formed() == old(self).well_formed(),
    {
        self.commands_context.set_command_to_be_executed(Some(command.clone()));
    }

    /// The command to run once the interface closes, if any.
    pub fn callback_command(&self) -> (r: Option<Command>)
        ensures
            (match r {
                Some(c) => Some(c@),
                None => None::<CommandView>,
            }) == self@.to_run,
    {
        self.commands_context.command_to_be_executed()
    }

    /// The selection in the list shown.
    pub fn get_commands_state(&self) -> (r: ListState)
        ensures
            r.selection() == self@.selection,
    {
        self.commands_context.state()
    }

    /// The position of the command selected, 0 when none is.
    pub fn get_selected_command_idx(&self) -> (r: usize)
        ensures
            r as int == selected_or_zero(self@.selection),
    {
        self.commands_context.get_selected_command_idx()
    }

    /// Whether the matches of the query are highlighted.
    pub fn should_highligh(&self) -> (r: bool)
        ensures
            r == self@.options.highlight,
    {
        self.config_options.get_highlight()
    }

    /// Shows the commands of the namespace selected that match a query,
    /// and gives them; a selection past their end goes back to the first.
    /// A named namespace with no cached commands gets them cached from the
    /// stored list.
    pub fn filter_commands(&mut self, query_string: String) -> (r: Vec<Command>)
        requires
            old(self).well_formed(),
        ensures
            final(self).well_formed(),
            views(r@) == final(self)@.shown,
            final(self)@ == (AppView {
                shown: filter_view(old(self)@.list, old(self)@.cache, old(self)@.current, query_string@),
                selection: if selected_or_zero(old(self)@.selection) >= filter_view(
                    old(self)@.list,
                    old(self)@.cache,
                    old(self)@.current,
                    query_string@,
                ).len() {
                    Some(0usize)
                } else {
                    old(self)@.selection
                },
                cache: filtered_cache(old(self)@.list, old(self)@.cache, old(self)@.current),
                ..old(self)@
            }),
    {
        let current_namespace = self.namespaces_context.current_namespace();
        self.commands_context.filter_commands(current_namespace.as_str(), query_string.as_str());
        self.commands_context.filtered_commands()
    }

    /// Offers the namespaces of the commands shown; the selection stays.
    pub fn filter_namespaces(&mut self)
        ensures
            final(self)@ == (AppView { offered: namespace_list(old(self)@.shown), ..old(self)@ }),
            final(self).well_formed() == old(self).well_formed(),
    {
        let shown = self.commands_context.filtered_commands();
        let filtered_namespaces = namespaces_of(&shown);
        self.namespaces_context.update_namespaces(filtered_namespaces);
    }
}

} // verus!
