//! The state of the interface in the layout where keys change it directly:
//! the commands and namespaces shown and selected, the screen, the form,
//! the popup and the query box.
use vstd::prelude::*;
use crate::command::{default_command, Command, CommandView};
use crate::commands::{all_namespace, matching, views, Commands};
use crate::fuzzy::unique_words;
use crate::gui::entities::context::{default_fields, Context};
use crate::gui::entities::field::{Field, FieldType, FieldView};
use crate::gui::entities::popup::{cleared_popup, offered_answers, PopUp, PopUpView};
use crate::gui::entities::states::ui_state::ViewMode;
use crate::gui::list_state::ListState;
use crate::order::{sort_seqs, sort_strings};
use crate::text::{own, strs};

verus! {

/// The state taken by view.
pub struct StateView {
    pub should_quit: bool,
    pub commands_selected: Option<usize>,
    pub namespace_selected: Option<usize>,
    pub commands: Seq<CommandView>,
    pub known_namespaces: Seq<Seq<char>>,
    pub namespaces: Seq<Seq<char>>,
    pub current_namespace: Seq<char>,
    pub view_mode: ViewMode,
    pub fields: Seq<FieldView>,
    pub focus: Option<usize>,
    pub current_command: Option<CommandView>,
    pub popup: PopUpView,
    pub show_help: bool,
    pub to_be_executed: Option<CommandView>,
    pub query_box: FieldView,
}

/// The state of the interface.
pub struct State {
    pub should_quit: bool,
    pub commands_state: ListState,
    pub namespace_state: ListState,
    pub commands: Commands,
    pub namespaces: Vec<String>,
    pub current_namespace: String,
    pub view_mode: ViewMode,
    pub field_context: Context,
    pub popup: PopUp,
    pub show_help: bool,
    pub to_be_executed: Option<Command>,
    pub query_box: Field,
}

impl View for State {
    type V = StateView;

    open spec fn view(&self) -> StateView {
        StateView {
            should_quit: self.should_quit,
            commands_selected: self.commands_state.selection(),
            namespace_selected: self.namespace_state.selection(),
            commands: self.commands.list(),
            known_namespaces: self.commands.namespace_view(),
            namespaces: strs(self.namespaces@),
            current_namespace: self.current_namespace@,
            view_mode: self.view_mode,
            fields: self.field_context.field_list(),
            focus: self.field_context.focus_state.selection(),
            current_command: self.field_context.current(),
            popup: self.popup@,
            show_help: self.show_help,
            to_be_executed: match self.to_be_executed {
                Some(c) => Some(c@),
                None => None,
            },
            query_box: self.query_box@,
        }
    }
}

/// What the command list shows for a namespace and a query: the demo
/// command when nothing is stored, otherwise the matching commands.
pub open spec fn filter_result(list: Seq<CommandView>, ns: Seq<char>, query: Seq<char>) -> Seq<CommandView> {
    if list.len() == 0 {
        seq![default_command()]
    } else {
        matching(list, ns, query)
    }
}

/// The commands the state shows.
pub open spec fn filtered(s: StateView) -> Seq<CommandView> {
    filter_result(s.commands, s.current_namespace, s.query_box.input)
}

/// The namespaces offered for the commands shown: `"All"` first, then
/// their namespaces, each once, in ascending order.
pub open spec fn shown_namespaces(cs: Seq<CommandView>) -> Seq<Seq<char>> {
    seq![all_namespace()] + sort_seqs(unique_words(cs.map_values(|c: CommandView| c.namespace)))
}

/// The state with the namespaces of the commands it shows.
pub open spec fn with_shown_namespaces(s: StateView) -> StateView {
    StateView { namespaces: shown_namespaces(filtered(s)), ..s }
}

/// The state with the known namespaces loaded: the first is selected and
/// shown, then the namespaces offered follow the commands shown.
pub open spec fn loaded(s: StateView) -> StateView {
    with_shown_namespaces(
        StateView {
            namespace_selected: Some(0usize),
            namespaces: s.known_namespaces,
            current_namespace: s.known_namespaces[0],
            ..s
        },
    )
}

/// The state reloaded: namespaces loaded and the first command selected.
pub open spec fn reloaded(s: StateView) -> StateView {
    StateView { commands_selected: Some(0usize), ..loaded(s) }
}

/// The position after `i` among `n`, back to the first from the last.
pub open spec fn step_after(i: int, n: int) -> int {
    if i >= n - 1 {
        0
    } else {
        i + 1
    }
}

/// The position before `i` among `n`, the last from the first.
pub open spec fn step_before(i: int, n: int) -> int {
    if i == 0 {
        n - 1
    } else {
        i - 1
    }
}

/// The selected position, 0 when nothing is selected.
pub open spec fn or_first(o: Option<usize>) -> int {
    match o {
        Some(i) => i as int,
        None => 0,
    }
}

/// The state after selecting the next command shown.
pub open spec fn with_next_command(s: StateView) -> StateView {
    let i = or_first(s.commands_selected);
    let n = filtered(s).len();
    StateView { commands_selected: Some((if n > 0 { step_after(i, n as int) } else { i }) as usize), ..s }
}

/// The state after selecting the previous command shown.
pub open spec fn with_previous_command(s: StateView) -> StateView {
    let i = or_first(s.commands_selected);
    let n = filtered(s).len();
    StateView { commands_selected: Some((if n > 0 { step_before(i, n as int) } else { i }) as usize), ..s }
}

/// The namespace at position `i`, or `"All"` past the end.
pub open spec fn namespace_or_all(ns: Seq<Seq<char>>, i: int) -> Seq<char> {
    if 0 <= i < ns.len() {
        ns[i]
    } else {
        all_namespace()
    }
}

/// The state after showing the namespace at position `i`; the first
/// command is selected.
pub open spec fn with_namespace_at(s: StateView, i: int) -> StateView {
    StateView {
        namespace_selected: Some(i as usize),
        current_namespace: namespace_or_all(s.namespaces, i),
        commands_selected: Some(0usize),
        ..s
    }
}

/// The state after showing the next namespace.
pub open spec fn with_next_namespace(s: StateView) -> StateView {
    with_namespace_at(s, step_after(or_first(s.namespace_selected), s.namespaces.len() as int))
}

/// The state after showing the previous namespace.
pub open spec fn with_previous_namespace(s: StateView) -> StateView {
    with_namespace_at(s, step_before(or_first(s.namespace_selected), s.namespaces.len() as int))
}

/// What the state always keeps: namespaces to offer, a command position,
/// a field in focus, and the popup's answers with one selected.
pub open spec fn well_formed(s: StateView) -> bool {
    &&& s.namespaces.len() >= 1
    &&& s.known_namespaces.len() >= 1
    &&& s.commands_selected is Some
    &&& s.focus matches Some(i) && i < s.fields.len()
    &&& s.popup.options == offered_answers()
    &&& s.popup.selected matches Some(i) && i < 2
}

/// The query box, empty and without focus.
pub open spec fn empty_query_box() -> FieldView {
    FieldView {
        name: "query"@,
        title: " Query "@,
        field_type: FieldType::QueryBox,
        in_focus: false,
        input: Seq::<char>::empty(),
        cursor: 0,
    }
}

/// The state for the stored commands before any key: the main screen, the
/// first namespace and command selected, the first command in the form.
pub open spec fn initial_view(list: Seq<CommandView>, known: Seq<Seq<char>>) -> StateView {
    let base = StateView {
        should_quit: false,
        commands_selected: None,
        namespace_selected: None,
        commands: list,
        known_namespaces: known,
        namespaces: Seq::empty(),
        current_namespace: all_namespace(),
        view_mode: ViewMode::Main,
        fields: default_fields(),
        focus: None,
        current_command: None,
        popup: cleared_popup(offered_answers()),
        show_help: false,
        to_be_executed: None,
        query_box: empty_query_box(),
    };
    StateView {
        commands_selected: Some(0usize),
        focus: Some(0usize),
        current_command: if list.len() > 0 { Some(list[0]) } else { None },
        ..loaded(base)
    }
}

impl State {
    /// The state for the stored commands.
    pub fn init(commands: Commands) -> (r: State)
        requires
            commands.namespace_view().len() >= 1,
        ensures
            r@ == initial_view(commands.list(), commands.namespace_view()),
    {
        let first = match commands.get_command_item_ref(0) {
            Some(c) => Some(c.clone()),
            None => None,
        };
        let mut state = State {
            should_quit: false,
            commands_state: ListState::new(),
            namespace_state: ListState::new(),
            commands,
            namespaces: Vec::new(),
            current_namespace: own("All"),
            view_mode: ViewMode::Main,
            field_context: Context::new(),
            popup: PopUp::init(),
            show_help: false,
            to_be_executed: None,
            query_box: Field::new(own("query"), own(" Query "), FieldType::QueryBox, false),
        };
        assert(strs(state.namespaces@) =~= Seq::<Seq<char>>::empty());
        state.load_namespaces();
        state.commands_state.select(Some(0));
        state.namespace_state.select(Some(0));
        state.field_context.focus_state.select(Some(0));
        state.field_context.set_current_command(first);
        state
    }

    /// The commands the state shows, for its namespace and query.
    pub fn filter_commands(&self) -> (r: Vec<Command>)
        ensures
            views(r@) == filtered(self@),
    {
        match self.commands.filter_commands(self.current_namespace.as_str(), self.query_box.input_text()) {
            Ok(v) => v,
            Err(_) => {
                let v: Vec<Command> = Vec::new();
                assert(views(v@) =~= Seq::<CommandView>::empty());
                v
            },
        }
    }

    /// Offers the namespaces of the commands shown.
    pub fn filter_namespaces(&mut self)
        ensures
            final(self)@ == with_shown_namespaces(old(self)@),
    {
        let filtered_commands = self.filter_commands();
        let ghost fv = views(filtered_commands@);
        let mut names: Vec<String> = Vec::new();
        let mut i: usize = 0;
        while i < filtered_commands.len()
            invariant
                i <= filtered_commands.len(),
                fv == views(filtered_commands@),
                strs(names@) == fv.take(i as int).map_values(|c: CommandView| c.namespace),
            decreases filtered_commands.len() - i,
        {
            let ghost old_n = strs(names@);
            assert(fv[i as int] == filtered_commands@[i as int]@);
            names.push(filtered_commands[i].namespace.clone());
            assert(strs(names@) =~= old_n.push(fv[i as int].namespace));
            assert(fv.take(i + 1).map_values(|c: CommandView| c.namespace) =~= fv.take(i as int).map_values(
                |c: CommandView| c.namespace,
            ).push(fv[i as int].namespace));
            i = i + 1;
        }
        assert(fv.take(filtered_commands.len() as int) =~= fv);
        let unique = crate::commands::unique_strings(&names);
        let sorted = sort_strings(&unique);
        let mut shown: Vec<String> = Vec::new();
        shown.push(own("All"));
        let mut k: usize = 0;
        while k < sorted.len()
            invariant
                k <= sorted.len(),
                strs(shown@) == seq![all_namespace()] + strs(sorted@).take(k as int),
            decreases sorted.len() - k,
        {
            let ghost old_s = strs(shown@);
            shown.push(sorted[k].clone());
            assert(strs(shown@) =~= old_s.push(sorted@[k as int]@));
            assert(strs(sorted@).take(k + 1) =~= strs(sorted@).take(k as int).push(sorted@[k as int]@));
            k = k + 1;
        }
        assert(strs(sorted@).take(sorted.len() as int) =~= strs(sorted@));
        self.namespaces = shown;
    }

    /// Loads the known namespaces; the first is selected and shown.
    pub fn load_namespaces(&mut self)
        requires
            old(self)@.known_namespaces.len() >= 1,
        ensures
            final(self)@ == loaded(old(self)@),
    {
        self.namespace_state.select(Some(0));
        self.namespaces = self.commands.namespaces();
        assert(strs(self.namespaces@).len() == self.namespaces@.len());
        assert(strs(self.namespaces@)[0] == self.namespaces@[0]@);
        self.current_namespace = self.namespaces[0].clone();
        self.filter_namespaces();
    }

    /// Reloads the namespaces and selects the first command.
    pub fn reload_state(&mut self)
        requires
            old(self)@.known_namespaces.len() >= 1,
        ensures
            final(self)@ == reloaded(old(self)@),
    {
        self.load_namespaces();
        self.commands_state.select(Some(0));
    }

    /// Selects the next command shown, the first after the last.
    pub fn next_command(&mut self)
        ensures
            final(self)@ == with_next_command(old(self)@),
    {
        let mut i = match self.commands_state.selected() {
            Some(i) => i,
            None => 0,
        };
        let shown = self.filter_commands();
        if shown.len() != 0 {
            i = if i >= shown.len() - 1 {
                0
            } else {
                i + 1
            };
        }
        self.commands_state.select(Some(i));
    }

    /// Selects the previous command shown, the last before the first.
    pub fn previous_command(&mut self)
        ensures
            final(self)@ == with_previous_command(old(self)@),
    {
        let mut i = match self.commands_state.selected() {
            Some(i) => i,
            None => 0,
        };
        let shown = self.filter_commands();
        if shown.len() != 0 {
            i = if i == 0 {
                shown.len() - 1
            } else {
                i - 1
            };
        }
        self.commands_state.select(Some(i));
    }

    /// The namespace offered at `i`, or `"All"` past the end.
    fn namespace_or_all(&self, i: usize) -> (r: String)
        ensures
            r@ == namespace_or_all(self@.namespaces, i as int),
    {
        if i < self.namespaces.len() {
            assert(strs(self.namespaces@)[i as int] == self.namespaces@[i as int]@);
            self.namespaces[i].clone()
        } else {
            own("All")
        }
    }

    /// Shows the next namespace, the first after the last.
    pub fn next_namespace(&mut self)
        requires
            old(self)@.namespaces.len() >= 1,
        ensures
            final(self)@ == with_next_namespace(old(self)@),
    {
        let i = match self.namespace_state.selected() {
            Some(i) => i,
            None => 0,
        };
        let i = if i >= self.namespaces.len() - 1 {
            0
        } else {
            i + 1
        };
        self.namespace_state.select(Some(i));
        self.current_namespace = self.namespace_or_all(i);
        self.commands_state.select(Some(0));
    }

    /// Shows the previous namespace, the last before the first.
    pub fn previous_namespace(&mut self)
        requires
            old(self)@.namespaces.len() >= 1,
        ensures
            final(self)@ == with_previous_namespace(old(self)@),
    {
        let i = match self.namespace_state.selected() {
            Some(i) => i,
            None => 0,
        };
        let i = if i == 0 {
            self.namespaces.len() - 1
        } else {
            i - 1
        };
        self.namespace_state.select(Some(i));
        self.current_namespace = self.namespace_or_all(i);
        self.commands_state.select(Some(0));
    }
}

} // verus!
