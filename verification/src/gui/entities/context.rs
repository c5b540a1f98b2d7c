//! The form of the insert and edit screens: its fields, the one in
//! focus, and the command being edited.
use vstd::prelude::*;
use crate::command::{validation, Command, CommandBuilder, CommandError, CommandView};
use crate::gui::entities::field::{
    backspaced, backward, can_backspace, can_delete, can_type, deleted, forward, typed, width16,
    Field, FieldType, FieldView,
};
use crate::gui::list_state::ListState;
use crate::text::{join, join_strs, own, split_on, split_on_char, trim};

verus! {

/// The views of the fields.
pub open spec fn field_views(v: Seq<Field>) -> Seq<FieldView> {
    v.map_values(|f: Field| f@)
}

/// The fields of the form, in order.
pub struct Fields(pub Vec<Field>);

/// The field kinds of the form in their order, with their names and titles.
pub open spec fn default_fields() -> Seq<FieldView> {
    seq![
        FieldView { name: "alias"@, title: " Alias "@, field_type: FieldType::Alias, in_focus: true, input: Seq::<char>::empty(), cursor: 0 },
        FieldView { name: "namespace"@, title: " Namespace "@, field_type: FieldType::Namespace, in_focus: false, input: Seq::<char>::empty(), cursor: 0 },
        FieldView { name: "command"@, title: " Command "@, field_type: FieldType::Command, in_focus: false, input: Seq::<char>::empty(), cursor: 0 },
        FieldView { name: "description"@, title: " Description "@, field_type: FieldType::Description, in_focus: false, input: Seq::<char>::empty(), cursor: 0 },
        FieldView { name: "tags"@, title: " Tags "@, field_type: FieldType::Tags, in_focus: false, input: Seq::<char>::empty(), cursor: 0 },
    ]
}

impl Default for Fields {
    fn default() -> (r: Fields)
        ensures
            field_views(r.0@) == default_fields(),
    {
        let mut v: Vec<Field> = Vec::new();
        v.push(Field::new(own("alias"), own(" Alias "), FieldType::Alias, true));
        v.push(Field::new(own("namespace"), own(" Namespace "), FieldType::Namespace, false));
        v.push(Field::new(own("command"), own(" Command "), FieldType::Command, false));
        v.push(Field::new(own("description"), own(" Description "), FieldType::Description, false));
        v.push(Field::new(own("tags"), own(" Tags "), FieldType::Tags, false));
        assert(field_views(v@) =~= default_fields());
        Fields(v)
    }
}

/// What a field gives to a command being built: alias and namespace
/// trimmed, an empty description or tags field gives none, and the tags
/// are the pieces between commas.
pub open spec fn build_step(c: CommandView, f: FieldView) -> CommandView {
    match f.field_type {
        FieldType::Alias => CommandView { alias: trim(f.input), ..c },
        FieldType::Command => CommandView { command: f.input, ..c },
        FieldType::Namespace => CommandView { namespace: trim(f.input), ..c },
        FieldType::Description => CommandView { description: if f.input.len() == 0 { None } else { Some(f.input) }, ..c },
        FieldType::Tags => CommandView { tags: if f.input.len() == 0 { None } else { Some(split_on(f.input, ',')) }, ..c },
        FieldType::QueryBox => c,
    }
}

/// What a field gives to a command being edited: as `build_step`, but
/// alias and namespace are taken as typed.
pub open spec fn edit_step(c: CommandView, f: FieldView) -> CommandView {
    match f.field_type {
        FieldType::Alias => CommandView { alias: f.input, ..c },
        FieldType::Namespace => CommandView { namespace: f.input, ..c },
        _ => build_step(c, f),
    }
}

/// The fields applied in order with `build_step` (or `edit_step`).
pub open spec fn apply_fields(c: CommandView, fields: Seq<FieldView>, editing: bool) -> CommandView
    decreases fields.len(),
{
    if fields.len() == 0 {
        c
    } else {
        let before = apply_fields(c, fields.drop_last(), editing);
        if editing {
            edit_step(before, fields.last())
        } else {
            build_step(before, fields.last())
        }
    }
}

/// A command with every field empty.
pub open spec fn blank_command() -> CommandView {
    CommandView {
        alias: Seq::<char>::empty(),
        namespace: Seq::<char>::empty(),
        command: Seq::<char>::empty(),
        description: None,
        tags: None,
    }
}

/// The fields with their inputs emptied and their cursors at the start.
pub open spec fn cleared_fields(fields: Seq<FieldView>) -> Seq<FieldView> {
    fields.map_values(|f: FieldView| FieldView { input: Seq::<char>::empty(), cursor: 0, ..f })
}

/// What a field shows for a command, with its cursor at the end.
pub open spec fn shown_field(c: CommandView, f: FieldView) -> FieldView {
    let input = match f.field_type {
        FieldType::Alias => c.alias,
        FieldType::Command => c.command,
        FieldType::Namespace => c.namespace,
        FieldType::Description => match c.description {
            Some(d) => d,
            None => Seq::<char>::empty(),
        },
        FieldType::Tags => match c.tags {
            Some(t) => join(t, ","@),
            None => Seq::<char>::empty(),
        },
        FieldType::QueryBox => f.input,
    };
    FieldView { input, cursor: width16(input), ..f }
}

/// A field after a change of focus: the cursor goes to the end.
pub open spec fn toggled(f: FieldView) -> FieldView {
    FieldView { cursor: width16(f.input), in_focus: !f.in_focus, ..f }
}

/// What a keystroke does to a field.
#[derive(Clone, Copy, Debug, PartialEq, Eq, Structural)]
pub enum FieldEdit {
    Type(char),
    Backspace,
    Delete,
    Left,
    Right,
}

/// A field after a keystroke; an edit the field cannot take leaves it as
/// it was.
pub open spec fn edited(f: FieldView, e: FieldEdit) -> FieldView {
    match e {
        FieldEdit::Type(c) => if can_type(f) { typed(f, c) } else { f },
        FieldEdit::Backspace => if can_backspace(f) { backspaced(f) } else { f },
        FieldEdit::Delete => if can_delete(f) { deleted(f) } else { f },
        FieldEdit::Left => backward(f),
        FieldEdit::Right => forward(f),
    }
}

/// Applies a keystroke to a field.
pub fn edit_field(f: &mut Field, e: FieldEdit)
    ensures
        final(f)@ == edited(old(f)@, e),
{
    match e {
        FieldEdit::Type(c) => if f.can_type() {
            f.on_char(c);
        },
        FieldEdit::Backspace => if f.can_backspace() {
            f.on_backspace();
        },
        FieldEdit::Delete => if f.can_delete() {
            f.on_delete_key();
        },
        FieldEdit::Left => f.move_cursor_backward(),
        FieldEdit::Right => f.move_cursor_foward(),
    }
}

/// The form.
pub struct Context {
    pub focus_state: ListState,
    pub fields: Fields,
    pub current_command: Option<Command>,
}

impl Context {
    /// The fields.
    pub open spec fn field_list(&self) -> Seq<FieldView> {
        field_views(self.fields.0@)
    }

    /// The command edited, if any.
    pub open spec fn current(&self) -> Option<CommandView> {
        match self.current_command {
            Some(c) => Some(c@),
            None => None,
        }
    }

    /// Whether the selected position is a field.
    pub open spec fn focus_valid(&self) -> bool {
        self.focus_state.selection() matches Some(i) && i < self.field_list().len()
    }

    /// The selected position.
    pub open spec fn focus_index(&self) -> int {
        self.focus_state.selection()->0 as int
    }

    /// The form with its five empty fields, the alias in focus, nothing
    /// selected yet.
    pub fn new() -> (r: Context)
        ensures
            r.field_list() == default_fields(),
            r.focus_state.selection() is None,
            r.current_command is None,
    {
        Context { fields: Fields::default(), focus_state: ListState::new(), current_command: None }
    }

    /// The command edited, if any.
    pub fn get_current_command(&self) -> (r: Option<&Command>)
        ensures
            match r {
                Some(c) => self.current() == Some(c@),
                None => self.current() is None,
            },
    {
        self.current_command.as_ref()
    }

    /// Sets the command edited.
    pub fn set_current_command(&mut self, command: Option<Command>)
        ensures
            final(self).current_command == command,
            final(self).field_list() == old(self).field_list(),
            final(self).focus_state == old(self).focus_state,
    {
        self.current_command = command;
    }

    /// Replaces the field at `i` by `f`.
    fn put_field(&mut self, i: usize, f: Field)
        requires
            i < old(self).field_list().len(),
        ensures
            final(self).field_list() == old(self).field_list().update(i as int, f@),
            final(self).fields.0@.len() == old(self).fields.0@.len(),
            final(self).focus_state == old(self).focus_state,
            final(self).current_command == old(self).current_command,
    {
        let ghost before = self.field_list();
        self.fields.0.set(i, f);
        assert(self.field_list() =~= before.update(i as int, f@));
    }

    /// Takes the field at `i` out, leaving an empty one in its place.
    fn take_field(&mut self, i: usize) -> (r: Field)
        requires
            i < old(self).field_list().len(),
        ensures
            r@ == old(self).field_list()[i as int],
            final(self).field_list().len() == old(self).field_list().len(),
            final(self).fields.0@.len() == old(self).fields.0@.len(),
            forall|k: int| 0 <= k < final(self).field_list().len() && k != i ==> final(self).field_list()[k] == old(self).field_list()[k],
            final(self).focus_state == old(self).focus_state,
            final(self).current_command == old(self).current_command,
    {
        let ghost before = self.field_list();
        let f = self.fields.0.remove(i);
        self.fields.0.insert(i, Field::new(String::new(), String::new(), FieldType::QueryBox, false));
        assert(self.field_list().len() == before.len());
        assert forall|k: int| 0 <= k < self.field_list().len() && k != i implies self.field_list()[k] == before[k] by {
            if k < i {
                assert(self.fields.0@[k] == old(self).fields.0@[k]);
            } else {
                assert(self.fields.0@[k] == old(self).fields.0@[k]);
            }
        }
        f
    }

    /// Empties every field.
    pub fn clear_inputs(&mut self)
        ensures
            final(self).field_list() == cleared_fields(old(self).field_list()),
            final(self).focus_state == old(self).focus_state,
            final(self).current_command == old(self).current_command,
    {
        let ghost start = self.field_list();
        let mut i: usize = 0;
        while i < self.fields.0.len()
            invariant
                i <= self.fields.0.len(),
                start == old(self).field_list(),
                self.field_list().len() == start.len(),
                self.fields.0@.len() == start.len(),
                forall|k: int| 0 <= k < i ==> self.field_list()[k] == (FieldView { input: Seq::<char>::empty(), cursor: 0, ..start[k] }),
                forall|k: int| i <= k < self.field_list().len() ==> self.field_list()[k] == start[k],
                self.focus_state == old(self).focus_state,
                self.current_command == old(self).current_command,
            decreases self.fields.0.len() - i,
        {
            let mut f = self.take_field(i);
            f.clear_input();
            self.put_field(i, f);
            i = i + 1;
        }
        assert(self.field_list() =~= cleared_fields(start));
    }

    /// Whether the field in focus has the given name and the focus.
    pub fn is_in_focus(&self, name: &str) -> (r: bool)
        requires
            self.focus_valid(),
        ensures
            r == (self.field_list()[self.focus_index()].name == name@ && self.field_list()[self.focus_index()].in_focus),
    {
        let i = self.focus_state.selected().unwrap();
        let f = &self.fields.0[i];
        crate::text::str_eq(f.name(), name) && f.in_focus()
    }

    /// The field in focus.
    pub fn get_current_in_focus(&self) -> (r: Option<&Field>)
        requires
            self.focus_state.selection() is Some,
        ensures
            self.focus_valid() ==> (r matches Some(f) && f@ == self.field_list()[self.focus_index()]),
            !self.focus_valid() ==> r is None,
    {
        let i = self.focus_state.selected().unwrap();
        if i < self.fields.0.len() {
            Some(&self.fields.0[i])
        } else {
            None
        }
    }

    /// The focus after moving from `i` to `j`: `i` loses it, `j` takes it.
    pub open spec fn refocused(fields: Seq<FieldView>, i: int, j: int) -> Seq<FieldView> {
        let t = fields.update(i, toggled(fields[i]));
        t.update(j, toggled(t[j]))
    }

    /// Moves the focus to the next field, or the first after the last.
    pub fn next(&mut self)
        requires
            old(self).focus_valid(),
        ensures
            ({
                let i = old(self).focus_index();
                let n = old(self).field_list().len();
                let j = if i >= n - 1 { 0 } else { i + 1 };
                &&& final(self).focus_state.selection() == Some(j as usize)
                &&& final(self).field_list() == Self::refocused(old(self).field_list(), i, j)
            }),
            final(self).current_command == old(self).current_command,
    {
        let old_idx = self.focus_state.selected().unwrap();
        let mut f = self.take_field(old_idx);
        f.toggle_focus();
        self.put_field(old_idx, f);
        let idx = if old_idx >= self.fields.0.len() - 1 {
            0
        } else {
            old_idx + 1
        };
        self.focus_state.select(Some(idx));
        let mut g = self.take_field(idx);
        g.toggle_focus();
        self.put_field(idx, g);
    }

    /// Moves the focus to the previous field, or the last before the first.
    pub fn previous(&mut self)
        requires
            old(self).focus_valid(),
        ensures
            ({
                let i = old(self).focus_index();
                let n = old(self).field_list().len();
                let j = if i == 0 { n - 1 } else { i - 1 };
                &&& final(self).focus_state.selection() == Some(j as usize)
                &&& final(self).field_list() == Self::refocused(old(self).field_list(), i, j)
            }),
            final(self).current_command == old(self).current_command,
    {
        let old_idx = self.focus_state.selected().unwrap();
        let mut f = self.take_field(old_idx);
        f.toggle_focus();
        self.put_field(old_idx, f);
        let idx = if old_idx == 0 {
            self.fields.0.len() - 1
        } else {
            old_idx - 1
        };
        self.focus_state.select(Some(idx));
        let mut g = self.take_field(idx);
        g.toggle_focus();
        self.put_field(idx, g);
    }

    /// Applies a keystroke to the field in focus.
    pub fn edit_in_focus(&mut self, e: FieldEdit)
        requires
            old(self).focus_valid(),
        ensures
            final(self).field_list() == old(self).field_list().update(
                old(self).focus_index(),
                edited(old(self).field_list()[old(self).focus_index()], e),
            ),
            final(self).focus_state == old(self).focus_state,
            final(self).current_command == old(self).current_command,
    {
        let i = self.focus_state.selected().unwrap();
        let mut f = self.take_field(i);
        edit_field(&mut f, e);
        self.put_field(i, f);
    }

    /// Builds a command from the fields; when it is valid the fields are
    /// emptied, otherwise they stay and the command's error is given.
    pub fn build_command(&mut self) -> (r: Result<Command, CommandError>)
        ensures
            ({
                let built = apply_fields(blank_command(), old(self).field_list(), false);
                &&& validation(built) is Ok ==> (r matches Ok(c) && c@ == built
                    && final(self).field_list() == cleared_fields(old(self).field_list()))
                &&& validation(built) matches Err(e) ==> (r == Err::<Command, CommandError>(e)
                    && final(self).field_list() == old(self).field_list())
            }),
            final(self).focus_state == old(self).focus_state,
            final(self).current_command == old(self).current_command,
    {
        let mut builder = CommandBuilder::default();
        let mut i: usize = 0;
        while i < self.fields.0.len()
            invariant
                i <= self.fields.0.len(),
                builder@ == apply_fields(blank_command(), self.field_list().take(i as int), false),
            decreases self.fields.0.len() - i,
        {
            let ghost t = self.field_list().take(i + 1);
            assert(t.drop_last() =~= self.field_list().take(i as int));
            assert(t.last() == self.fields.0@[i as int]@);
            let f = &self.fields.0[i];
            match f.field_type() {
                FieldType::Alias => {
                    builder.alias(own(f.input_text()));
                },
                FieldType::Command => {
                    builder.command(own(f.input_text()));
                },
                FieldType::Namespace => {
                    builder.namespace(own(f.input_text()));
                },
                FieldType::Description => {
                    if f.input_text().is_empty() {
                        builder.description(None::<String>);
                    } else {
                        builder.description(Some(own(f.input_text())));
                    }
                },
                FieldType::Tags => {
                    if f.input_text().is_empty() {
                        builder.tags(None::<Vec<String>>);
                    } else {
                        let pieces = split_on_char(f.input_text(), ',');
                        assert(crate::command::texts(pieces@) =~= crate::text::strs(pieces@));
                        builder.tags(Some(pieces));
                    }
                },
                FieldType::QueryBox => {},
            }
            i = i + 1;
        }
        assert(self.field_list().take(self.fields.0.len() as int) =~= self.field_list());
        let command = builder.build();
        match command.validate() {
            Ok(()) => {
                self.clear_inputs();
                Ok(command)
            },
            Err(e) => Err(e),
        }
    }

    /// Fills each field with what the edited command holds for it, the
    /// cursor at the end.
    pub fn set_selected_command_input(&mut self)
        requires
            old(self).current_command is Some,
        ensures
            final(self).field_list() == old(self).field_list().map_values(
                |f: FieldView| shown_field(old(self).current()->0, f),
            ),
            final(self).focus_state == old(self).focus_state,
            final(self).current_command == old(self).current_command,
    {
        let current = self.current_command.as_ref().unwrap().clone();
        let ghost c = current@;
        let ghost start = self.field_list();
        let mut i: usize = 0;
        while i < self.fields.0.len()
            invariant
                i <= self.fields.0.len(),
                c == old(self).current()->0,
                current@ == c,
                start == old(self).field_list(),
                self.field_list().len() == start.len(),
                self.fields.0@.len() == start.len(),
                forall|k: int| 0 <= k < i ==> self.field_list()[k] == shown_field(c, start[k]),
                forall|k: int| i <= k < self.field_list().len() ==> self.field_list()[k] == start[k],
                self.focus_state == old(self).focus_state,
                self.current_command == old(self).current_command,
            decreases self.fields.0.len() - i,
        {
            let mut f = self.take_field(i);
            proof {
                reveal_strlit(",");
            }
            let text = match f.field_type() {
                FieldType::Alias => current.alias.clone(),
                FieldType::Command => current.command.clone(),
                FieldType::Namespace => current.namespace.clone(),
                FieldType::Description => match &current.description {
                    Some(d) => d.clone(),
                    None => String::new(),
                },
                FieldType::Tags => match &current.tags {
                    Some(t) => join_strs(t, ","),
                    None => String::new(),
                },
                FieldType::QueryBox => own(f.input_text()),
            };
            f.set_input(text);
            f.reset_cursor_position();
            self.put_field(i, f);
            i = i + 1;
        }
        assert(self.field_list() =~= start.map_values(|f: FieldView| shown_field(c, f)));
    }

    /// Applies the fields to the edited command; when the result is valid
    /// the fields are emptied, otherwise they stay and the error is given.
    pub fn edit_command(&mut self) -> (r: Result<Command, CommandError>)
        requires
            old(self).current_command is Some,
        ensures
            ({
                let e = apply_fields(old(self).current()->0, old(self).field_list(), true);
                &&& validation(e) is Ok ==> (r matches Ok(c) && c@ == e
                    && final(self).field_list() == cleared_fields(old(self).field_list()))
                &&& validation(e) matches Err(err) ==> (r == Err::<Command, CommandError>(err)
                    && final(self).field_list() == old(self).field_list())
            }),
            final(self).focus_state == old(self).focus_state,
            final(self).current_command == old(self).current_command,
    {
        let mut command = self.current_command.as_ref().unwrap().clone();
        let ghost base = command@;
        let mut i: usize = 0;
        while i < self.fields.0.len()
            invariant
                i <= self.fields.0.len(),
                base == old(self).current()->0,
                command@ == apply_fields(base, self.field_list().take(i as int), true),
            decreases self.fields.0.len() - i,
        {
            let ghost t = self.field_list().take(i + 1);
            assert(t.drop_last() =~= self.field_list().take(i as int));
            assert(t.last() == self.fields.0@[i as int]@);
            let f = &self.fields.0[i];
            match f.field_type() {
                FieldType::Alias => {
                    command.alias = own(f.input_text());
                },
                FieldType::Command => {
                    command.command = own(f.input_text());
                },
                FieldType::Namespace => {
                    command.namespace = own(f.input_text());
                },
                FieldType::Description => {
                    command.description = if f.input_text().is_empty() {
                        None
                    } else {
                        Some(own(f.input_text()))
                    };
                },
                FieldType::Tags => {
                    command.tags = if f.input_text().is_empty() {
                        None
                    } else {
                        Some(split_on_char(f.input_text(), ','))
                    };
                },
                FieldType::QueryBox => {},
            }
            i = i + 1;
        }
        assert(self.field_list().take(self.fields.0.len() as int) =~= self.field_list());
        match command.validate() {
            Ok(()) => {
                self.clear_inputs();
                Ok(command)
            },
            Err(e) => Err(e),
        }
    }
}

} // verus!
