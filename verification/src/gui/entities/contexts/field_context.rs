//! The form of the event-driven screens: five fields in a fixed place, an
//! order to move through them that follows the terminal size, the field in
//! focus, the texts before and after editing, and the command edited.
use vstd::prelude::*;
use crate::command::{texts, Command, CommandBuilder, CommandView};
use crate::gui::entities::contexts::Selectable;
use crate::gui::entities::context::{edit_field, edited, FieldEdit};
use crate::gui::entities::field::{width16, Field, FieldType, FieldView};
use crate::gui::entities::states::field_state::{blank_texts, modified, FieldState};
use crate::gui::entities::terminal::TerminalSize;
use crate::text::{join, join_strs, own, split_on, split_on_char, strs, trim, trim_str};

verus! {

/// The field kinds in the places the form keeps them.
pub open spec fn form_kinds() -> Seq<FieldType> {
    seq![FieldType::Alias, FieldType::Namespace, FieldType::Command, FieldType::Description, FieldType::Tags]
}

/// The place of a field kind in the form.
pub open spec fn place(ft: FieldType) -> int {
    match ft {
        FieldType::Alias => 0,
        FieldType::Namespace => 1,
        FieldType::Command => 2,
        FieldType::Description => 3,
        FieldType::Tags => 4,
        FieldType::QueryBox => 5,
    }
}

fn place_of(ft: FieldType) -> (r: usize)
    ensures
        r as int == place(ft),
{
    match ft {
        FieldType::Alias => 0,
        FieldType::Namespace => 1,
        FieldType::Command => 2,
        FieldType::Description => 3,
        FieldType::Tags => 4,
        FieldType::QueryBox => 5,
    }
}

/// The order to move through the fields on a small terminal.
pub open spec fn small_order() -> Seq<FieldType> {
    seq![FieldType::Alias, FieldType::Namespace, FieldType::Description, FieldType::Tags, FieldType::Command]
}

/// The order to move through the fields on a medium or large terminal.
pub open spec fn medium_order() -> Seq<FieldType> {
    seq![FieldType::Alias, FieldType::Namespace, FieldType::Command, FieldType::Description, FieldType::Tags]
}

/// The order for a terminal size.
pub open spec fn order_for(size: TerminalSize) -> Seq<FieldType> {
    match size {
        TerminalSize::Small => small_order(),
        _ => medium_order(),
    }
}

/// The tags typed in a field: the pieces between commas, trimmed, without
/// the empty ones.
pub open spec fn tag_list(s: Seq<char>) -> Seq<Seq<char>> {
    split_on(s, ',').map_values(|t: Seq<char>| trim(t)).filter(|t: Seq<char>| t.len() > 0)
}

/// The tags typed in a field.
pub fn parse_tags(s: &str) -> (r: Vec<String>)
    ensures
        strs(r@) == tag_list(s@),
{
    let pieces = split_on_char(s, ',');
    let ghost trimmed = strs(pieces@).map_values(|t: Seq<char>| trim(t));
    let mut out: Vec<String> = Vec::new();
    let mut i: usize = 0;
    while i < pieces.len()
        invariant
            i <= pieces.len(),
            trimmed == strs(pieces@).map_values(|t: Seq<char>| trim(t)),
            strs(out@) == trimmed.take(i as int).filter(|t: Seq<char>| t.len() > 0),
        decreases pieces.len() - i,
    {
        let t = trim_str(pieces[i].as_str());
        let ghost old_o = strs(out@);
        proof {
            reveal(Seq::filter);
        }
        assert(trimmed[i as int] == t@);
        assert(trimmed.take(i + 1).drop_last() =~= trimmed.take(i as int));
        assert(trimmed.take(i + 1).last() == t@);
        if !t.as_str().is_empty() {
            out.push(t);
            assert(strs(out@) =~= old_o.push(trimmed[i as int]));
        }
        i = i + 1;
    }
    assert(trimmed.take(pieces.len() as int) =~= trimmed);
    out
}

/// The form taken by view.
pub struct FormView {
    pub fields: Seq<FieldView>,
    pub order: Seq<FieldType>,
    pub selected: Option<FieldType>,
    pub original: Map<FieldType, Seq<char>>,
    pub edited: Map<FieldType, Seq<char>>,
    pub command: Option<CommandView>,
}

/// The form.
pub struct FieldContext {
    fields: Vec<Field>,
    order: Vec<FieldType>,
    state: FieldState,
    selected_command: Option<Command>,
}

/// The views of the fields.
pub open spec fn field_list(v: Seq<Field>) -> Seq<FieldView> {
    v.map_values(|f: Field| f@)
}

/// The text of the field of a kind.
pub open spec fn text_of(f: FormView, ft: FieldType) -> Seq<char> {
    f.fields[place(ft)].input
}

/// The command the fields make: alias and namespace trimmed, an empty
/// description gives none, the tags always given.
pub open spec fn built_command(f: FormView) -> CommandView {
    CommandView {
        alias: trim(text_of(f, FieldType::Alias)),
        namespace: trim(text_of(f, FieldType::Namespace)),
        command: text_of(f, FieldType::Command),
        description: if text_of(f, FieldType::Description).len() == 0 { None } else { Some(text_of(f, FieldType::Description)) },
        tags: Some(tag_list(text_of(f, FieldType::Tags))),
    }
}

/// The edited command the fields make from `c`: the texts as typed, an
/// empty description or tags field gives none.
pub open spec fn edited_command(f: FormView, c: CommandView) -> CommandView {
    CommandView {
        alias: text_of(f, FieldType::Alias),
        namespace: text_of(f, FieldType::Namespace),
        command: text_of(f, FieldType::Command),
        description: if text_of(f, FieldType::Description).len() == 0 { None } else { Some(text_of(f, FieldType::Description)) },
        tags: if text_of(f, FieldType::Tags).len() == 0 { None } else { Some(tag_list(text_of(f, FieldType::Tags))) },
    }
}

/// What a field shows for a command: its text, the tags joined with
/// `", "`, no description empty.
pub open spec fn command_text(c: CommandView, ft: FieldType) -> Seq<char> {
    match ft {
        FieldType::Alias => c.alias,
        FieldType::Namespace => c.namespace,
        FieldType::Command => c.command,
        FieldType::Description => match c.description {
            Some(d) => d,
            None => Seq::<char>::empty(),
        },
        _ => match c.tags {
            Some(t) => join(t, ", "@),
            None => Seq::<char>::empty(),
        },
    }
}

/// The form with the field of kind `ft` replaced.
pub open spec fn with_field(f: FormView, ft: FieldType, v: FieldView) -> FormView {
    FormView { fields: f.fields.update(place(ft), v), ..f }
}

/// The form with the field in focus losing the focus.
pub open spec fn unfocused(f: FormView) -> FormView {
    match f.selected {
        Some(ft) => with_field(f, ft, FieldView { in_focus: false, ..f.fields[place(ft)] }),
        None => f,
    }
}

/// The form with the field in focus taking the focus.
pub open spec fn focused(f: FormView) -> FormView {
    match f.selected {
        Some(ft) => with_field(f, ft, FieldView { in_focus: true, ..f.fields[place(ft)] }),
        None => f,
    }
}

/// The position of a kind in an order of the five kinds.
pub open spec fn order_index(order: Seq<FieldType>, ft: FieldType) -> int {
    choose|i: int| 0 <= i < order.len() && order[i] == ft
}

/// The form after moving the focus `step` places along the order.
pub open spec fn moved(f: FormView, step: int) -> FormView {
    match f.selected {
        Some(ft) => {
            let g = unfocused(f);
            let n = f.order[(order_index(f.order, ft) + step) % 5];
            focused(FormView { selected: Some(n), ..g })
        },
        None => f,
    }
}

/// The form after a keystroke in the field in focus.
pub open spec fn typed_in(f: FormView, e: FieldEdit) -> FormView {
    match f.selected {
        Some(ft) => {
            let v = edited(f.fields[place(ft)], e);
            FormView { edited: f.edited.insert(ft, v.input), ..with_field(f, ft, v) }
        },
        None => f,
    }
}

/// The form emptied: blank texts recorded, every input empty.
pub open spec fn emptied(f: FormView) -> FormView {
    FormView {
        fields: f.fields.map_values(|v: FieldView| FieldView { input: Seq::<char>::empty(), cursor: 0, ..v }),
        original: blank_texts(),
        edited: blank_texts(),
        ..f
    }
}

/// The form filled with the command edited, each cursor at the end and
/// each text recorded.
pub open spec fn filled(f: FormView) -> FormView {
    match f.command {
        Some(c) => FormView {
            fields: f.fields.map_values(|v: FieldView| FieldView {
                input: command_text(c, v.field_type),
                cursor: width16(command_text(c, v.field_type)),
                ..v
            }),
            original: texts_for(f.original, c),
            edited: texts_for(f.edited, c),
            ..f
        },
        None => f,
    }
}

/// The texts with the first `k` fields' texts for a command recorded, in
/// the places' order.
pub open spec fn texts_upto(m: Map<FieldType, Seq<char>>, c: CommandView, k: int) -> Map<FieldType, Seq<char>>
    decreases k,
{
    if k <= 0 {
        m
    } else {
        texts_upto(m, c, k - 1).insert(form_kinds()[k - 1], command_text(c, form_kinds()[k - 1]))
    }
}

/// What a field of kind `ft` shows for a command.
pub fn field_text(c: &Command, ft: FieldType) -> (r: String)
    ensures
        r@ == command_text(c@, ft),
{
    match ft {
        FieldType::Alias => own(c.alias.as_str()),
        FieldType::Namespace => own(c.namespace.as_str()),
        FieldType::Command => own(c.command.as_str()),
        FieldType::Description => match &c.description {
            Some(d) => own(d.as_str()),
            None => String::new(),
        },
        _ => match &c.tags {
            Some(t) => join_strs(t, ", "),
            None => String::new(),
        },
    }
}

/// The texts with the five fields' texts for a command recorded.
pub open spec fn texts_for(m: Map<FieldType, Seq<char>>, c: CommandView) -> Map<FieldType, Seq<char>> {
    m.insert(FieldType::Alias, command_text(c, FieldType::Alias))
        .insert(FieldType::Namespace, command_text(c, FieldType::Namespace))
        .insert(FieldType::Command, command_text(c, FieldType::Command))
        .insert(FieldType::Description, command_text(c, FieldType::Description))
        .insert(FieldType::Tags, command_text(c, FieldType::Tags))
}

/// Each kind of the form stands once in either order.
proof fn lemma_order_index(order: Seq<FieldType>, k: int)
    requires
        order == small_order() || order == medium_order(),
        0 <= k < 5,
    ensures
        order_index(order, order[k]) == k,
        order.len() == 5,
        order[k] != FieldType::QueryBox,
{
    let ft = order[k];
    assert(0 <= k < order.len() && order[k] == ft);
    let c = order_index(order, ft);
    assert(0 <= c < order.len() && order[c] == ft);
}

/// Either order holds every kind of the form.
proof fn lemma_order_has(order: Seq<FieldType>, ft: FieldType)
    requires
        order == small_order() || order == medium_order(),
        ft != FieldType::QueryBox,
    ensures
        exists|k: int| 0 <= k < 5 && order[k] == ft,
{
    match ft {
        FieldType::Alias => assert(order[0] == ft),
        FieldType::Namespace => assert(order[1] == ft),
        FieldType::Command => if order == small_order() { assert(order[4] == ft) } else { assert(order[2] == ft) },
        FieldType::Description => if order == small_order() { assert(order[2] == ft) } else { assert(order[3] == ft) },
        _ => if order == small_order() { assert(order[3] == ft) } else { assert(order[4] == ft) },
    }
}

/// Moving the focus to the next field and then to the previous one, or
/// the other way round, selects the field selected before.
pub proof fn law_form_step_round_trip(f: FormView)
    requires
        f.order == small_order() || f.order == medium_order(),
        f.selected matches Some(ft) && ft != FieldType::QueryBox,
    ensures
        moved(moved(f, 1), 4).selected == f.selected,
        moved(moved(f, 4), 1).selected == f.selected,
        moved(f, 1).order == f.order,
        moved(f, 4).order == f.order,
{
    let ft = f.selected->0;
    lemma_order_has(f.order, ft);
    let k = choose|k: int| 0 <= k < 5 && f.order[k] == ft;
    lemma_order_index(f.order, k);
    assert(order_index(f.order, ft) == k);
    let a = (k + 1) % 5;
    let b = (k + 4) % 5;
    lemma_order_index(f.order, a);
    lemma_order_index(f.order, b);
    assert(moved(f, 1).selected == Some(f.order[a]));
    assert(moved(f, 4).selected == Some(f.order[b]));
    assert((a + 4) % 5 == k);
    assert((b + 1) % 5 == k);
}

impl FieldContext {
    /// The form taken by view.
    pub closed spec fn form(&self) -> FormView {
        FormView {
            fields: field_list(self.fields@),
            order: self.order@,
            selected: self.state.focus(),
            original: self.state.original(),
            edited: self.state.edited(),
            command: match self.selected_command {
                Some(c) => Some(c@),
                None => None,
            },
        }
    }

    /// Each field sits in the place of its kind, the order is one of the
    /// two orders, and the texts are recorded for each kind.
    pub closed spec fn well_formed(&self) -> bool {
        &&& self.fields@.len() == 5
        &&& forall|i: int| 0 <= i < 5 ==> #[trigger] self.fields@[i]@.field_type == form_kinds()[i]
        &&& (self.order@ == small_order() || self.order@ == medium_order())
        &&& self.state.well_formed()
        &&& (self.state.focus() matches Some(ft) ==> ft != FieldType::QueryBox)
    }

    /// Five empty fields in the medium order, none in focus.
    pub fn new() -> (r: FieldContext)
        ensures
            r.well_formed(),
            r.form().selected is None,
            r.form().command is None,
            r.form().order == medium_order(),
    {
        let mut fields: Vec<Field> = Vec::new();
        fields.push(Field::new(own("alias"), own(" Alias "), FieldType::Alias, false));
        fields.push(Field::new(own("namespace"), own(" Namespace "), FieldType::Namespace, false));
        fields.push(Field::new(own("command"), own(" Command "), FieldType::Command, false));
        fields.push(Field::new(own("description"), own(" Description "), FieldType::Description, false));
        fields.push(Field::new(own("tags"), own(" Tags "), FieldType::Tags, false));
        let mut order: Vec<FieldType> = Vec::new();
        order.push(FieldType::Alias);
        order.push(FieldType::Namespace);
        order.push(FieldType::Command);
        order.push(FieldType::Description);
        order.push(FieldType::Tags);
        assert(order@ =~= medium_order());
        let r = FieldContext { fields, order, state: FieldState::new(), selected_command: None };
        r
    }

    /// Orders the fields for a terminal size.
    pub fn order_field_by_size(&mut self, size: TerminalSize)
        requires
            old(self).well_formed(),
        ensures
            final(self).well_formed(),
            final(self).form() == (FormView { order: order_for(size), ..old(self).form() }),
    {
        let mut order: Vec<FieldType> = Vec::new();
        order.push(FieldType::Alias);
        order.push(FieldType::Namespace);
        match size {
            TerminalSize::Small => {
                order.push(FieldType::Description);
                order.push(FieldType::Tags);
                order.push(FieldType::Command);
                assert(order@ =~= small_order());
            },
            _ => {
                order.push(FieldType::Command);
                order.push(FieldType::Description);
                order.push(FieldType::Tags);
                assert(order@ =~= medium_order());
            },
        }
        self.order = order;
    }

    /// The command edited, if any.
    pub fn selected_command(&self) -> (r: Option<&Command>)
        ensures
            match r {
                Some(c) => self.form().command == Some(c@),
                None => self.form().command is None,
            },
    {
        self.selected_command.as_ref()
    }

    /// Sets the command edited.
    pub fn select_command(&mut self, selected_command: Option<Command>)
        ensures
            final(self).well_formed() == old(self).well_formed(),
            final(self).form() == (FormView {
                command: match selected_command {
                    Some(c) => Some(c@),
                    None => None,
                },
                ..old(self).form()
            }),
    {
        self.selected_command = selected_command;
    }

    /// Puts a field in focus, or none.
    pub fn select_field(&mut self, field_type: Option<FieldType>)
        requires
            old(self).well_formed(),
            field_type != Some(FieldType::QueryBox),
        ensures
            final(self).well_formed(),
            final(self).form() == (FormView { selected: field_type, ..old(self).form() }),
    {
        self.state.select(field_type);
    }

    /// The text of the field of a kind.
    pub fn text(&self, ft: FieldType) -> (r: String)
        requires
            self.well_formed(),
            ft != FieldType::QueryBox,
        ensures
            r@ == text_of(self.form(), ft),
    {
        own(self.fields[place_of(ft)].input_text())
    }

    /// Takes the field of kind `ft` out, leaving a blank one of that kind.
    fn take_field(&mut self, ft: FieldType) -> (r: Field)
        requires
            old(self).well_formed(),
            ft != FieldType::QueryBox,
        ensures
            r@ == old(self).form().fields[place(ft)],
            r@.field_type == ft,
            final(self).well_formed(),
            final(self).form() == (FormView {
                fields: old(self).form().fields.update(place(ft), final(self).form().fields[place(ft)]),
                ..old(self).form()
            }),
    {
        let i = place_of(ft);
        let ghost before = self.fields@;
        let f = self.fields.remove(i);
        self.fields.insert(i, Field::new(String::new(), String::new(), ft, false));
        assert(field_list(self.fields@) =~= field_list(before).update(place(ft), self.fields@[place(ft)]@));
        assert forall|k: int| 0 <= k < 5 implies #[trigger] self.fields@[k]@.field_type == form_kinds()[k] by {
            if k != place(ft) {
                assert(self.fields@[k] == before[k]);
            }
        }
        assert(before[place(ft)]@.field_type == form_kinds()[place(ft)]);
        f
    }

    /// Puts `f` in the place of its kind.
    fn put_field(&mut self, ft: FieldType, f: Field)
        requires
            old(self).well_formed(),
            ft != FieldType::QueryBox,
            f@.field_type == ft,
        ensures
            final(self).well_formed(),
            final(self).form() == with_field(old(self).form(), ft, f@),
    {
        let i = place_of(ft);
        let ghost before = self.fields@;
        self.fields.set(i, f);
        assert(field_list(self.fields@) =~= field_list(before).update(place(ft), f@));
        assert forall|k: int| 0 <= k < 5 implies #[trigger] self.fields@[k]@.field_type == form_kinds()[k] by {
            if k == place(ft) {
                assert(form_kinds()[place(ft)] == ft);
            } else {
                assert(self.fields@[k] == before[k]);
            }
        }
    }

    /// The field in focus loses the focus.
    pub fn clear_selection(&mut self)
        requires
            old(self).well_formed(),
        ensures
            final(self).well_formed(),
            final(self).form() == unfocused(old(self).form()),
    {
        let ghost f0 = self.form();
        if let Some(ft) = self.state.selected() {
            let mut f = self.take_field(ft);
            f.deactivate_focus();
            self.put_field(ft, f);
            assert(self.form().fields =~= unfocused(f0).fields);
        }
    }

    /// The field in focus takes the focus.
    pub fn activate_selection(&mut self)
        requires
            old(self).well_formed(),
        ensures
            final(self).well_formed(),
            final(self).form() == focused(old(self).form()),
    {
        let ghost f0 = self.form();
        if let Some(ft) = self.state.selected() {
            let mut f = self.take_field(ft);
            f.activate_focus();
            self.put_field(ft, f);
            assert(self.form().fields =~= focused(f0).fields);
        }
    }

    /// Applies a keystroke to the field in focus and records its text.
    pub fn handle_input(&mut self, e: FieldEdit)
        requires
            old(self).well_formed(),
        ensures
            final(self).well_formed(),
            final(self).form() == typed_in(old(self).form(), e),
    {
        let ghost f0 = self.form();
        if let Some(ft) = self.state.selected() {
            let mut f = self.take_field(ft);
            edit_field(&mut f, e);
            let text = own(f.input_text());
            self.put_field(ft, f);
            assert(self.form().fields =~= typed_in(f0, e).fields);
            self.state.updated_edited_field(ft, text);
        }
    }

    /// Whether a field's text was changed since it was recorded.
    pub fn is_modified(&self) -> (r: bool)
        requires
            self.well_formed(),
        ensures
            r == modified(self.form().original, self.form().edited),
    {
        self.state.is_modified()
    }

    /// The place of a kind in the order.
    fn position(&self, ft: FieldType) -> (r: usize)
        requires
            self.well_formed(),
            ft != FieldType::QueryBox,
        ensures
            r < 5,
            self.order@[r as int] == ft,
            r as int == order_index(self.order@, ft),
    {
        proof {
            lemma_order_has(self.order@, ft);
        }
        let mut i: usize = 0;
        while i < 5
            invariant
                i <= 5,
                self.well_formed(),
                self.order@.len() == 5,
                exists|k: int| i <= k < 5 && self.order@[k] == ft,
            decreases 5 - i,
        {
            if self.order[i] == ft {
                proof {
                    lemma_order_index(self.order@, i as int);
                }
                return i;
            }
            i = i + 1;
        }
        i
    }

    /// Moves the focus `step` places along the order.
    fn step_focus(&mut self, step: usize)
        requires
            old(self).well_formed(),
            step == 1 || step == 4,
        ensures
            final(self).well_formed(),
            final(self).form() == moved(old(self).form(), step as int),
    {
        let ghost f0 = self.form();
        if let Some(ft) = self.state.selected() {
            let mut f = self.take_field(ft);
            f.deactivate_focus();
            self.put_field(ft, f);
            assert(self.form().fields =~= unfocused(f0).fields);
            let pos = self.position(ft);
            let n = (pos + step) % 5;
            let nt = self.order[n];
            proof {
                lemma_order_index(self.order@, n as int);
            }
            self.state.select(Some(nt));
            let ghost f1 = self.form();
            let mut g = self.take_field(nt);
            g.activate_focus();
            self.put_field(nt, g);
            assert(self.form().fields =~= focused(f1).fields);
        }
    }

    /// Sets each field to the text of the command edited, the cursor at its
    /// end, and records each text as both original and edited.
    pub fn popuplate_form(&mut self)
        requires
            old(self).well_formed(),
        ensures
            final(self).well_formed(),
            final(self).form() == filled(old(self).form()),
    {
        let ghost f0 = self.form();
        if self.selected_command.is_some() {
            let kinds = [FieldType::Alias, FieldType::Namespace, FieldType::Command, FieldType::Description, FieldType::Tags];
            assert(kinds@ =~= form_kinds());
            let ghost target = filled(f0);
            let ghost c = f0.command->0;
            let mut k: usize = 0;
            while k < 5
                invariant
                    k <= 5,
                    kinds@ == form_kinds(),
                    self.well_formed(),
                    f0.command == Some(c),
                    target == filled(f0),
                    f0.fields.len() == 5,
                    forall|i: int| 0 <= i < 5 ==> #[trigger] f0.fields[i].field_type == form_kinds()[i],
                    self.selected_command.is_some(),
                    self.form().command == f0.command,
                    self.form().order == f0.order,
                    self.form().selected == f0.selected,
                    forall|i: int| 0 <= i < k ==> #[trigger] self.form().fields[i] == target.fields[i],
                    forall|i: int| k <= i < 5 ==> #[trigger] self.form().fields[i] == f0.fields[i],
                    self.form().original == texts_upto(f0.original, c, k as int),
                    self.form().edited == texts_upto(f0.edited, c, k as int),
                decreases 5 - k,
            {
                let ft = kinds[k];
                assert(place(ft) == k as int);
                let text = match self.selected_command.as_ref() {
                    Some(cmd) => field_text(cmd, ft),
                    None => String::new(),
                };
                let mut f = self.take_field(ft);
                f.set_input(text.clone());
                f.reset_cursor_position();
                self.put_field(ft, f);
                self.state.update_field(ft, text);
                assert(target.fields[k as int] == (FieldView { input: command_text(c, ft), cursor: width16(command_text(c, ft)), ..f0.fields[k as int] }));
                k = k + 1;
            }
            assert(self.form().fields =~= target.fields);
            proof {
                reveal_with_fuel(texts_upto, 6);
            }
        }
    }

    /// The command the fields make.
    pub fn build_new_command(&self) -> (r: Command)
        requires
            self.well_formed(),
        ensures
            r@ == built_command(self.form()),
    {
        let mut builder = CommandBuilder::default();
        builder.alias(self.text(FieldType::Alias));
        builder.command(self.text(FieldType::Command));
        let tags = parse_tags(self.text(FieldType::Tags).as_str());
        builder.tags(Some(tags));
        let description = self.text(FieldType::Description);
        if description.as_str().is_empty() {
            builder.description(None::<String>);
        } else {
            builder.description(Some(description));
        }
        builder.namespace(self.text(FieldType::Namespace));
        let r = builder.build();
        assert(texts(tags@) =~= strs(tags@));
        r
    }

    /// The command edited, with the texts of the fields.
    pub fn build_edited_command(&self) -> (r: Command)
        requires
            self.well_formed(),
            self.form().command is Some,
        ensures
            r@ == edited_command(self.form(), self.form().command->0),
    {
        let description = self.text(FieldType::Description);
        let tags_text = self.text(FieldType::Tags);
        Command {
            alias: self.text(FieldType::Alias),
            command: self.text(FieldType::Command),
            namespace: self.text(FieldType::Namespace),
            description: if description.as_str().is_empty() { None } else { Some(description) },
            tags: if tags_text.as_str().is_empty() { None } else { Some(parse_tags(tags_text.as_str())) },
        }
    }

    /// The field in focus, if any.
    pub fn selected_field(&self) -> (r: Option<&Field>)
        requires
            self.well_formed(),
        ensures
            match self.form().selected {
                Some(ft) => r matches Some(f) && f@ == self.form().fields[place(ft)],
                None => r is None,
            },
    {
        match self.state.selected() {
            Some(ft) => Some(&self.fields[place_of(ft)]),
            None => None,
        }
    }

    /// The fields, in the places of their kinds.
    pub fn get_fields(&self) -> (r: &Vec<Field>)
        ensures
            field_list(r@) == self.form().fields,
    {
        &self.fields
    }

    /// The field in focus and the recorded texts.
    pub fn get_field_state(&self) -> (r: &FieldState)
        ensures
            r.focus() == self.form().selected,
            r.original() == self.form().original,
            r.edited() == self.form().edited,
    {
        &self.state
    }

    /// Records the text of a field as edited.
    pub fn updated_edited_field(&mut self, field: &Field)
        requires
            old(self).well_formed(),
        ensures
            final(self).well_formed(),
            final(self).form() == (FormView {
                edited: old(self).form().edited.insert(field@.field_type, field@.input),
                ..old(self).form()
            }),
    {
        self.state.updated_edited_field(*field.field_type(), own(field.input_text()));
    }

    /// Empties every field and records blank texts.
    pub fn clear_inputs(&mut self)
        requires
            old(self).well_formed(),
        ensures
            final(self).well_formed(),
            final(self).form() == emptied(old(self).form()),
    {
        let ghost f0 = self.form();
        let ghost target = emptied(f0);
        self.state.reset_fields_edition_state();
        let kinds = [FieldType::Alias, FieldType::Namespace, FieldType::Command, FieldType::Description, FieldType::Tags];
        assert(kinds@ =~= form_kinds());
        let mut k: usize = 0;
        while k < 5
            invariant
                k <= 5,
                kinds@ == form_kinds(),
                self.well_formed(),
                target == emptied(f0),
                target.fields.len() == 5,
                self.form() == (FormView { fields: self.form().fields, ..target }),
                forall|i: int| 0 <= i < k ==> #[trigger] self.form().fields[i] == target.fields[i],
                f0.fields.len() == 5,
                forall|i: int| k <= i < 5 ==> #[trigger] self.form().fields[i] == f0.fields[i],
            decreases 5 - k,
        {
            let ft = kinds[k];
            assert(place(ft) == k as int);
            assert(target.fields[k as int] == (FieldView { input: Seq::<char>::empty(), cursor: 0, ..f0.fields[k as int] }));
            let mut f = self.take_field(ft);
            f.clear_input();
            self.put_field(ft, f);
            k = k + 1;
        }
        assert(self.form().fields =~= target.fields);
    }
}

impl Selectable for FieldContext {
    open spec fn has_items(&self) -> bool {
        self.well_formed()
    }

    /// Moves the focus to the next field of the order, or the first after
    /// the last.
    fn next(&mut self)
        ensures
            final(self).well_formed(),
            final(self).form() == moved(old(self).form(), 1),
    {
        self.step_focus(1);
    }

    /// Moves the focus to the previous field of the order, or the last
    /// before the first.
    fn previous(&mut self)
        ensures
            final(self).well_formed(),
            final(self).form() == moved(old(self).form(), 4),
    {
        self.step_focus(4);
    }
}

} // verus!
