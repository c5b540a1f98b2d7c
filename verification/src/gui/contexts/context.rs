//! The form that edits a stored item: named inputs, the one in focus, and
//! the item being edited.
use vstd::prelude::*;
use crate::command::{opt_str, opt_strs, CommandView};
use crate::command_item::{
    item_incomplete, item_incomplete_message, CommandItem, CommandItemBuilder,
};
use crate::gui::list_state::ListState;
use crate::text::{join, join_strs, own, pop_char, push_char, split_on, split_on_char, str_eq, strs};

verus! {

/// An input taken by view.
pub struct ItemView {
    pub name: Seq<char>,
    pub in_focus: bool,
    pub input: Seq<char>,
}

/// A named input of the form and whether it has the focus.
#[derive(Debug)]
pub struct Item {
    name: String,
    in_focus: bool,
    pub input: String,
}

impl View for Item {
    type V = ItemView;

    closed spec fn view(&self) -> ItemView {
        ItemView { name: self.name@, in_focus: self.in_focus, input: self.input@ }
    }
}

impl Item {
    /// An empty input.
    pub fn new(name: String, in_focus: bool) -> (r: Item)
        ensures
            r@ == (ItemView { name: name@, in_focus, input: Seq::<char>::empty() }),
    {
        Item { name, in_focus, input: String::new() }
    }

    /// Gives or takes the focus.
    pub fn toggle_focus(&mut self)
        ensures
            final(self)@ == (ItemView { in_focus: !old(self)@.in_focus, ..old(self)@ }),
    {
        self.in_focus = !self.in_focus;
    }

    /// Appends a character to the input.
    pub fn push(&mut self, c: char)
        ensures
            final(self)@ == (ItemView { input: old(self)@.input.push(c), ..old(self)@ }),
    {
        push_char(&mut self.input, c);
    }

    /// Removes the last character of the input, if any.
    pub fn pop(&mut self)
        ensures
            final(self)@ == (ItemView {
                input: if old(self)@.input.len() > 0 {
                    old(self)@.input.drop_last()
                } else {
                    old(self)@.input
                },
                ..old(self)@
            }),
    {
        pop_char(&mut self.input);
    }

    /// Empties the input.
    pub fn clear_input(&mut self)
        ensures
            final(self)@ == (ItemView { input: Seq::<char>::empty(), ..old(self)@ }),
    {
        self.input = String::new();
    }

    /// The item itself, to change it in place.
    pub fn get_mut_ref(&mut self) -> (r: &mut Item)
        ensures
            *r == *old(self),
            *final(self) == *final(r),
    {
        self
    }

    /// The name of the input.
    pub fn name(&self) -> (r: &str)
        ensures
            r@ == self@.name,
    {
        self.name.as_str()
    }
}

/// The views of the inputs.
pub open spec fn item_views(v: Seq<Item>) -> Seq<ItemView> {
    v.map_values(|i: Item| i@)
}

/// What an input gives to the item: its text as the field it is named
/// after; an empty description or tags input gives none; the tags are the
/// pieces between commas.
pub open spec fn apply_item(c: CommandView, it: ItemView) -> CommandView {
    if it.name == "alias"@ {
        CommandView { alias: it.input, ..c }
    } else if it.name == "command"@ {
        CommandView { command: it.input, ..c }
    } else if it.name == "namespace"@ {
        CommandView { namespace: it.input, ..c }
    } else if it.name == "description"@ {
        CommandView { description: if it.input.len() == 0 { None } else { Some(it.input) }, ..c }
    } else if it.name == "tags"@ {
        CommandView { tags: if it.input.len() == 0 { None } else { Some(split_on(it.input, ',')) }, ..c }
    } else {
        c
    }
}

/// What the inputs give to the item, applied in order.
pub open spec fn apply_items(c: CommandView, items: Seq<ItemView>) -> CommandView
    decreases items.len(),
{
    if items.len() == 0 {
        c
    } else {
        apply_item(apply_items(c, items.drop_last()), items.last())
    }
}

/// An item with every field empty.
pub open spec fn blank_item() -> CommandView {
    CommandView {
        alias: Seq::<char>::empty(),
        namespace: Seq::<char>::empty(),
        command: Seq::<char>::empty(),
        description: None,
        tags: None,
    }
}

/// The inputs with their texts emptied.
pub open spec fn cleared(items: Seq<ItemView>) -> Seq<ItemView> {
    items.map_values(|it: ItemView| ItemView { input: Seq::<char>::empty(), ..it })
}

/// What an input shows for an item: the field it is named after; no
/// description shows empty, and the tags are joined with commas.
pub open spec fn item_text(c: CommandView, name: Seq<char>, input: Seq<char>) -> Seq<char> {
    if name == "alias"@ {
        c.alias
    } else if name == "command"@ {
        c.command
    } else if name == "namespace"@ {
        c.namespace
    } else if name == "description"@ {
        match c.description {
            Some(d) => d,
            None => Seq::<char>::empty(),
        }
    } else if name == "tags"@ {
        match c.tags {
            Some(t) => join(t, ","@),
            None => Seq::<char>::empty(),
        }
    } else {
        input
    }
}

/// The form.
pub struct Context {
    pub focus_state: ListState,
    pub items: Vec<Item>,
    pub current_command: Option<CommandItem>,
}

impl Context {
    /// The inputs.
    pub closed spec fn inputs(&self) -> Seq<ItemView> {
        item_views(self.items@)
    }

    /// The item edited, if any.
    pub open spec fn current(&self) -> Option<CommandView> {
        match self.current_command {
            Some(c) => Some(c@),
            None => None,
        }
    }

    /// A form with the given inputs, empty, nothing selected.
    pub fn new(items: Vec<(String, bool)>) -> (r: Context)
        ensures
            r.inputs() == items@.map_values(
                |p: (String, bool)| ItemView { name: p.0@, in_focus: p.1, input: Seq::<char>::empty() },
            ),
            r.focus_state.selection() is None,
            r.current_command is None,
    {
        let ghost target = items@.map_values(
            |p: (String, bool)| ItemView { name: p.0@, in_focus: p.1, input: Seq::<char>::empty() },
        );
        let mut out: Vec<Item> = Vec::new();
        let n = items.len();
        let mut rest = items;
        let ghost orig = rest@;
        let mut i: usize = 0;
        while rest.len() > 0
            invariant
                orig == items@,
                target == orig.map_values(
                    |p: (String, bool)| ItemView { name: p.0@, in_focus: p.1, input: Seq::<char>::empty() },
                ),
                i + rest@.len() == orig.len(),
                orig.len() == n,
                rest@ == orig.skip(i as int),
                item_views(out@) == target.take(i as int),
            decreases rest.len(),
        {
            let (name, focus) = rest.remove(0);
            assert(rest@ =~= orig.skip(i + 1));
            let ghost old_o = item_views(out@);
            out.push(Item::new(name, focus));
            assert(item_views(out@) =~= old_o.push(target[i as int]));
            assert(target.take(i + 1) =~= target.take(i as int).push(target[i as int]));
            i = i + 1;
        }
        assert(target.take(i as int) =~= target);
        Context { items: out, focus_state: ListState::new(), current_command: None }
    }

    /// The item edited, if any.
    pub fn get_current_command(&self) -> (r: Option<&CommandItem>)
        ensures
            match r {
                Some(c) => self.current_command == Some(*c),
                None => self.current_command is None,
            },
    {
        self.current_command.as_ref()
    }

    /// Sets the item edited.
    pub fn set_current_command(&mut self, command: Option<CommandItem>)
        ensures
            final(self).current_command == command,
            final(self).inputs() == old(self).inputs(),
            final(self).focus_state == old(self).focus_state,
    {
        self.current_command = command;
    }

    /// Empties every input.
    fn clear_inputs(&mut self)
        ensures
            final(self).inputs() == cleared(old(self).inputs()),
            final(self).focus_state == old(self).focus_state,
            final(self).current_command == old(self).current_command,
    {
        let ghost start = self.inputs();
        let mut i: usize = 0;
        while i < self.items.len()
            invariant
                i <= self.items.len(),
                self.inputs().len() == start.len(),
                forall|k: int| 0 <= k < i ==> self.inputs()[k] == (ItemView { input: Seq::<char>::empty(), ..start[k] }),
                forall|k: int| i <= k < self.inputs().len() ==> self.inputs()[k] == start[k],
                self.focus_state == old(self).focus_state,
                self.current_command == old(self).current_command,
                start == old(self).inputs(),
            decreases self.items.len() - i,
        {
            let ghost before = self.inputs();
            let mut item = self.items.remove(i);
            item.clear_input();
            self.items.insert(i, item);
            assert(self.inputs() =~= before.update(i as int, ItemView { input: Seq::<char>::empty(), ..before[i as int] }));
            i = i + 1;
        }
        assert(self.inputs() =~= cleared(start));
    }

    /// Whether the input in focus has the given name and the focus.
    pub fn is_in_focus(&self, name: &str) -> (r: bool)
        requires
            self.focus_state.selection() matches Some(i) && i < self.inputs().len(),
        ensures
            r == (self.inputs()[self.focus_state.selection()->0 as int].name == name@
                && self.inputs()[self.focus_state.selection()->0 as int].in_focus),
    {
        let i = self.focus_state.selected().unwrap();
        let item = &self.items[i];
        str_eq(item.name.as_str(), name) && item.in_focus
    }

    /// The text of the input with the given name.
    pub fn get_component_input(&self, component_name: &str) -> (r: String)
        requires
            exists|k: int| 0 <= k < self.inputs().len() && #[trigger] self.inputs()[k].name == component_name@,
        ensures
            exists|k: int| 0 <= k < self.inputs().len() && self.inputs()[k].name == component_name@
                && r@ == self.inputs()[k].input && forall|j: int| 0 <= j < k ==> #[trigger] self.inputs()[j].name != component_name@,
    {
        let mut i: usize = 0;
        while i < self.items.len()
            invariant
                i <= self.items.len(),
                exists|k: int| i <= k < self.inputs().len() && #[trigger] self.inputs()[k].name == component_name@,
                forall|j: int| 0 <= j < i ==> #[trigger] self.inputs()[j].name != component_name@,
            decreases self.items.len() - i,
        {
            assert(self.inputs()[i as int] == self.items@[i as int]@);
            if str_eq(self.items[i].name.as_str(), component_name) {
                return self.items[i].input.clone();
            }
            i = i + 1;
        }
        String::new()
    }

    /// Gives or takes the focus of the input at `i`.
    fn toggle_at(&mut self, i: usize)
        requires
            i < old(self).inputs().len(),
        ensures
            final(self).inputs() == old(self).inputs().update(
                i as int,
                ItemView { in_focus: !old(self).inputs()[i as int].in_focus, ..old(self).inputs()[i as int] },
            ),
            final(self).focus_state == old(self).focus_state,
            final(self).current_command == old(self).current_command,
    {
        let ghost before = self.inputs();
        let mut item = self.items.remove(i);
        item.toggle_focus();
        self.items.insert(i, item);
        assert(self.inputs() =~= before.update(
            i as int,
            ItemView { in_focus: !before[i as int].in_focus, ..before[i as int] },
        ));
    }

    /// Moves the focus to the next input, or the first after the last.
    pub fn next(&mut self)
        requires
            old(self).focus_state.selection() matches Some(i) && i < old(self).inputs().len(),
        ensures
            ({
                let i = old(self).focus_state.selection()->0;
                let n = old(self).inputs().len();
                let j: usize = if i >= n - 1 { 0 } else { (i + 1) as usize };
                let t = old(self).inputs().update(
                    i as int,
                    ItemView { in_focus: !old(self).inputs()[i as int].in_focus, ..old(self).inputs()[i as int] },
                );
                &&& final(self).focus_state.selection() == Some(j)
                &&& final(self).inputs() == t.update(j as int, ItemView { in_focus: !t[j as int].in_focus, ..t[j as int] })
            }),
            final(self).current_command == old(self).current_command,
    {
        assert(self.inputs().len() == self.items@.len());
        let old_i = self.focus_state.selected().unwrap();
        self.toggle_at(old_i);
        assert(self.inputs().len() == self.items@.len());
        let i = if old_i >= self.items.len() - 1 {
            0
        } else {
            old_i + 1
        };
        self.focus_state.select(Some(i));
        self.toggle_at(i);
    }

    /// Moves the focus to the previous input, or the last before the first.
    pub fn previous(&mut self)
        requires
            old(self).focus_state.selection() matches Some(i) && i < old(self).inputs().len(),
        ensures
            ({
                let i = old(self).focus_state.selection()->0;
                let n = old(self).inputs().len();
                let j: usize = if i == 0 { (n - 1) as usize } else { (i - 1) as usize };
                let t = old(self).inputs().update(
                    i as int,
                    ItemView { in_focus: !old(self).inputs()[i as int].in_focus, ..old(self).inputs()[i as int] },
                );
                &&& final(self).focus_state.selection() == Some(j)
                &&& final(self).inputs() == t.update(j as int, ItemView { in_focus: !t[j as int].in_focus, ..t[j as int] })
            }),
            final(self).current_command == old(self).current_command,
    {
        assert(self.inputs().len() == self.items@.len());
        let old_i = self.focus_state.selected().unwrap();
        self.toggle_at(old_i);
        assert(self.inputs().len() == self.items@.len());
        let i = if old_i == 0 {
            self.items.len() - 1
        } else {
            old_i - 1
        };
        self.focus_state.select(Some(i));
        self.toggle_at(i);
    }

    /// Types `c` at the end of the input in focus.
    pub fn push_in_focus(&mut self, c: char)
        requires
            old(self).focus_state.selection() matches Some(i) && i < old(self).inputs().len(),
        ensures
            ({
                let i = old(self).focus_state.selection()->0 as int;
                final(self).inputs() == old(self).inputs().update(
                    i,
                    ItemView { input: old(self).inputs()[i].input.push(c), ..old(self).inputs()[i] },
                )
            }),
            final(self).focus_state == old(self).focus_state,
            final(self).current_command == old(self).current_command,
    {
        let i = self.focus_state.selected().unwrap();
        let ghost before = self.inputs();
        let mut item = self.items.remove(i);
        item.push(c);
        self.items.insert(i, item);
        assert(self.inputs() =~= before.update(
            i as int,
            ItemView { input: before[i as int].input.push(c), ..before[i as int] },
        ));
    }

    /// Removes the last character of the input in focus.
    pub fn pop_in_focus(&mut self)
        requires
            old(self).focus_state.selection() matches Some(i) && i < old(self).inputs().len(),
        ensures
            ({
                let i = old(self).focus_state.selection()->0 as int;
                let t = old(self).inputs()[i].input;
                final(self).inputs() == old(self).inputs().update(
                    i,
                    ItemView { input: if t.len() > 0 { t.drop_last() } else { t }, ..old(self).inputs()[i] },
                )
            }),
            final(self).focus_state == old(self).focus_state,
            final(self).current_command == old(self).current_command,
    {
        let i = self.focus_state.selected().unwrap();
        let ghost before = self.inputs();
        let mut item = self.items.remove(i);
        item.pop();
        self.items.insert(i, item);
        let ghost t = before[i as int].input;
        assert(self.inputs() =~= before.update(
            i as int,
            ItemView { input: if t.len() > 0 { t.drop_last() } else { t }, ..before[i as int] },
        ));
    }

    /// Builds an item from the inputs; when it is complete the inputs are
    /// emptied, otherwise they stay and the item's error is given.
    pub fn build_command(&mut self) -> (r: Result<CommandItem, String>)
        ensures
            ({
                let built = apply_items(blank_item(), old(self).inputs());
                &&& !item_incomplete(built) ==> (r matches Ok(c) && c@ == built
                    && final(self).inputs() == cleared(old(self).inputs()))
                &&& item_incomplete(built) ==> (r matches Err(m) && m@ == item_incomplete_message()
                    && final(self).inputs() == old(self).inputs())
            }),
            final(self).focus_state == old(self).focus_state,
            final(self).current_command == old(self).current_command,
    {
        let mut builder = CommandItemBuilder::default();
        let mut i: usize = 0;
        while i < self.items.len()
            invariant
                i <= self.items.len(),
                builder@ == apply_items(blank_item(), self.inputs().take(i as int)),
            decreases self.items.len() - i,
        {
            let ghost t = self.inputs().take(i + 1);
            assert(t.drop_last() =~= self.inputs().take(i as int));
            assert(t.last() == self.items@[i as int]@);
            let item = &self.items[i];
            proof {
                reveal_strlit("alias");
                reveal_strlit("command");
                reveal_strlit("namespace");
                reveal_strlit("description");
                reveal_strlit("tags");
            }
            let name = item.name.as_str();
            if str_eq(name, "alias") {
                builder.alias(item.input.clone());
            } else if str_eq(name, "command") {
                builder.command(item.input.clone());
            } else if str_eq(name, "namespace") {
                builder.namespace(item.input.clone());
            } else if str_eq(name, "description") {
                if item.input.as_str().is_empty() {
                    builder.description(None);
                } else {
                    builder.description(Some(item.input.clone()));
                }
            } else if str_eq(name, "tags") {
                if item.input.as_str().is_empty() {
                    builder.tags(None);
                } else {
                    builder.tags(Some(split_on_char(item.input.as_str(), ',')));
                }
            }
            i = i + 1;
        }
        assert(self.inputs().take(self.items.len() as int) =~= self.inputs());
        let command = builder.build();
        match command.validate() {
            Ok(()) => {
                self.clear_inputs();
                Ok(command)
            },
            Err(e) => Err(e),
        }
    }

    /// Fills each input with what the edited item holds for it.
    pub fn set_selected_command_inputs(&mut self)
        requires
            old(self).current_command is Some,
        ensures
            final(self).inputs() == old(self).inputs().map_values(
                |it: ItemView| ItemView { input: item_text(old(self).current()->0, it.name, it.input), ..it },
            ),
            final(self).focus_state == old(self).focus_state,
            final(self).current_command == old(self).current_command,
    {
        let current = self.current_command.as_ref().unwrap().duplicate();
        let ghost c = current@;
        let ghost start = self.inputs();
        let mut i: usize = 0;
        while i < self.items.len()
            invariant
                i <= self.items.len(),
                c == old(self).current()->0,
                current@ == c,
                start == old(self).inputs(),
                self.inputs().len() == start.len(),
                forall|k: int| 0 <= k < i ==> self.inputs()[k] == (ItemView {
                    input: item_text(c, start[k].name, start[k].input),
                    ..start[k]
                }),
                forall|k: int| i <= k < self.inputs().len() ==> self.inputs()[k] == start[k],
                self.focus_state == old(self).focus_state,
                self.current_command == old(self).current_command,
            decreases self.items.len() - i,
        {
            let ghost before = self.inputs();
            assert(before[i as int] == self.items@[i as int]@);
            let mut item = self.items.remove(i);
            assert(item@ == start[i as int]);
            proof {
                reveal_strlit("alias");
                reveal_strlit("command");
                reveal_strlit("namespace");
                reveal_strlit("description");
                reveal_strlit("tags");
                reveal_strlit(",");
            }
            let name = item.name.as_str();
            let text = if str_eq(name, "alias") {
                current.alias.clone()
            } else if str_eq(name, "command") {
                current.command.clone()
            } else if str_eq(name, "namespace") {
                current.namespace.clone()
            } else if str_eq(name, "description") {
                match &current.description {
                    Some(d) => d.clone(),
                    None => String::new(),
                }
            } else if str_eq(name, "tags") {
                match &current.tags {
                    Some(t) => join_strs(t, ","),
                    None => String::new(),
                }
            } else {
                item.input.clone()
            };
            assert(current@ == c);
            assert(text@ == item_text(c, start[i as int].name, start[i as int].input));
            item.input = text;
            assert(item@ == (ItemView { input: item_text(c, start[i as int].name, start[i as int].input), ..start[i as int] }));
            self.items.insert(i, item);
            assert(self.inputs() =~= before.update(
                i as int,
                ItemView { input: item_text(c, start[i as int].name, start[i as int].input), ..start[i as int] },
            ));
            i = i + 1;
        }
        assert(self.inputs() =~= start.map_values(
            |it: ItemView| ItemView { input: item_text(c, it.name, it.input), ..it },
        ));
    }

    /// Applies the inputs to the edited item; when the result is complete
    /// the inputs are emptied, otherwise they stay and the item's error is
    /// given.
    pub fn edit_command(&mut self) -> (r: Result<CommandItem, String>)
        requires
            old(self).current_command is Some,
        ensures
            ({
                let edited = apply_items(old(self).current()->0, old(self).inputs());
                &&& !item_incomplete(edited) ==> (r matches Ok(c) && c@ == edited
                    && final(self).inputs() == cleared(old(self).inputs()))
                &&& item_incomplete(edited) ==> (r matches Err(m) && m@ == item_incomplete_message()
                    && final(self).inputs() == old(self).inputs())
            }),
            final(self).focus_state == old(self).focus_state,
            final(self).current_command == old(self).current_command,
    {
        let mut command = self.current_command.as_ref().unwrap().duplicate();
        let ghost base = command@;
        let mut i: usize = 0;
        while i < self.items.len()
            invariant
                i <= self.items.len(),
                base == old(self).current()->0,
                command@ == apply_items(base, self.inputs().take(i as int)),
            decreases self.items.len() - i,
        {
            let ghost t = self.inputs().take(i + 1);
            assert(t.drop_last() =~= self.inputs().take(i as int));
            assert(t.last() == self.items@[i as int]@);
            let item = &self.items[i];
            proof {
                reveal_strlit("alias");
                reveal_strlit("command");
                reveal_strlit("namespace");
                reveal_strlit("description");
                reveal_strlit("tags");
            }
            let name = item.name.as_str();
            if str_eq(name, "alias") {
                command.alias = item.input.clone();
            } else if str_eq(name, "command") {
                command.command = item.input.clone();
            } else if str_eq(name, "namespace") {
                command.namespace = item.input.clone();
            } else if str_eq(name, "description") {
                command.description = if item.input.as_str().is_empty() {
                    None
                } else {
                    Some(item.input.clone())
                };
            } else if str_eq(name, "tags") {
                command.tags = if item.input.as_str().is_empty() {
                    None
                } else {
                    Some(split_on_char(item.input.as_str(), ','))
                };
            }
            i = i + 1;
        }
        assert(self.inputs().take(self.items.len() as int) =~= self.inputs());
        match command.validate() {
            Ok(()) => {
                self.clear_inputs();
                Ok(command)
            },
            Err(e) => Err(e),
        }
    }
}

} // verus!
