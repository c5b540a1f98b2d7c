//! The stored form of a command in the older file layout, where commands
//! are grouped by namespace, and the order the loaded items are kept in.
use vstd::prelude::*;
use crate::command::{clone_opt_string, clone_opt_strings, opt_str, opt_strs, CommandView};
use crate::text::{join, join_strs, own, strs};

verus! {

/// A stored command.
#[derive(Debug)]
pub struct CommandItem {
    pub namespace: String,
    pub command: String,
    pub description: Option<String>,
    pub alias: String,
    pub tags: Option<Vec<String>>,
}

impl View for CommandItem {
    type V = CommandView;

    open spec fn view(&self) -> CommandView {
        CommandView {
            alias: self.alias@,
            namespace: self.namespace@,
            command: self.command@,
            description: opt_str(self.description),
            tags: opt_strs(self.tags),
        }
    }
}

/// The tags of an item separated by `", "`, in their order; an item
/// without tags gives the empty string.
pub open spec fn item_tags_text(c: CommandView) -> Seq<char> {
    match c.tags {
        Some(t) => join(t, ", "@),
        None => Seq::<char>::empty(),
    }
}

/// Whether an item lacks its namespace, command or alias.
pub open spec fn item_incomplete(c: CommandView) -> bool {
    c.namespace.len() == 0 || c.command.len() == 0 || c.alias.len() == 0
}

/// The message of an incomplete item.
pub open spec fn item_incomplete_message() -> Seq<char> {
    "namespace, command and alias field cannot be empty!"@
}

/// The item shown before anything has been saved.
pub open spec fn default_item() -> CommandView {
    CommandView {
        alias: "your command alias"@,
        namespace: ""@,
        command: "your command string goes here"@,
        description: Some("a nice description of your command goes here (optional)"@),
        tags: Some(seq!["optional"@, "tags"@]),
    }
}

impl CommandItem {
    /// The tags separated by `", "`; an item without tags gives the empty string.
    pub fn tags_str(&mut self) -> (r: String)
        ensures
            r@ == item_tags_text(old(self)@),
            final(self)@ == old(self)@,
    {
        match &self.tags {
            Some(t) => join_strs(t, ", "),
            None => String::new(),
        }
    }

    /// Checks that the namespace, the command and the alias are given.
    pub fn validate(&self) -> (r: Result<(), String>)
        ensures
            item_incomplete(self@) ==> (r matches Err(m) && m@ == item_incomplete_message()),
            !item_incomplete(self@) ==> r is Ok,
    {
        if self.namespace.as_str().is_empty() || self.command.as_str().is_empty()
            || self.alias.as_str().is_empty() {
            return Err(own("namespace, command and alias field cannot be empty!"));
        }
        Ok(())
    }

    /// A copy of the item.
    pub fn duplicate(&self) -> (r: CommandItem)
        ensures
            r@ == self@,
    {
        CommandItem {
            namespace: self.namespace.clone(),
            command: self.command.clone(),
            description: clone_opt_string(&self.description),
            alias: self.alias.clone(),
            tags: clone_opt_strings(&self.tags),
        }
    }
}

impl Default for CommandItem {
    fn default() -> (r: Self)
        ensures
            r@ == default_item(),
    {
        let mut tags: Vec<String> = Vec::new();
        tags.push(own("optional"));
        tags.push(own("tags"));
        let r = CommandItem {
            namespace: own(""),
            command: own("your command string goes here"),
            description: Some(own("a nice description of your command goes here (optional)")),
            alias: own("your command alias"),
            tags: Some(tags),
        };
        assert(strs(tags@) =~= seq!["optional"@, "tags"@]);
        r
    }
}

/// Builds a `CommandItem` field by field.
pub struct CommandItemBuilder {
    namespace: String,
    command: String,
    description: Option<String>,
    alias: String,
    tags: Option<Vec<String>>,
}

impl View for CommandItemBuilder {
    type V = CommandView;

    closed spec fn view(&self) -> CommandView {
        CommandView {
            alias: self.alias@,
            namespace: self.namespace@,
            command: self.command@,
            description: opt_str(self.description),
            tags: opt_strs(self.tags),
        }
    }
}

impl Default for CommandItemBuilder {
    fn default() -> (r: Self)
        ensures
            r@ == (CommandView {
                alias: Seq::<char>::empty(),
                namespace: Seq::<char>::empty(),
                command: Seq::<char>::empty(),
                description: None,
                tags: None,
            }),
    {
        CommandItemBuilder {
            namespace: String::new(),
            command: String::new(),
            description: None,
            alias: String::new(),
            tags: None,
        }
    }
}

impl CommandItemBuilder {
    /// Sets the namespace.
    pub fn namespace(&mut self, namespace: String) -> (r: &mut CommandItemBuilder)
        ensures
            r@ == (CommandView { namespace: namespace@, ..old(self)@ }),
            final(self)@ == final(r)@,
    {
        self.namespace = namespace;
        self
    }

    /// Sets the alias.
    pub fn alias(&mut self, alias: String) -> (r: &mut CommandItemBuilder)
        ensures
            r@ == (CommandView { alias: alias@, ..old(self)@ }),
            final(self)@ == final(r)@,
    {
        self.alias = alias;
        self
    }

    /// Sets the command.
    pub fn command(&mut self, command: String) -> (r: &mut CommandItemBuilder)
        ensures
            r@ == (CommandView { command: command@, ..old(self)@ }),
            final(self)@ == final(r)@,
    {
        self.command = command;
        self
    }

    /// Sets the description.
    pub fn description(&mut self, description: Option<String>) -> (r: &mut CommandItemBuilder)
        ensures
            r@ == (CommandView { description: opt_str(description), ..old(self)@ }),
            final(self)@ == final(r)@,
    {
        self.description = description;
        self
    }

    /// Sets the tags.
    pub fn tags(&mut self, tags: Option<Vec<String>>) -> (r: &mut CommandItemBuilder)
        ensures
            r@ == (CommandView { tags: opt_strs(tags), ..old(self)@ }),
            final(self)@ == final(r)@,
    {
        self.tags = tags;
        self
    }

    /// The item with the fields set so far.
    pub fn build(self) -> (r: CommandItem)
        ensures
            r@ == self@,
    {
        CommandItem {
            namespace: self.namespace,
            command: self.command,
            description: self.description,
            alias: self.alias,
            tags: self.tags,
        }
    }
}

} // verus!
