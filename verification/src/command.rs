//! A stored command: its alias, namespace, command line, description and tags.
use vstd::prelude::*;
use crate::order::{sort_seqs, sort_strings};
use crate::text::{
    chars_of, concat, contains_char, contains_seq, contains_str, join, join_strs, own, strs,
    trim, trim_str,
};

verus! {

/// Something that can be turned into a `String`.
pub trait IntoText {
    /// The characters of the text.
    spec fn text(&self) -> Seq<char>;

    /// The text as an owned `String`.
    fn to_text(&self) -> (r: String)
        ensures
            r@ == self.text(),
    ;
}

impl<'a> IntoText for &'a str {
    open spec fn text(&self) -> Seq<char> {
        (**self)@
    }

    fn to_text(&self) -> (r: String) {
        (**self).to_owned()
    }
}

impl IntoText for String {
    open spec fn text(&self) -> Seq<char> {
        self@
    }

    fn to_text(&self) -> (r: String) {
        self.clone()
    }
}

/// An optional string taken by view.
pub open spec fn opt_str(o: Option<String>) -> Option<Seq<char>> {
    match o {
        Some(s) => Some(s@),
        None => None,
    }
}

/// An optional list of strings taken by view.
pub open spec fn opt_strs(o: Option<Vec<String>>) -> Option<Seq<Seq<char>>> {
    match o {
        Some(v) => Some(strs(v@)),
        None => None,
    }
}

/// A copy of a list of strings.
pub fn clone_strings(v: &Vec<String>) -> (r: Vec<String>)
    ensures
        r@ == v@,
{
    let mut out: Vec<String> = Vec::new();
    let mut i: usize = 0;
    while i < v.len()
        invariant
            i <= v.len(),
            out@ == v@.take(i as int),
        decreases v.len() - i,
    {
        out.push(v[i].clone());
        assert(v@.take(i + 1) == v@.take(i as int).push(v@[i as int]));
        i = i + 1;
    }
    assert(v@.take(v.len() as int) == v@);
    out
}

/// A copy of an optional string.
pub fn clone_opt_string(o: &Option<String>) -> (r: Option<String>)
    ensures
        r == *o,
{
    match o {
        Some(s) => Some(s.clone()),
        None => None,
    }
}

/// A copy of an optional list of strings.
pub fn clone_opt_strings(o: &Option<Vec<String>>) -> (r: Option<Vec<String>>)
    ensures
        opt_strs(r) == opt_strs(*o),
{
    match o {
        Some(v) => Some(clone_strings(v)),
        None => None,
    }
}

/// The ways a command can be invalid, or fail to run.
#[derive(Debug)]
pub enum CommandError {
    EmptyCommand,
    AliasWithWhitespaces,
    NamespaceWithWhitespaces,
    CannotRunCommand { command: String, cause: String },
}

impl CommandError {
    /// The message of this error.
    pub open spec fn message(&self) -> Seq<char> {
        match self {
            CommandError::EmptyCommand => "Namespace, command and alias field cannot be empty!"@,
            CommandError::AliasWithWhitespaces =>
                "The alias must not contain whitespace as the application uses it to identify the command"@,
            CommandError::NamespaceWithWhitespaces =>
                "The namespace must not contain whitespace as the application uses it to identify the command"@,
            CommandError::CannotRunCommand { command, cause } => "Cannot run the command `"@
                + command@ + "`\n\n"@ + cause@,
        }
    }

    /// The message of this error.
    pub fn to_string(&self) -> (r: String)
        ensures
            r@ == self.message(),
    {
        match self {
            CommandError::EmptyCommand => own("Namespace, command and alias field cannot be empty!"),
            CommandError::AliasWithWhitespaces => own(
                "The alias must not contain whitespace as the application uses it to identify the command",
            ),
            CommandError::NamespaceWithWhitespaces => own(
                "The namespace must not contain whitespace as the application uses it to identify the command",
            ),
            CommandError::CannotRunCommand { command, cause } => {
                let a = concat("Cannot run the command `", command.as_str());
                let b = concat(a.as_str(), "`\n\n");
                concat(b.as_str(), cause.as_str())
            },
        }
    }
}

/// A stored command.
#[derive(Debug)]
pub struct Command {
    /// The command's alias. Is a `required` field and should not have empty spaces in it
    pub alias: String,
    /// The command's namespace. Is a `required` field and should not have empty spaces in it
    pub namespace: String,
    /// The command itself. Is a `required` field and can have multiple lines
    pub command: String,
    /// The command's description. Not a required field
    pub description: Option<String>,
    /// The command's tags. Not a required field
    pub tags: Option<Vec<String>>,
}

/// A command with its texts taken by view.
pub struct CommandView {
    pub alias: Seq<char>,
    pub namespace: Seq<char>,
    pub command: Seq<char>,
    pub description: Option<Seq<char>>,
    pub tags: Option<Seq<Seq<char>>>,
}

impl View for Command {
    type V = CommandView;

    open spec fn view(&self) -> CommandView {
        CommandView {
            alias: self.alias@,
            namespace: self.namespace@,
            command: self.command@,
            description: opt_str(self.description),
            tags: opt_strs(self.tags),
        }
    }
}

/// The tags of a command, or a single empty tag when it has none.
pub open spec fn tags_or_blank(t: Option<Seq<Seq<char>>>) -> Seq<Seq<char>> {
    match t {
        Some(t) => t,
        None => seq![Seq::<char>::empty()],
    }
}

/// The tags of a command in ascending order, separated by `", "`.
pub open spec fn tags_text(c: CommandView) -> Seq<char> {
    join(sort_seqs(tags_or_blank(c.tags)), ", "@)
}

/// The description of a command, or the empty string when it has none.
pub open spec fn description_text(c: CommandView) -> Seq<char> {
    match c.description {
        Some(d) => d,
        None => Seq::<char>::empty(),
    }
}

/// Whether a mandatory field is blank once trimmed.
pub open spec fn incomplete(c: CommandView) -> bool {
    trim(c.namespace).len() == 0 || trim(c.alias).len() == 0 || trim(c.command).len() == 0
}

/// The first rule that a command breaks, if any.
pub open spec fn validation_error(c: CommandView) -> Option<CommandError> {
    if incomplete(c) {
        Some(CommandError::EmptyCommand)
    } else if trim(c.alias).contains(' ') {
        Some(CommandError::AliasWithWhitespaces)
    } else if trim(c.namespace).contains(' ') {
        Some(CommandError::NamespaceWithWhitespaces)
    } else {
        None
    }
}

/// The outcome of validating a command with the given view.
pub open spec fn validation(c: CommandView) -> Result<(), CommandError> {
    match validation_error(c) {
        Some(e) => Err(e),
        None => Ok(()),
    }
}

/// The opening of a named parameter placeholder.
pub open spec fn placeholder_opening() -> Seq<char> {
    "#{"@
}

/// The command shown when nothing has been saved yet.
pub open spec fn default_command() -> CommandView {
    CommandView {
        alias: "your command alias"@,
        namespace: ""@,
        command: "echo \"this is your command\""@,
        description: Some(
            "This is a demo entry and will be removed as soon you save your first command.
                Also, a nice description of your command goes here (optional)"@,
        ),
        tags: Some(seq!["optional"@, "tags"@, "comma"@, "separated"@]),
    }
}

impl Command {
    /// The tags in ascending order separated by `", "`; a command without
    /// tags gives the empty string.
    pub fn tags_as_string(&self) -> (r: String)
        ensures
            r@ == tags_text(self@),
    {
        let tags = match &self.tags {
            Some(t) => clone_strings(t),
            None => {
                let mut v: Vec<String> = Vec::new();
                v.push(String::new());
                assert(strs(v@) =~= seq![Seq::<char>::empty()]);
                v
            },
        };
        let sorted = sort_strings(&tags);
        join_strs(&sorted, ", ")
    }

    /// The description, or the empty string when there is none.
    pub fn description(&self) -> (r: String)
        ensures
            r@ == description_text(self@),
    {
        match &self.description {
            Some(d) => d.clone(),
            None => String::new(),
        }
    }

    /// Whether the namespace, the alias or the command is blank.
    pub fn is_incomplete(&self) -> (r: bool)
        ensures
            r == incomplete(self@),
    {
        let ns = trim_str(self.namespace.as_str());
        let alias = trim_str(self.alias.as_str());
        let command = trim_str(self.command.as_str());
        ns.as_str().is_empty() || alias.as_str().is_empty() || command.as_str().is_empty()
    }

    /// Checks that the mandatory fields are filled and that the alias and
    /// the namespace hold no space.
    pub fn validate(&self) -> (r: Result<(), CommandError>)
        ensures
            r == validation(self@),
    {
        if self.is_incomplete() {
            return Err(CommandError::EmptyCommand);
        }
        let alias = trim_str(self.alias.as_str());
        if contains_char(alias.as_str(), ' ') {
            return Err(CommandError::AliasWithWhitespaces);
        }
        let ns = trim_str(self.namespace.as_str());
        if contains_char(ns.as_str(), ' ') {
            return Err(CommandError::NamespaceWithWhitespaces);
        }
        Ok(())
    }

    /// Whether the command holds a named parameter placeholder (`#{`).
    pub fn has_named_parameter(&self) -> (r: bool)
        ensures
            r == contains_seq(self.command@, placeholder_opening()),
    {
        contains_str(self.command.as_str(), "#{")
    }
}

impl Clone for Command {
    fn clone(&self) -> (r: Self)
        ensures
            r@ == self@,
    {
        Command {
            alias: self.alias.clone(),
            namespace: self.namespace.clone(),
            command: self.command.clone(),
            description: clone_opt_string(&self.description),
            tags: clone_opt_strings(&self.tags),
        }
    }
}

impl Default for Command {
    fn default() -> (r: Self)
        ensures
            r@ == default_command(),
    {
        let mut tags: Vec<String> = Vec::new();
        tags.push(own("optional"));
        tags.push(own("tags"));
        tags.push(own("comma"));
        tags.push(own("separated"));
        let r = Command {
            namespace: own(""),
            command: own("echo \"this is your command\""),
            description: Some(
                own(
                    "This is a demo entry and will be removed as soon you save your first command.
                Also, a nice description of your command goes here (optional)",
                ),
            ),
            alias: own("your command alias"),
            tags: Some(tags),
        };
        assert(strs(tags@) =~= seq!["optional"@, "tags"@, "comma"@, "separated"@]);
        r
    }
}

impl PartialEq for Command {
    fn eq(&self, other: &Self) -> (r: bool) {
        self.alias == other.alias && self.namespace == other.namespace
    }
}

impl vstd::std_specs::cmp::PartialEqSpecImpl for Command {
    open spec fn obeys_eq_spec() -> bool {
        true
    }

    open spec fn eq_spec(&self, other: &Command) -> bool {
        self.alias@ == other.alias@ && self.namespace@ == other.namespace@
    }
}

/// Builds a `Command` field by field.
pub struct CommandBuilder {
    namespace: String,
    command: String,
    description: Option<String>,
    alias: String,
    tags: Option<Vec<String>>,
}

impl View for CommandBuilder {
    type V = CommandView;

    closed spec fn view(&self) -> CommandView {
        CommandView {
            alias: self.alias@,
            namespace: self.namespace@,
            command: self.command@,
            description: opt_str(self.description),
            tags: opt_strs(self.tags),
        }
    }
}

impl Default for CommandBuilder {
    fn default() -> (r: Self)
        ensures
            r@ == (CommandView {
                alias: Seq::<char>::empty(),
                namespace: Seq::<char>::empty(),
                command: Seq::<char>::empty(),
                description: None,
                tags: None,
            }),
    {
        CommandBuilder {
            namespace: String::new(),
            command: String::new(),
            description: None,
            alias: String::new(),
            tags: None,
        }
    }
}

/// Texts taken by view.
pub open spec fn texts<S: IntoText>(v: Seq<S>) -> Seq<Seq<char>> {
    v.map_values(|s: S| s.text())
}

/// Turns each text into a `String`.
pub fn to_strings<S: IntoText>(v: &Vec<S>) -> (r: Vec<String>)
    ensures
        strs(r@) == texts(v@),
{
    let mut out: Vec<String> = Vec::new();
    let mut i: usize = 0;
    while i < v.len()
        invariant
            i <= v.len(),
            strs(out@) == texts(v@).take(i as int),
        decreases v.len() - i,
    {
        let s = v[i].to_text();
        let ghost old_o = out@;
        assert(strs(old_o).len() == old_o.len());
        assert(texts(v@).len() == v@.len());
        out.push(s);
        assert(strs(out@).len() == out@.len());
        assert forall|m: int| 0 <= m < i + 1 implies strs(out@)[m] == texts(v@).take(i + 1)[m] by {
            if m < i {
                assert(out@[m] == old_o[m]);
                assert(strs(old_o)[m] == texts(v@).take(i as int)[m]);
            }
        }
        assert(strs(out@) =~= texts(v@).take(i + 1));
        i = i + 1;
    }
    assert(texts(v@).take(v.len() as int) =~= texts(v@));
    out
}

impl CommandBuilder {
    /// Sets the namespace, trimmed.
    pub fn namespace<T: IntoText>(&mut self, namespace: T) -> (r: &mut CommandBuilder)
        ensures
            r@ == (CommandView { namespace: trim(namespace.text()), ..old(self)@ }),
            final(self)@ == final(r)@,
    {
        let t = namespace.to_text();
        self.namespace = trim_str(t.as_str());
        self
    }

    /// Sets the alias, trimmed.
    pub fn alias<T: IntoText>(&mut self, alias: T) -> (r: &mut CommandBuilder)
        ensures
            r@ == (CommandView { alias: trim(alias.text()), ..old(self)@ }),
            final(self)@ == final(r)@,
    {
        let t = alias.to_text();
        self.alias = trim_str(t.as_str());
        self
    }

    /// Sets the command.
    pub fn command<T: IntoText>(&mut self, command: T) -> (r: &mut CommandBuilder)
        ensures
            r@ == (CommandView { command: command.text(), ..old(self)@ }),
            final(self)@ == final(r)@,
    {
        self.command = command.to_text();
        self
    }

    /// Sets the description.
    pub fn description<T: IntoText>(&mut self, description: Option<T>) -> (r: &mut CommandBuilder)
        ensures
            r@ == (CommandView {
                description: match description {
                    Some(d) => Some(d.text()),
                    None => None,
                },
                ..old(self)@
            }),
            final(self)@ == final(r)@,
    {
        self.description = match &description {
            Some(d) => Some(d.to_text()),
            None => None,
        };
        self
    }

    /// Sets the tags.
    pub fn tags<S: IntoText>(&mut self, tags: Option<Vec<S>>) -> (r: &mut CommandBuilder)
        ensures
            r@ == (CommandView {
                tags: match tags {
                    Some(t) => Some(texts(t@)),
                    None => None,
                },
                ..old(self)@
            }),
            final(self)@ == final(r)@,
    {
        self.tags = match &tags {
            Some(t) => Some(to_strings(t)),
            None => None,
        };
        self
    }

    /// The command with the fields set so far.
    pub fn build(self) -> (r: Command)
        ensures
            r@ == self@,
    {
        Command {
            namespace: self.namespace,
            command: self.command,
            description: self.description,
            alias: self.alias,
            tags: self.tags,
        }
    }
}

} // verus!
