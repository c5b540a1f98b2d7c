//! The arguments given to a stored command, split into named parameters
//! and options.
use vstd::prelude::*;
use crate::command::opt_str;
use crate::text::{concat, own, str_eq, strs};

verus! {

/// An argument taken by view.
pub struct ArgView {
    pub arg: Seq<char>,
    pub prefix: Option<Seq<char>>,
    pub value: Option<Seq<char>>,
}

/// One argument: its name, the prefix written before it (`--`) and the
/// value written after `=` or as the next argument.
#[derive(Debug, Default)]
pub struct CommandArg {
    arg: String,
    prefix: Option<String>,
    value: Option<String>,
}

impl View for CommandArg {
    type V = ArgView;

    closed spec fn view(&self) -> ArgView {
        ArgView { arg: self.arg@, prefix: opt_str(self.prefix), value: opt_str(self.value) }
    }
}

/// Whether an argument has neither a name nor a prefix.
pub open spec fn arg_is_empty(a: ArgView) -> bool {
    a.arg.len() == 0 && (a.prefix is None || a.prefix->0.len() == 0)
}

/// The name and value of an argument; no value gives the empty string.
pub open spec fn key_value(a: ArgView) -> (Seq<char>, Seq<char>) {
    (
        a.arg,
        match a.value {
            Some(v) => v,
            None => Seq::<char>::empty(),
        },
    )
}

/// An argument written back: prefix, name and, when there is a value, `=`
/// and the value.
pub open spec fn arg_text(a: ArgView) -> Seq<char> {
    let p = match a.prefix {
        Some(p) => p,
        None => Seq::<char>::empty(),
    };
    match a.value {
        Some(v) => p + a.arg + "="@ + v,
        None => p + a.arg,
    }
}

impl CommandArg {
    /// An argument with the given parts.
    pub fn new(arg: String, prefix: Option<String>, value: Option<String>) -> (r: CommandArg)
        ensures
            r@ == (ArgView { arg: arg@, prefix: opt_str(prefix), value: opt_str(value) }),
    {
        Self { arg, prefix, value }
    }

    /// The name and the value of the argument; no value gives the empty string.
    pub fn as_key_value_pair(&self) -> (r: (String, String))
        ensures
            (r.0@, r.1@) == key_value(self@),
    {
        let key = self.arg.clone();
        let value = match &self.value {
            Some(v) => v.clone(),
            None => String::new(),
        };
        (key, value)
    }

    /// Whether the argument has neither a name nor a prefix.
    pub fn is_empty(&self) -> (r: bool)
        ensures
            r == arg_is_empty(self@),
    {
        self.arg.as_str().is_empty() && (match &self.prefix {
            None => true,
            Some(p) => p.as_str().is_empty(),
        })
    }

    /// The argument written back as text.
    pub fn to_string(&self) -> (r: String)
        ensures
            r@ == arg_text(self@),
    {
        let prefix = match &self.prefix {
            Some(p) => p.clone(),
            None => String::new(),
        };
        let named = concat(prefix.as_str(), self.arg.as_str());
        match &self.value {
            Some(v) => {
                let with_eq = concat(named.as_str(), "=");
                concat(with_eq.as_str(), v.as_str())
            },
            None => named,
        }
    }

    /// A copy of the argument.
    pub fn duplicate(&self) -> (r: CommandArg)
        ensures
            r@ == self@,
    {
        CommandArg {
            arg: self.arg.clone(),
            prefix: crate::command::clone_opt_string(&self.prefix),
            value: crate::command::clone_opt_string(&self.value),
        }
    }
}

/// The arguments taken by view.
pub open spec fn arg_views(v: Seq<CommandArg>) -> Seq<ArgView> {
    v.map_values(|a: CommandArg| a@)
}

/// An optional list of arguments taken by view.
pub open spec fn opt_args(o: Option<Vec<CommandArg>>) -> Option<Seq<ArgView>> {
    match o {
        Some(v) => Some(arg_views(v@)),
        None => None,
    }
}

/// Arguments sorted into two groups, taken by view.
pub struct CommandArgsView {
    pub named: Option<Seq<ArgView>>,
    pub options: Option<Seq<ArgView>>,
    pub named_parameters: Seq<Seq<char>>,
}

/// A group with one more argument; a group that did not exist starts.
pub open spec fn group_push(g: Option<Seq<ArgView>>, a: ArgView) -> Option<Seq<ArgView>> {
    match g {
        Some(s) => Some(s.push(a)),
        None => Some(seq![a]),
    }
}

/// The groups after an argument is added: to the named parameters when its
/// name is one of them, to the options otherwise.
pub open spec fn args_push(c: CommandArgsView, a: ArgView) -> CommandArgsView {
    if c.named_parameters.contains(a.arg) {
        CommandArgsView { named: group_push(c.named, a), ..c }
    } else {
        CommandArgsView { options: group_push(c.options, a), ..c }
    }
}

/// The arguments given to a command, sorted into named parameters (those
/// whose name is one of `named_parameters`) and options.
#[derive(Debug, Default)]
pub struct CommandArgs {
    named: Option<Vec<CommandArg>>,
    options: Option<Vec<CommandArg>>,
    named_parameters: Vec<String>,
}

impl View for CommandArgs {
    type V = CommandArgsView;

    closed spec fn view(&self) -> CommandArgsView {
        CommandArgsView {
            named: opt_args(self.named),
            options: opt_args(self.options),
            named_parameters: strs(self.named_parameters@),
        }
    }
}

fn group_push_exec(g: &mut Option<Vec<CommandArg>>, a: CommandArg)
    ensures
        opt_args(*final(g)) == group_push(opt_args(*old(g)), a@),
{
    match g {
        Some(v) => {
            let ghost before = v@;
            v.push(a);
            assert(arg_views(v@) =~= arg_views(before).push(a@));
        },
        None => {
            let mut v: Vec<CommandArg> = Vec::new();
            v.push(a);
            assert(arg_views(v@) =~= seq![a@]);
            *g = Some(v);
        },
    }
}

impl CommandArgs {
    /// No arguments yet, with the given named parameters.
    pub fn init(named_parameters: Vec<String>) -> (r: CommandArgs)
        ensures
            r@ == (CommandArgsView {
                named: None,
                options: None,
                named_parameters: strs(named_parameters@),
            }),
    {
        Self { named: None, options: None, named_parameters }
    }

    /// Adds an argument to the named parameters when its name is one of
    /// them, to the options otherwise.
    pub fn push(&mut self, command_arg: CommandArg)
        ensures
            final(self)@ == args_push(old(self)@, command_arg@),
    {
        let mut found = false;
        let mut i: usize = 0;
        while i < self.named_parameters.len()
            invariant
                i <= self.named_parameters.len(),
                found <==> exists|k: int|
                    0 <= k < i && self.named_parameters@[k]@ == command_arg@.arg,
            decreases self.named_parameters.len() - i,
        {
            if str_eq(self.named_parameters[i].as_str(), command_arg.arg.as_str()) {
                found = true;
            }
            i = i + 1;
        }
        assert(found == strs(self.named_parameters@).contains(command_arg@.arg)) by {
            let names = strs(self.named_parameters@);
            assert(names.len() == self.named_parameters@.len());
            if found {
                let k = choose|k: int|
                    0 <= k < i && self.named_parameters@[k]@ == command_arg@.arg;
                assert(names[k] == command_arg@.arg);
            }
            if names.contains(command_arg@.arg) {
                let k = choose|k: int| 0 <= k < names.len() && names[k] == command_arg@.arg;
                assert(self.named_parameters@[k]@ == command_arg@.arg);
            }
        }
        if found {
            group_push_exec(&mut self.named, command_arg);
        } else {
            group_push_exec(&mut self.options, command_arg);
        }
    }

    /// The named parameters given, if any was.
    pub fn named_parameters(&self) -> (r: Option<&Vec<CommandArg>>)
        ensures
            self@.named is None ==> r is None,
            self@.named matches Some(s) ==> (r matches Some(v) && arg_views(v@) == s),
    {
        self.named.as_ref()
    }

    /// The options given, if any was.
    pub fn options(&self) -> (r: Option<&Vec<CommandArg>>)
        ensures
            self@.options is None ==> r is None,
            self@.options matches Some(s) ==> (r matches Some(v) && arg_views(v@) == s),
    {
        self.options.as_ref()
    }

    /// Whether the command has any named parameter.
    pub fn has_named_parameters(&self) -> (r: bool)
        ensures
            r == (self@.named_parameters.len() > 0),
    {
        self.named_parameters.len() != 0
    }
}

} // verus!
