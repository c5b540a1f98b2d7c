//! Running a stored command whose named parameters are written as
//! `--name=value`: every argument is read on its own, and those whose name
//! matches a placeholder `#{name}` of the command fill it.
use vstd::prelude::*;
use crate::bindings::{
    compile_pattern, find_all_matches, format_failure_text, pair_views, regex_compile_error,
    regex_find_all, strfmt_format, strfmt_output,
};
use crate::cli::subcommands::exec::{
    named_params_problem, DEFAULT_NAMED_PARAMS_ERROR_MESSAGE, INVALID_NAMED_PARAMS_ERROR_MESSAGE,
    NAMED_PARAMETER_PATTERN,
};
use crate::command::{clone_opt_string, opt_str};
use crate::text::{
    concat, join, join_strs, own, remove_char, remove_char_str, replace_first, replace_first_str,
    split_once, split_once_str, starts_with, starts_with_str, str_eq, strs, trim_marks,
    trim_marks_str,
};

verus! {

/// An argument taken by view.
pub struct EqArgView {
    pub arg: Seq<char>,
    pub prefix: Seq<char>,
    pub value: Option<Seq<char>>,
    pub named_parameter: bool,
}

/// One argument: its name, the `--` written before it if any, the value
/// written after `=`, and whether it names a placeholder of the command.
#[derive(Debug)]
pub struct CommandArg {
    arg: String,
    prefix: String,
    value: Option<String>,
    named_parameter: bool,
}

impl View for CommandArg {
    type V = EqArgView;

    closed spec fn view(&self) -> EqArgView {
        EqArgView {
            arg: self.arg@,
            prefix: self.prefix@,
            value: opt_str(self.value),
            named_parameter: self.named_parameter,
        }
    }
}

/// How one argument is read: cut at the first `=`; a leading `--` is the
/// prefix; nothing names a placeholder yet.
pub open spec fn parse_arg(a: Seq<char>) -> EqArgView {
    let (before, after) = split_once(a, '=');
    if starts_with(before, "--"@) {
        EqArgView {
            arg: replace_first(before, "--"@, Seq::<char>::empty()),
            prefix: "--"@,
            value: after,
            named_parameter: false,
        }
    } else {
        EqArgView { arg: before, prefix: Seq::<char>::empty(), value: after, named_parameter: false }
    }
}

/// The name and value of an argument; no value gives the empty string.
pub open spec fn key_value_of(a: EqArgView) -> (Seq<char>, Seq<char>) {
    (
        a.arg,
        match a.value {
            Some(v) => v,
            None => Seq::<char>::empty(),
        },
    )
}

/// An argument written back: prefix, name and, with a value, `=` and the value.
pub open spec fn arg_line(a: EqArgView) -> Seq<char> {
    match a.value {
        Some(v) => a.prefix + a.arg + "="@ + v,
        None => a.prefix + a.arg,
    }
}

/// The argument, marked as a named parameter when its name is one of `names`.
pub open spec fn mark(a: EqArgView, names: Seq<Seq<char>>) -> EqArgView {
    EqArgView { named_parameter: a.named_parameter || names.contains(a.arg), ..a }
}

/// The arguments marked as named parameters, in order.
pub open spec fn named_of(v: Seq<EqArgView>) -> Seq<EqArgView>
    decreases v.len(),
{
    if v.len() == 0 {
        v
    } else if v.last().named_parameter {
        named_of(v.drop_last()).push(v.last())
    } else {
        named_of(v.drop_last())
    }
}

/// The arguments not marked as named parameters, in order.
pub open spec fn options_of(v: Seq<EqArgView>) -> Seq<EqArgView>
    decreases v.len(),
{
    if v.len() == 0 {
        v
    } else if v.last().named_parameter {
        options_of(v.drop_last())
    } else {
        options_of(v.drop_last()).push(v.last())
    }
}

/// The options written back and joined with spaces.
pub open spec fn options_text(v: Seq<EqArgView>) -> Seq<char> {
    join(options_of(v).map_values(|a: EqArgView| arg_line(a)), " "@)
}

/// The command followed by a space and the options, when there are any.
pub open spec fn with_options_text(command: Seq<char>, options: Seq<char>) -> Seq<char> {
    if options.len() > 0 {
        command + " "@ + options
    } else {
        command
    }
}

/// What preparing `command` with `args` gives: the named parameters fill
/// the placeholders, the other arguments are appended.
pub open spec fn prepared_eq(command: Seq<char>, args: Seq<Seq<char>>) -> Result<Seq<char>, Seq<char>> {
    let pattern = NAMED_PARAMETER_PATTERN@;
    match regex_compile_error(pattern) {
        Some(e) => Err(e),
        None => prepared_eq_with(command, regex_find_all(pattern, command), args),
    }
}

/// What preparing `command` with `args` gives once its placeholders have
/// been found (`found`, each still with its marks).
pub open spec fn prepared_eq_with(
    command: Seq<char>,
    found: Seq<Seq<char>>,
    args: Seq<Seq<char>>,
) -> Result<Seq<char>, Seq<char>> {
    let parsed = args.map_values(|a: Seq<char>| parse_arg(a));
    if found.len() == 0 {
        Ok(with_options_text(command, options_text(parsed)))
    } else {
        let names = found.map_values(|m: Seq<char>| trim_marks(m));
        let marked = parsed.map_values(|a: EqArgView| mark(a, names));
        let pairs = named_of(marked).map_values(|a: EqArgView| key_value_of(a));
        match named_params_problem(pairs) {
            Some(cause) => Err("Cannot run the command `"@ + command + "`\n\n"@ + cause),
            None => match strfmt_output(remove_char(command, '#'), pairs) {
                Ok(s) => Ok(with_options_text(s, options_text(marked))),
                Err(f) => Err(format_failure_text(f)),
            },
        }
    }
}

/// The arguments split in two without loss: the options are the arguments
/// not marked as named parameters and the named ones are those marked, each
/// in the order given, and together they count every argument.
pub proof fn law_options_and_named(v: Seq<EqArgView>)
    ensures
        options_of(v).len() + named_of(v).len() == v.len(),
        forall|i: int| 0 <= i < options_of(v).len() ==> !(#[trigger] options_of(v)[i]).named_parameter
            && v.contains(options_of(v)[i]),
        forall|i: int| 0 <= i < named_of(v).len() ==> (#[trigger] named_of(v)[i]).named_parameter
            && v.contains(named_of(v)[i]),
    decreases v.len(),
{
    if v.len() > 0 {
        let d = v.drop_last();
        law_options_and_named(d);
        assert forall|i: int| 0 <= i < options_of(v).len() implies !(#[trigger] options_of(v)[i]).named_parameter
            && v.contains(options_of(v)[i]) by {
            if i < options_of(d).len() {
                assert(options_of(v)[i] == options_of(d)[i]);
                let j = choose|j: int| 0 <= j < d.len() && d[j] == options_of(d)[i];
                assert(v[j] == d[j]);
            } else {
                assert(options_of(v)[i] == v[v.len() - 1]);
            }
        }
        assert forall|i: int| 0 <= i < named_of(v).len() implies (#[trigger] named_of(v)[i]).named_parameter
            && v.contains(named_of(v)[i]) by {
            if i < named_of(d).len() {
                assert(named_of(v)[i] == named_of(d)[i]);
                let j = choose|j: int| 0 <= j < d.len() && d[j] == named_of(d)[i];
                assert(v[j] == d[j]);
            } else {
                assert(named_of(v)[i] == v[v.len() - 1]);
            }
        }
    }
}

/// When a command with placeholders is prepared, every argument whose name
/// is no placeholder's comes back in the line: the line is the formatted
/// command followed by a space and all those arguments written back and
/// joined by spaces (nothing follows when that text is empty), and they
/// count all the arguments but those that name a placeholder.
pub proof fn law_prepared_eq_keeps_every_option(command: Seq<char>, found: Seq<Seq<char>>, args: Seq<Seq<char>>)
    requires
        found.len() > 0,
    ensures
        ({
            let names = found.map_values(|m: Seq<char>| trim_marks(m));
            let marked = args.map_values(|a: Seq<char>| parse_arg(a)).map_values(|a: EqArgView| mark(a, names));
            let opts = options_of(marked);
            &&& forall|i: int| 0 <= i < marked.len() ==> ((#[trigger] marked[i]).named_parameter <==> names.contains(
                parse_arg(args[i]).arg,
            ))
            &&& opts.len() + named_of(marked).len() == args.len()
            &&& forall|i: int| 0 <= i < opts.len() ==> !names.contains((#[trigger] opts[i]).arg)
            &&& match prepared_eq_with(command, found, args) {
                Ok(line) => match strfmt_output(
                    remove_char(command, '#'),
                    named_of(marked).map_values(|a: EqArgView| key_value_of(a)),
                ) {
                    Ok(r) => line == if join(opts.map_values(|a: EqArgView| arg_line(a)), " "@).len() > 0 {
                        r + " "@ + join(opts.map_values(|a: EqArgView| arg_line(a)), " "@)
                    } else {
                        r
                    },
                    Err(_) => false,
                },
                Err(_) => true,
            }
        }),
{
    let names = found.map_values(|m: Seq<char>| trim_marks(m));
    let parsed = args.map_values(|a: Seq<char>| parse_arg(a));
    let marked = parsed.map_values(|a: EqArgView| mark(a, names));
    law_options_and_named(marked);
    assert forall|i: int| 0 <= i < marked.len() implies ((#[trigger] marked[i]).named_parameter <==> names.contains(
        parse_arg(args[i]).arg,
    )) by {
        assert(marked[i] == mark(parsed[i], names));
        assert(parsed[i] == parse_arg(args[i]));
    }
    let opts = options_of(marked);
    assert forall|i: int| 0 <= i < opts.len() implies !names.contains((#[trigger] opts[i]).arg) by {
        assert(marked.contains(opts[i]));
        let j = choose|j: int| 0 <= j < marked.len() && marked[j] == opts[i];
        assert(marked[j] == mark(parsed[j], names));
    }
}

/// A command without placeholders is prepared by appending every argument
/// as it was read, each once and in order.
pub proof fn law_prepared_eq_without_placeholders(command: Seq<char>, args: Seq<Seq<char>>)
    ensures
        ({
            let parsed = args.map_values(|a: Seq<char>| parse_arg(a));
            &&& options_of(parsed) == parsed
            &&& prepared_eq_with(command, Seq::<Seq<char>>::empty(), args) == Ok::<Seq<char>, Seq<char>>(
                if join(parsed.map_values(|a: EqArgView| arg_line(a)), " "@).len() > 0 {
                    command + " "@ + join(parsed.map_values(|a: EqArgView| arg_line(a)), " "@)
                } else {
                    command
                },
            )
        }),
{
    let parsed = args.map_values(|a: Seq<char>| parse_arg(a));
    lemma_options_unmarked(parsed);
}

/// Arguments none of which is marked are all options.
proof fn lemma_options_unmarked(v: Seq<EqArgView>)
    requires
        forall|i: int| 0 <= i < v.len() ==> !(#[trigger] v[i]).named_parameter,
    ensures
        options_of(v) == v,
    decreases v.len(),
{
    if v.len() > 0 {
        let d = v.drop_last();
        assert forall|i: int| 0 <= i < d.len() implies !(#[trigger] d[i]).named_parameter by {
            assert(d[i] == v[i]);
        }
        lemma_options_unmarked(d);
        assert(!v[v.len() - 1].named_parameter);
        assert(d.push(v.last()) =~= v);
    }
}

/// The views of a sequence of arguments.
pub open spec fn eq_arg_views(v: Seq<CommandArg>) -> Seq<EqArgView> {
    v.map_values(|a: CommandArg| a@)
}

impl CommandArg {
    /// A copy of the argument.
    pub fn duplicate(&self) -> (r: CommandArg)
        ensures
            r@ == self@,
    {
        CommandArg {
            arg: self.arg.clone(),
            prefix: self.prefix.clone(),
            value: clone_opt_string(&self.value),
            named_parameter: self.named_parameter,
        }
    }

    /// The name and the value of the argument; no value gives the empty string.
    pub fn as_key_value_pair(&self) -> (r: (String, String))
        ensures
            (r.0@, r.1@) == key_value_of(self@),
    {
        let key = self.arg.clone();
        let value = match &self.value {
            Some(v) => v.clone(),
            None => String::new(),
        };
        (key, value)
    }

    /// The argument written back as it was given.
    pub fn to_string(&self) -> (r: String)
        ensures
            r@ == arg_line(self@),
    {
        let head = concat(self.prefix.as_str(), self.arg.as_str());
        match &self.value {
            Some(v) => {
                let with_eq = concat(head.as_str(), "=");
                concat(with_eq.as_str(), v.as_str())
            },
            None => head,
        }
    }

    /// Reads one argument.
    pub fn parse(a: &str) -> (r: CommandArg)
        ensures
            r@ == parse_arg(a@),
    {
        let (before, after) = split_once_str(a, '=');
        proof {
            reveal_strlit("");
        }
        if starts_with_str(before.as_str(), "--") {
            CommandArg {
                arg: replace_first_str(before.as_str(), "--", ""),
                prefix: own("--"),
                value: after,
                named_parameter: false,
            }
        } else {
            CommandArg { arg: before, prefix: String::new(), value: after, named_parameter: false }
        }
    }
}

/// Whether `s` is one of `names`.
fn names_contain(names: &[String], s: &String) -> (r: bool)
    ensures
        r == strs(names@).contains(s@),
{
    let ghost sn = strs(names@);
    assert(sn.len() == names@.len());
    let mut i: usize = 0;
    while i < names.len()
        invariant
            i <= names.len(),
            sn == strs(names@),
            sn.len() == names@.len(),
            forall|k: int| 0 <= k < i ==> sn[k] != s@,
        decreases names.len() - i,
    {
        assert(sn[i as int] == names@[i as int]@);
        if str_eq(names[i].as_str(), s.as_str()) {
            return true;
        }
        i = i + 1;
    }
    false
}

/// The arguments given to a command.
pub struct CommandArgs {
    command_args: Vec<CommandArg>,
}

impl View for CommandArgs {
    type V = Seq<EqArgView>;

    closed spec fn view(&self) -> Seq<EqArgView> {
        eq_arg_views(self.command_args@)
    }
}

impl CommandArgs {
    /// Holds the given arguments.
    pub fn new(command_args: Vec<CommandArg>) -> (r: CommandArgs)
        ensures
            r@ == eq_arg_views(command_args@),
    {
        Self { command_args }
    }

    /// Reads each argument on its own.
    pub fn from_args(args: Vec<String>) -> (r: CommandArgs)
        ensures
            r@ == strs(args@).map_values(|a: Seq<char>| parse_arg(a)),
    {
        let ghost target = strs(args@).map_values(|a: Seq<char>| parse_arg(a));
        let mut mapped: Vec<CommandArg> = Vec::new();
        let mut i: usize = 0;
        while i < args.len()
            invariant
                i <= args.len(),
                target == strs(args@).map_values(|a: Seq<char>| parse_arg(a)),
                eq_arg_views(mapped@) == target.take(i as int),
            decreases args.len() - i,
        {
            assert(strs(args@)[i as int] == args@[i as int]@);
            assert(target.len() == args@.len());
            let ghost old_views = eq_arg_views(mapped@);
            let a = CommandArg::parse(args[i].as_str());
            mapped.push(a);
            assert(eq_arg_views(mapped@) =~= old_views.push(target[i as int]));
            assert(target.take(i + 1) =~= target.take(i as int).push(target[i as int]));
            i = i + 1;
        }
        assert(target.take(args.len() as int) =~= target);
        CommandArgs::new(mapped)
    }

    /// Marks the arguments whose name is one of `named_parameters`.
    pub fn mark_named_parameters(&mut self, named_parameters: &[String])
        ensures
            final(self)@ == old(self)@.map_values(
                |a: EqArgView| mark(a, strs(named_parameters@)),
            ),
    {
        let ghost names = strs(named_parameters@);
        let ghost start = self@;
        let mut i: usize = 0;
        while i < self.command_args.len()
            invariant
                i <= self.command_args.len(),
                start == old(self)@,
                names == strs(named_parameters@),
                self@.len() == start.len(),
                forall|k: int| 0 <= k < i ==> self@[k] == mark(start[k], names),
                forall|k: int| i <= k < self@.len() ==> self@[k] == start[k],
            decreases self.command_args.len() - i,
        {
            assert(self@[i as int] == self.command_args@[i as int]@);
            let found = names_contain(named_parameters, &self.command_args[i].arg);
            if found {
                let ghost before = self@;
                let mut a = self.command_args[i].duplicate();
                a.named_parameter = true;
                assert(a@ == mark(start[i as int], names));
                self.command_args.set(i, a);
                assert(self@ =~= before.update(i as int, mark(start[i as int], names)));
            }
            i = i + 1;
        }
        assert(self@ =~= start.map_values(|a: EqArgView| mark(a, names)));
    }

    /// The arguments marked as named parameters.
    pub fn get_named_parameters(&self) -> (r: Vec<CommandArg>)
        ensures
            eq_arg_views(r@) == named_of(self@),
    {
        let mut out: Vec<CommandArg> = Vec::new();
        let mut i: usize = 0;
        while i < self.command_args.len()
            invariant
                i <= self.command_args.len(),
                eq_arg_views(out@) == named_of(self@.take(i as int)),
            decreases self.command_args.len() - i,
        {
            assert(self@.take(i + 1).drop_last() =~= self@.take(i as int));
            if self.command_args[i].named_parameter {
                out.push(self.command_args[i].duplicate());
            }
            i = i + 1;
        }
        assert(self@.take(self.command_args.len() as int) =~= self@);
        out
    }

    /// The arguments not marked as named parameters, written back and
    /// joined with spaces.
    pub fn get_options_as_string(&self) -> (r: String)
        ensures
            r@ == options_text(self@),
    {
        let mut lines: Vec<String> = Vec::new();
        let mut i: usize = 0;
        while i < self.command_args.len()
            invariant
                i <= self.command_args.len(),
                strs(lines@) == options_of(self@.take(i as int)).map_values(
                    |a: EqArgView| arg_line(a),
                ),
            decreases self.command_args.len() - i,
        {
            let ghost prefix = self@.take(i + 1);
            assert(prefix.drop_last() =~= self@.take(i as int));
            assert(prefix.last() == self.command_args@[i as int]@);
            let ghost old_lines = lines@;
            let ghost old_opts = options_of(self@.take(i as int));
            assert(strs(old_lines).len() == old_lines.len());
            if !self.command_args[i].named_parameter {
                let t = self.command_args[i].to_string();
                lines.push(t);
                assert(options_of(prefix) == old_opts.push(prefix.last()));
                assert(strs(lines@) =~= options_of(prefix).map_values(|a: EqArgView| arg_line(a))) by {
                    assert(strs(lines@).len() == lines@.len());
                    assert forall|k: int| 0 <= k < lines@.len() implies strs(lines@)[k]
                        == options_of(prefix).map_values(|a: EqArgView| arg_line(a))[k] by {
                        if k < old_lines.len() {
                            assert(lines@[k] == old_lines[k]);
                            assert(strs(old_lines)[k] == old_opts.map_values(|a: EqArgView| arg_line(a))[k]);
                        }
                    }
                }
            } else {
                assert(options_of(prefix) == old_opts);
            }
            i = i + 1;
        }
        assert(self@.take(self.command_args.len() as int) =~= self@);
        join_strs(&lines, " ")
    }
}

/// The name inside a placeholder: `arg` without leading and trailing `#`, `{` and `}`.
pub fn clean_named_parameter(arg: String) -> (r: String)
    ensures
        r@ == trim_marks(arg@),
{
    trim_marks_str(arg.as_str())
}

/// Checks the named parameters found: there must be at least one, and
/// each must have a name.
pub fn validate_named_parameters(mapped_args: &Vec<(String, String)>, command: &str) -> (r: Result<(), String>)
    ensures
        named_params_problem(pair_views(mapped_args@)) matches Some(c) ==> (r matches Err(e) && e@
            == "Cannot run the command `"@ + command@ + "`\n\n"@ + c),
        named_params_problem(pair_views(mapped_args@)) is None ==> r is Ok,
{
    let ghost pv = pair_views(mapped_args@);
    assert(pv.len() == mapped_args@.len());
    let mut no_key = false;
    let mut i: usize = 0;
    while i < mapped_args.len()
        invariant
            i <= mapped_args.len(),
            pv == pair_views(mapped_args@),
            pv.len() == mapped_args@.len(),
            no_key <==> exists|k: int| 0 <= k < i && (#[trigger] pv[k]).0.len() == 0,
        decreases mapped_args.len() - i,
    {
        assert(pv[i as int].0 == mapped_args@[i as int].0@);
        if mapped_args[i].0.as_str().is_empty() {
            no_key = true;
        }
        i = i + 1;
    }
    let cause = if mapped_args.len() == 0 {
        Some(DEFAULT_NAMED_PARAMS_ERROR_MESSAGE)
    } else if no_key {
        Some(INVALID_NAMED_PARAMS_ERROR_MESSAGE)
    } else {
        None
    };
    match cause {
        Some(c) => {
            let head = concat(concat("Cannot run the command `", command).as_str(), "`\n\n");
            Err(concat(head.as_str(), c))
        },
        None => Ok(()),
    }
}

/// Prepares a stored command with the arguments given to it: the
/// arguments named like a placeholder `#{name}` fill it, the others are
/// appended.
pub fn prepare_command(command: String, args: Vec<String>) -> (r: Result<String, String>)
    ensures
        match r {
            Ok(s) => prepared_eq(command@, strs(args@)) == Ok::<Seq<char>, Seq<char>>(s@),
            Err(e) => prepared_eq(command@, strs(args@)) == Err::<Seq<char>, Seq<char>>(e@),
        },
{
    let pattern = match compile_pattern(NAMED_PARAMETER_PATTERN) {
        Ok(p) => p,
        Err(e) => {
            return Err(e);
        },
    };
    let matches = find_all_matches(&pattern, command.as_str());
    fill_named_parameters(command, matches, args)
}

/// Prepares a stored command once its placeholders have been found
/// (`matches`, as the pattern finds them): the arguments named like a
/// placeholder fill it, the others are appended.
pub fn fill_named_parameters(command: String, matches: Vec<String>, args: Vec<String>) -> (r: Result<String, String>)
    ensures
        match r {
            Ok(s) => prepared_eq_with(command@, strs(matches@), strs(args@)) == Ok::<Seq<char>, Seq<char>>(s@),
            Err(e) => prepared_eq_with(command@, strs(matches@), strs(args@)) == Err::<Seq<char>, Seq<char>>(e@),
        },
{
    let ghost found = strs(matches@);
    let mut command_args = CommandArgs::from_args(args);
    let ghost parsed = command_args@;
    let mut line = command;
    if matches.len() != 0 {
        assert(found.len() == matches@.len());
        let mut cleaned: Vec<String> = Vec::new();
        let mut i: usize = 0;
        while i < matches.len()
            invariant
                i <= matches.len(),
                found == strs(matches@),
                found.len() == matches@.len(),
                strs(cleaned@) == found.take(i as int).map_values(|m: Seq<char>| trim_marks(m)),
            decreases matches.len() - i,
        {
            let ghost old_c = strs(cleaned@);
            assert(found[i as int] == matches@[i as int]@);
            let c = clean_named_parameter(matches[i].clone());
            cleaned.push(c);
            assert(strs(cleaned@) =~= old_c.push(trim_marks(found[i as int])));
            assert(found.take(i + 1) =~= found.take(i as int).push(found[i as int]));
            assert(found.take(i + 1).map_values(|m: Seq<char>| trim_marks(m)) =~= found.take(
                i as int,
            ).map_values(|m: Seq<char>| trim_marks(m)).push(trim_marks(found[i as int])));
            i = i + 1;
        }
        assert(found.take(matches.len() as int) =~= found);
        command_args.mark_named_parameters(cleaned.as_slice());
        let named = command_args.get_named_parameters();
        let ghost named_views = eq_arg_views(named@);
        let mut pairs: Vec<(String, String)> = Vec::new();
        let mut k: usize = 0;
        while k < named.len()
            invariant
                k <= named.len(),
                named_views == eq_arg_views(named@),
                pair_views(pairs@) == named_views.take(k as int).map_values(
                    |a: EqArgView| key_value_of(a),
                ),
            decreases named.len() - k,
        {
            let ghost old_p = pair_views(pairs@);
            assert(named_views[k as int] == named@[k as int]@);
            let kv = named[k].as_key_value_pair();
            pairs.push(kv);
            assert(pair_views(pairs@) =~= old_p.push(key_value_of(named_views[k as int])));
            assert(named_views.take(k + 1) =~= named_views.take(k as int).push(named_views[k as int]));
            assert(named_views.take(k + 1).map_values(|a: EqArgView| key_value_of(a))
                =~= named_views.take(k as int).map_values(|a: EqArgView| key_value_of(a)).push(
                key_value_of(named_views[k as int]),
            ));
            k = k + 1;
        }
        assert(named_views.take(named.len() as int) =~= named_views);
        match validate_named_parameters(&pairs, line.as_str()) {
            Ok(()) => {},
            Err(e) => {
                return Err(e);
            },
        }
        let without_marks = remove_char_str(line.as_str(), '#');
        line = match strfmt_format(without_marks.as_str(), &pairs) {
            Ok(s) => s,
            Err(f) => {
                return Err(f.to_string());
            },
        };
    }
    let options = command_args.get_options_as_string();
    if options.as_str().is_empty() {
        Ok(line)
    } else {
        let with_space = concat(line.as_str(), " ");
        Ok(concat(with_space.as_str(), options.as_str()))
    }
}

} // verus!
