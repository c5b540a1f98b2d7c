//! Running a stored command from the command line, with named parameters
//! and options.
pub mod command_args;

use vstd::prelude::*;
use self::command_args::{
    arg_is_empty, arg_text, arg_views, args_push, key_value, ArgView, CommandArg, CommandArgs,
    CommandArgsView,
};
use crate::bindings::{
    compile_pattern, find_all_matches, format_result_view, is_key_error_message, key_error_prefix,
    regex_compile_error, regex_find_all, strfmt_format, strfmt_output, FormatFailure,
    FormatFailureView,
};
use crate::command::CommandError;
use crate::text::{
    concat, contains_char, join, join_strs, own, remove_char, remove_char_str, replace_first,
    replace_first_str, split_on, split_on_char, split_once, split_once_str, starts_with,
    starts_with_str, str_eq, strs, trim, trim_marks, trim_marks_str, trim_str,
};

verus! {

/// The message for a command run without the named parameters it has.
pub const DEFAULT_NAMED_PARAMS_ERROR_MESSAGE: &'static str = "This command has named parameters! You should provide them exactly as in the command";

/// The message for named parameters given without a name.
pub const INVALID_NAMED_PARAMS_ERROR_MESSAGE: &'static str = "Invalid named arguments! You should provide them exactly as in the command";

/// The regex of a named parameter placeholder, `#{name}`.
pub const NAMED_PARAMETER_PATTERN: &'static str = "#\\{[^\\}]+\\}";

/// A command line, as a string.
pub type CommandString = String;

/// The ways replacing placeholders can fail.
#[derive(Debug)]
pub enum ExecError {
    MissingNamedParameter { missing_parameter: String },
    GenericError,
}

impl ExecError {
    /// The message of this error.
    pub fn to_string(&self) -> (r: String)
        ensures
            self matches ExecError::MissingNamedParameter { missing_parameter: p } ==> r@
                == "Missing a named parameter: "@ + p@,
            self is GenericError ==> r@ == "An error ocurred while parsing your command"@,
    {
        match self {
            ExecError::MissingNamedParameter { missing_parameter } => concat(
                "Missing a named parameter: ",
                missing_parameter.as_str(),
            ),
            ExecError::GenericError => own("An error ocurred while parsing your command"),
        }
    }
}

/// The ways preparing a command can fail.
#[derive(Debug)]
pub enum PrepareError {
    /// The placeholder regex did not compile; the text of its error.
    Pattern(String),
    /// The command has named parameters and none was given.
    CannotRunCommand(CommandError),
    /// The named parameters given are not valid.
    CannotValidate(CommandError),
    /// A placeholder could not be replaced.
    CannotReplace(ExecError),
}

/// A `PrepareError` taken by view.
pub enum PrepareErrorView {
    Pattern(Seq<char>),
    CannotRunCommand { command: Seq<char>, cause: Seq<char> },
    CannotValidate { command: Seq<char>, cause: Seq<char> },
    MissingNamedParameter(Seq<char>),
    GenericError,
}

/// An error of the command taken by view, when it is one about running a command.
pub open spec fn run_error_view(e: CommandError, validating: bool) -> PrepareErrorView {
    match e {
        CommandError::CannotRunCommand { command, cause } => if validating {
            PrepareErrorView::CannotValidate { command: command@, cause: cause@ }
        } else {
            PrepareErrorView::CannotRunCommand { command: command@, cause: cause@ }
        },
        _ => PrepareErrorView::GenericError,
    }
}

impl View for PrepareError {
    type V = PrepareErrorView;

    open spec fn view(&self) -> PrepareErrorView {
        match self {
            PrepareError::Pattern(m) => PrepareErrorView::Pattern(m@),
            PrepareError::CannotRunCommand(e) => run_error_view(*e, false),
            PrepareError::CannotValidate(e) => run_error_view(*e, true),
            PrepareError::CannotReplace(ExecError::MissingNamedParameter { missing_parameter }) =>
                PrepareErrorView::MissingNamedParameter(missing_parameter@),
            PrepareError::CannotReplace(ExecError::GenericError) => PrepareErrorView::GenericError,
        }
    }
}

impl PrepareError {
    /// The message shown for this error: the outermost description.
    pub fn to_string(&self) -> (r: String)
        ensures
            self matches PrepareError::Pattern(m) ==> r@ == m@,
            self matches PrepareError::CannotRunCommand(e) ==> r@ == e.message(),
            self is CannotValidate ==> r@ == "Cannot validate the named parameters"@,
            self is CannotReplace ==> r@ == "Cannot replace the placeholders with the provided args"@,
    {
        match self {
            PrepareError::Pattern(m) => m.clone(),
            PrepareError::CannotRunCommand(e) => e.to_string(),
            PrepareError::CannotValidate(_) => own("Cannot validate the named parameters"),
            PrepareError::CannotReplace(_) => own(
                "Cannot replace the placeholders with the provided args",
            ),
        }
    }
}

/// The prefix of a long option.
pub open spec fn dashes() -> Seq<char> {
    "--"@
}

/// A name without its leading `--`, with the prefix it had.
pub open spec fn strip_dashes(a: Seq<char>) -> (Seq<char>, Option<Seq<char>>) {
    if starts_with(a, dashes()) {
        (replace_first(a, dashes(), ""@), Some(dashes()))
    } else {
        (a, None)
    }
}

/// Where the reading of the arguments stands: the position of the
/// look-ahead, the last value taken as an option's value, and the
/// arguments sorted so far.
pub struct ParseState {
    pub pos: int,
    pub last: Seq<char>,
    pub args: CommandArgsView,
}

/// The smaller of two integers.
pub open spec fn min_int(a: int, b: int) -> int {
    if a <= b {
        a
    } else {
        b
    }
}

/// The argument read at position `i`, with the look-ahead and the last
/// value after reading it. An argument with `=` is a name and its value;
/// a `--name` followed by a word takes that word as its value; other
/// arguments stand alone.
pub open spec fn read_arg(args: Seq<Seq<char>>, i: int, st: ParseState) -> (ArgView, int, Seq<char>) {
    let arg = args[i];
    let n = args.len() as int;
    if !arg.contains('=') {
        let p1 = if st.last.len() == 0 {
            min_int(st.pos + 1, n)
        } else {
            st.pos
        };
        if p1 < n {
            let next = args[p1];
            if !starts_with(next, dashes()) && starts_with(arg, dashes()) {
                (
                    ArgView {
                        arg: replace_first(arg, dashes(), ""@),
                        prefix: Some(dashes()),
                        value: Some(next),
                    },
                    min_int(p1 + 2, n),
                    next,
                )
            } else if starts_with(next, dashes()) && !starts_with(arg, dashes()) {
                (
                    ArgView {
                        arg: replace_first(arg, dashes(), ""@),
                        prefix: Some(dashes()),
                        value: None,
                    },
                    p1 + 1,
                    st.last,
                )
            } else if starts_with(next, dashes()) && starts_with(arg, dashes()) {
                (
                    ArgView {
                        arg: replace_first(arg, dashes(), ""@),
                        prefix: Some(dashes()),
                        value: None,
                    },
                    p1,
                    st.last,
                )
            } else {
                (ArgView { arg: arg, prefix: None, value: None }, p1, st.last)
            }
        } else {
            (
                ArgView { arg: strip_dashes(arg).0, prefix: strip_dashes(arg).1, value: None },
                p1,
                st.last,
            )
        }
    } else {
        let parts = split_once(arg, '=');
        (
            ArgView {
                arg: strip_dashes(parts.0).0,
                prefix: strip_dashes(parts.0).1,
                value: parts.1,
            },
            st.pos,
            st.last,
        )
    }
}

/// The state after the argument at position `i`: an argument equal to the
/// last value taken is skipped; an empty argument is dropped.
pub open spec fn parse_step(args: Seq<Seq<char>>, i: int, st: ParseState) -> ParseState {
    if args[i] == st.last {
        st
    } else {
        let (a, pos, last) = read_arg(args, i, st);
        ParseState {
            pos,
            last,
            args: if arg_is_empty(a) {
                st.args
            } else {
                args_push(st.args, a)
            },
        }
    }
}

/// The state after reading the first `k` arguments.
pub open spec fn parse_upto(args: Seq<Seq<char>>, names: Seq<Seq<char>>, k: int) -> ParseState
    decreases k,
{
    if k <= 0 {
        ParseState {
            pos: 0,
            last: Seq::<char>::empty(),
            args: CommandArgsView { named: None, options: None, named_parameters: names },
        }
    } else {
        parse_step(args, k - 1, parse_upto(args, names, k - 1))
    }
}

/// The reason given named parameters are refused, if they are.
pub open spec fn named_params_problem(pairs: Seq<(Seq<char>, Seq<char>)>) -> Option<Seq<char>> {
    if pairs.len() == 0 {
        Some(DEFAULT_NAMED_PARAMS_ERROR_MESSAGE@)
    } else if exists|i: int| 0 <= i < pairs.len() && pairs[i].0.len() == 0 {
        Some(INVALID_NAMED_PARAMS_ERROR_MESSAGE@)
    } else {
        None
    }
}

/// The command with the options appended, separated by spaces.
pub open spec fn with_options(command: Seq<char>, options: Seq<Seq<char>>) -> Seq<char> {
    if options.len() > 0 {
        command + " "@ + join(options, " "@)
    } else {
        command
    }
}

/// What replacing the placeholders gives: the command without `#`,
/// formatted with the pairs; a missing key is named in the error.
pub open spec fn replaced(command: Seq<char>, pairs: Seq<(Seq<char>, Seq<char>)>) -> Result<Seq<char>, PrepareErrorView> {
    match strfmt_output(remove_char(command, '#'), pairs) {
        Ok(s) => Ok(s),
        Err(FormatFailureView::KeyError(m)) => Err(
            PrepareErrorView::MissingNamedParameter(trim(split_on(m, ':')[1])),
        ),
        Err(_) => Err(PrepareErrorView::GenericError),
    }
}

/// What preparing `command` with `args` gives: the named parameters
/// replace their placeholders, and the other arguments are appended.
pub open spec fn prepared(command: Seq<char>, args: Seq<Seq<char>>) -> Result<Seq<char>, PrepareErrorView> {
    let pattern = NAMED_PARAMETER_PATTERN@;
    match regex_compile_error(pattern) {
        Some(e) => Err(PrepareErrorView::Pattern(e)),
        None => prepared_with(command, regex_find_all(pattern, command), args),
    }
}

/// What preparing `command` with `args` gives once its placeholders have
/// been found (`matches`, each still with its marks).
pub open spec fn prepared_with(
    command: Seq<char>,
    matches: Seq<Seq<char>>,
    args: Seq<Seq<char>>,
) -> Result<Seq<char>, PrepareErrorView> {
    let names = matches.map_values(|m: Seq<char>| trim_marks(m));
    if names.len() == 0 {
        Ok(with_options(command, args))
    } else {
        let st = parse_upto(args, names, args.len() as int);
        match st.args.named {
            None => Err(
                PrepareErrorView::CannotRunCommand {
                    command: command,
                    cause: DEFAULT_NAMED_PARAMS_ERROR_MESSAGE@,
                },
            ),
            Some(params) => {
                let pairs = params.map_values(|a: ArgView| key_value(a));
                match named_params_problem(pairs) {
                    Some(cause) => Err(
                        PrepareErrorView::CannotValidate { command: command, cause },
                    ),
                    None => match replaced(command, pairs) {
                        Ok(s) => Ok(
                            with_options(
                                s,
                                match st.args.options {
                                    Some(o) => o.map_values(|a: ArgView| arg_text(a)),
                                    None => Seq::<Seq<char>>::empty(),
                                },
                            ),
                        ),
                        Err(e) => Err(e),
                    },
                }
            },
        }
    }
}

/// The arguments read so far are sorted by name: each option's name is not
/// a placeholder's, each named parameter's is, and a group that exists is
/// not empty.
pub proof fn lemma_parse_groups(args: Seq<Seq<char>>, names: Seq<Seq<char>>, k: int)
    ensures
        parse_upto(args, names, k).args.named_parameters == names,
        parse_upto(args, names, k).args.options matches Some(o) ==> o.len() > 0 && forall|i: int|
            0 <= i < o.len() ==> !names.contains(#[trigger] o[i].arg),
        parse_upto(args, names, k).args.named matches Some(p) ==> p.len() > 0 && forall|i: int|
            0 <= i < p.len() ==> names.contains(#[trigger] p[i].arg),
    decreases k,
{
    if k > 0 {
        lemma_parse_groups(args, names, k - 1);
        let st = parse_upto(args, names, k - 1);
        if args[k - 1] != st.last {
            let a = read_arg(args, k - 1, st).0;
            if !arg_is_empty(a) {
                let c = args_push(st.args, a);
                if names.contains(a.arg) {
                    if let Some(p) = c.named {
                        assert forall|i: int| 0 <= i < p.len() implies names.contains(#[trigger] p[i].arg) by {
                            if let Some(q) = st.args.named {
                                if i < q.len() {
                                    assert(p[i] == q[i]);
                                }
                            }
                        }
                    }
                } else {
                    if let Some(o) = c.options {
                        assert forall|i: int| 0 <= i < o.len() implies !names.contains(#[trigger] o[i].arg) by {
                            if let Some(q) = st.args.options {
                                if i < q.len() {
                                    assert(o[i] == q[i]);
                                }
                            }
                        }
                    }
                }
            }
        }
    }
}

/// When a command with placeholders is prepared, every argument sorted as
/// an option (its name is no placeholder's) comes back in the line: the
/// line is the formatted command, a space, and all the options written
/// back and joined by spaces; with no option it is the formatted command.
pub proof fn law_prepared_keeps_every_option(command: Seq<char>, matches: Seq<Seq<char>>, args: Seq<Seq<char>>)
    requires
        matches.len() > 0,
    ensures
        ({
            let names = matches.map_values(|m: Seq<char>| trim_marks(m));
            let st = parse_upto(args, names, args.len() as int);
            match prepared_with(command, matches, args) {
                Ok(line) => match st.args.named {
                    Some(p) => match replaced(command, p.map_values(|a: ArgView| key_value(a))) {
                        Ok(r) => {
                            &&& line == match st.args.options {
                                Some(o) => r + " "@ + join(o.map_values(|a: ArgView| arg_text(a)), " "@),
                                None => r,
                            }
                            &&& st.args.options matches Some(o) ==> forall|i: int|
                                0 <= i < o.len() ==> !names.contains(#[trigger] o[i].arg)
                        },
                        Err(_) => false,
                    },
                    None => false,
                },
                Err(_) => true,
            }
        }),
{
    let names = matches.map_values(|m: Seq<char>| trim_marks(m));
    lemma_parse_groups(args, names, args.len() as int);
    let st = parse_upto(args, names, args.len() as int);
    if let Some(o) = st.args.options {
        assert(o.map_values(|a: ArgView| arg_text(a)).len() > 0);
    }
}

/// A command without placeholders is prepared by appending every argument,
/// each once and in order, after a space.
pub proof fn law_prepared_without_placeholders(command: Seq<char>, args: Seq<Seq<char>>)
    ensures
        prepared_with(command, Seq::<Seq<char>>::empty(), args) == Ok::<Seq<char>, PrepareErrorView>(
            if args.len() > 0 {
                command + " "@ + join(args, " "@)
            } else {
                command
            },
        ),
{
    assert(Seq::<Seq<char>>::empty().map_values(|m: Seq<char>| trim_marks(m)).len() == 0);
}

/// A prepared command taken by view.
pub open spec fn prepare_view(r: Result<CommandString, PrepareError>) -> Result<Seq<char>, PrepareErrorView> {
    match r {
        Ok(s) => Ok(s@),
        Err(e) => Err(e@),
    }
}


/// The placeholders of named parameters in `command`, as the regex finds them.
pub fn get_named_parameters(command: &str) -> (r: Result<Vec<String>, PrepareError>)
    ensures
        regex_compile_error(NAMED_PARAMETER_PATTERN@) matches Some(e) ==> (r matches Err(
            PrepareError::Pattern(m),
        ) && m@ == e),
        regex_compile_error(NAMED_PARAMETER_PATTERN@) is None ==> (r matches Ok(v) && strs(v@)
            == regex_find_all(NAMED_PARAMETER_PATTERN@, command@)),
{
    match compile_pattern(NAMED_PARAMETER_PATTERN) {
        Ok(p) => Ok(find_all_matches(&p, command)),
        Err(m) => Err(PrepareError::Pattern(m)),
    }
}

/// The name inside a placeholder: `arg` without leading and trailing `#`, `{` and `}`.
pub fn clean_named_parameter(arg: &str) -> (r: CommandString)
    ensures
        r@ == trim_marks(arg@),
{
    trim_marks_str(arg)
}

/// The command with the options appended, separated by spaces.
pub fn append_options(command: &str, options: Vec<String>) -> (r: CommandString)
    ensures
        r@ == with_options(command@, strs(options@)),
{
    if options.len() != 0 {
        assert(strs(options@).len() == options@.len());
        let joined = join_strs(&options, " ");
        let with_space = concat(command, " ");
        concat(with_space.as_str(), joined.as_str())
    } else {
        assert(strs(options@).len() == options@.len());
        own(command)
    }
}

/// Checks the named parameters given: there must be at least one, and
/// each must have a name.
pub fn validate_named_parameters(mapped_args: &Vec<(String, String)>, command: &str) -> (r: Result<(), CommandError>)
    ensures
        named_params_problem(crate::bindings::pair_views(mapped_args@)) matches Some(c) ==> (
        r matches Err(CommandError::CannotRunCommand { command: cmd, cause }) && cmd@ == command@
            && cause@ == c),
        named_params_problem(crate::bindings::pair_views(mapped_args@)) is None ==> r is Ok,
{
    let ghost pv = crate::bindings::pair_views(mapped_args@);
    assert(pv.len() == mapped_args@.len());
    if mapped_args.len() == 0 {
        return Err(
            CommandError::CannotRunCommand {
                command: own(command),
                cause: own(DEFAULT_NAMED_PARAMS_ERROR_MESSAGE),
            },
        );
    }
    let mut i: usize = 0;
    while i < mapped_args.len()
        invariant
            i <= mapped_args.len(),
            pv == crate::bindings::pair_views(mapped_args@),
            pv.len() == mapped_args@.len(),
            forall|k: int| 0 <= k < i ==> pv[k].0.len() != 0,
        decreases mapped_args.len() - i,
    {
        assert(pv[i as int].0 == mapped_args@[i as int].0@);
        if mapped_args[i].0.as_str().is_empty() {
            return Err(
                CommandError::CannotRunCommand {
                    command: own(command),
                    cause: own(INVALID_NAMED_PARAMS_ERROR_MESSAGE),
                },
            );
        }
        i = i + 1;
    }
    Ok(())
}

/// Replaces each placeholder with the value of its named parameter: the
/// `#` signs go and the `{name}` parts are formatted with the pairs.
pub fn replace_placeholders(command: CommandString, named_parameters: &Vec<(String, String)>) -> (r: Result<CommandString, ExecError>)
    ensures
        replaced(command@, crate::bindings::pair_views(named_parameters@)) == match r {
            Ok(s) => Ok::<Seq<char>, PrepareErrorView>(s@),
            Err(ExecError::MissingNamedParameter { missing_parameter }) => Err(
                PrepareErrorView::MissingNamedParameter(missing_parameter@),
            ),
            Err(ExecError::GenericError) => Err(PrepareErrorView::GenericError),
        },
{
    let cleaned = remove_char_str(command.as_str(), '#');
    match strfmt_format(cleaned.as_str(), named_parameters) {
        Ok(s) => Ok(s),
        Err(FormatFailure::KeyError(m)) => {
            proof {
                let k = choose|k: Seq<char>| m@ == key_error_prefix() + k && !k.contains(':');
                assert(m@[11] == ':');
                crate::text::lemma_split_on_contains(m@, ':');
            }
            let parts = split_on_char(m.as_str(), ':');
            assert(strs(parts@).len() == parts@.len());
            let missing = trim_str(parts[1].as_str());
            Err(ExecError::MissingNamedParameter { missing_parameter: missing })
        },
        Err(_) => Err(ExecError::GenericError),
    }
}

/// Reads the argument at position `i`, given the look-ahead position and
/// the last value taken.
fn read_arg_exec(args: &Vec<String>, i: usize, pos: usize, last: &String) -> (r: (CommandArg, usize, String))
    requires
        i < args.len(),
        pos <= args.len(),
    ensures
        ({
            let (a, p, l) = read_arg(
                strs(args@),
                i as int,
                ParseState {
                    pos: pos as int,
                    last: last@,
                    args: CommandArgsView {
                        named: None,
                        options: None,
                        named_parameters: Seq::empty(),
                    },
                },
            );
            r.0@ == a && r.1 == p && r.2@ == l
        }),
        r.1 <= args.len(),
{
    let ghost sa = strs(args@);
    assert(sa.len() == args@.len());
    assert(sa[i as int] == args@[i as int]@);
    let arg = &args[i];
    let n = args.len();
    if !contains_char(arg.as_str(), '=') {
        let p1 = if last.as_str().is_empty() {
            if pos < n {
                pos + 1
            } else {
                n
            }
        } else {
            pos
        };
        if p1 < n {
            let next = &args[p1];
            assert(sa[p1 as int] == args@[p1 as int]@);
            let next_dashed = starts_with_str(next.as_str(), "--");
            let arg_dashed = starts_with_str(arg.as_str(), "--");
            if !next_dashed && arg_dashed {
                let name = replace_first_str(arg.as_str(), "--", "");
                let a = CommandArg::new(name, Some(own("--")), Some(next.clone()));
                let p = if p1 + 1 < n {
                    p1 + 2
                } else {
                    n
                };
                (a, p, next.clone())
            } else if next_dashed && !arg_dashed {
                let name = replace_first_str(arg.as_str(), "--", "");
                (CommandArg::new(name, Some(own("--")), None), p1 + 1, last.clone())
            } else if next_dashed && arg_dashed {
                let name = replace_first_str(arg.as_str(), "--", "");
                (CommandArg::new(name, Some(own("--")), None), p1, last.clone())
            } else {
                (CommandArg::new(arg.clone(), None, None), p1, last.clone())
            }
        } else {
            if starts_with_str(arg.as_str(), "--") {
                let name = replace_first_str(arg.as_str(), "--", "");
                (CommandArg::new(name, Some(own("--")), None), p1, last.clone())
            } else {
                (CommandArg::new(arg.clone(), None, None), p1, last.clone())
            }
        }
    } else {
        let (before, after) = split_once_str(arg.as_str(), '=');
        if starts_with_str(before.as_str(), "--") {
            let name = replace_first_str(before.as_str(), "--", "");
            (CommandArg::new(name, Some(own("--")), after), pos, last.clone())
        } else {
            (CommandArg::new(before, None, after), pos, last.clone())
        }
    }
}

/// Reads all the arguments, sorting them into named parameters and options.
pub fn parse_command_args(args: &Vec<String>, names: Vec<String>) -> (r: CommandArgs)
    ensures
        r@ == parse_upto(strs(args@), strs(names@), args.len() as int).args,
{
    let ghost sa = strs(args@);
    let ghost nv = strs(names@);
    let n = args.len();
    let mut pos: usize = 0;
    let mut last = String::new();
    let mut command_args = CommandArgs::init(names);
    let mut i: usize = 0;
    while i < n
        invariant
            n == args.len(),
            sa == strs(args@),
            sa.len() == n,
            i <= n,
            pos <= n,
            (ParseState { pos: pos as int, last: last@, args: command_args@ }) == parse_upto(
                sa,
                nv,
                i as int,
            ),
        decreases n - i,
    {
        assert(sa[i as int] == args@[i as int]@);
        if !str_eq(args[i].as_str(), last.as_str()) {
            let (a, p, l) = read_arg_exec(args, i, pos, &last);
            if !a.is_empty() {
                command_args.push(a);
            }
            pos = p;
            last = l;
        }
        i = i + 1;
    }
    command_args
}


/// Prepares a stored command with the arguments given to it: the named
/// parameters replace the placeholders `#{name}` of the command and the
/// other arguments are appended as options.
pub fn prepare_command(command: String, args: Vec<String>) -> (r: Result<CommandString, PrepareError>)
    ensures
        prepare_view(r) == prepared(command@, strs(args@)),
{
    let matches = get_named_parameters(command.as_str())?;
    fill_named_parameters(command, matches, args)
}

/// Prepares a stored command once its placeholders have been found
/// (`matches`, as the pattern finds them): the named parameters among the
/// arguments replace the placeholders and the other arguments are appended
/// as options.
pub fn fill_named_parameters(command: String, matches: Vec<String>, args: Vec<String>) -> (r: Result<CommandString, PrepareError>)
    ensures
        prepare_view(r) == prepared_with(command@, strs(matches@), strs(args@)),
{
    let ghost found = strs(matches@);
    let mut named_parameters: Vec<String> = Vec::new();
    let mut i: usize = 0;
    while i < matches.len()
        invariant
            i <= matches.len(),
            found == strs(matches@),
            strs(named_parameters@) == found.take(i as int).map_values(|m: Seq<char>| trim_marks(m)),
        decreases matches.len() - i,
    {
        let cleaned = clean_named_parameter(matches[i].as_str());
        let ghost old_n = named_parameters@;
        let ghost target = found.take(i + 1).map_values(|m: Seq<char>| trim_marks(m));
        assert(strs(old_n).len() == old_n.len());
        assert(found.len() == matches@.len());
        named_parameters.push(cleaned);
        assert(strs(named_parameters@).len() == named_parameters@.len());
        assert forall|k: int| 0 <= k < i + 1 implies strs(named_parameters@)[k] == target[k] by {
            if k < i {
                assert(named_parameters@[k] == old_n[k]);
                assert(strs(old_n)[k] == found.take(i as int).map_values(
                    |m: Seq<char>| trim_marks(m),
                )[k]);
            }
        }
        assert(strs(named_parameters@) =~= target);
        i = i + 1;
    }
    assert(found.take(matches.len() as int) =~= found);
    if named_parameters.len() != 0 {
        let command_args = parse_command_args(&args, named_parameters);
        let ghost st = parse_upto(strs(args@), found.map_values(|m: Seq<char>| trim_marks(m)), args.len() as int);
        match command_args.named_parameters() {
            Some(params) => {
                let mut pairs: Vec<(String, String)> = Vec::new();
                let mut k: usize = 0;
                while k < params.len()
                    invariant
                        k <= params.len(),
                        crate::bindings::pair_views(pairs@) == arg_views(params@).take(k as int).map_values(
                            |a: ArgView| key_value(a),
                        ),
                    decreases params.len() - k,
                {
                    let kv = params[k].as_key_value_pair();
                    let ghost old_p = pairs@;
                    let ghost target = arg_views(params@).take(k + 1).map_values(|a: ArgView| key_value(a));
                    assert(crate::bindings::pair_views(old_p).len() == old_p.len());
                    assert(arg_views(params@).len() == params@.len());
                    pairs.push(kv);
                    assert(crate::bindings::pair_views(pairs@).len() == pairs@.len());
                    assert forall|m: int| 0 <= m < k + 1 implies crate::bindings::pair_views(pairs@)[m]
                        == target[m] by {
                        if m < k {
                            assert(pairs@[m] == old_p[m]);
                            assert(crate::bindings::pair_views(old_p)[m] == arg_views(params@).take(
                                k as int,
                            ).map_values(|a: ArgView| key_value(a))[m]);
                        }
                    }
                    assert(crate::bindings::pair_views(pairs@) =~= target);
                    k = k + 1;
                }
                assert(arg_views(params@).take(params.len() as int) =~= arg_views(params@));
                match validate_named_parameters(&pairs, command.as_str()) {
                    Ok(()) => {},
                    Err(e) => {
                        return Err(PrepareError::CannotValidate(e));
                    },
                }
                let replaced_command = match replace_placeholders(command, &pairs) {
                    Ok(c) => c,
                    Err(e) => {
                        return Err(PrepareError::CannotReplace(e));
                    },
                };
                let mut options: Vec<String> = Vec::new();
                match command_args.options() {
                    Some(opts) => {
                        let mut j: usize = 0;
                        while j < opts.len()
                            invariant
                                j <= opts.len(),
                                strs(options@) == arg_views(opts@).take(j as int).map_values(
                                    |a: ArgView| arg_text(a),
                                ),
                            decreases opts.len() - j,
                        {
                            let t = opts[j].to_string();
                            let ghost old_o = options@;
                            let ghost target = arg_views(opts@).take(j + 1).map_values(
                                |a: ArgView| arg_text(a),
                            );
                            assert(strs(old_o).len() == old_o.len());
                            assert(arg_views(opts@).len() == opts@.len());
                            options.push(t);
                            assert(strs(options@).len() == options@.len());
                            assert forall|m: int| 0 <= m < j + 1 implies strs(options@)[m]
                                == target[m] by {
                                if m < j {
                                    assert(options@[m] == old_o[m]);
                                    assert(strs(old_o)[m] == arg_views(opts@).take(
                                        j as int,
                                    ).map_values(|a: ArgView| arg_text(a))[m]);
                                }
                            }
                            assert(strs(options@) =~= target);
                            j = j + 1;
                        }
                        assert(arg_views(opts@).take(opts.len() as int) =~= arg_views(opts@));
                    },
                    None => {
                        assert(strs(options@) =~= Seq::<Seq<char>>::empty());
                    },
                }
                Ok(append_options(replaced_command.as_str(), options))
            },
            None => {
                Err(
                    PrepareError::CannotRunCommand(
                        CommandError::CannotRunCommand {
                            command,
                            cause: own(DEFAULT_NAMED_PARAMS_ERROR_MESSAGE),
                        },
                    ),
                )
            },
        }
    } else {
        assert(strs(named_parameters@).len() == named_parameters@.len());
        Ok(append_options(command.as_str(), args))
    }
}

} // verus!
