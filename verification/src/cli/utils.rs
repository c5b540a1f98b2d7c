//! Preparing a command for the `exec` subcommand in its older form: named
//! parameters given as `--name value` or `--name=value` fill the
//! placeholders `#{name}`, and the other arguments are appended.
use vstd::prelude::*;
use crate::bindings::{pair_views, strfmt_format, strfmt_output};
use crate::cli::subcommands::exec::{
    with_options, DEFAULT_NAMED_PARAMS_ERROR_MESSAGE, INVALID_NAMED_PARAMS_ERROR_MESSAGE,
};
use crate::text::{
    concat, contains_char, join, join_strs, own, remove_char, remove_char_str, replace_first,
    replace_first_str, split_on, split_on_char, starts_with, starts_with_str, str_eq, strs,
};

verus! {

/// The message for named parameters given without a value.
pub const INVALID_NAMED_PARAMS_VALUE_ERROR_MESSAGE: &'static str = "Invalid named arguments values!";

/// Named parameters as key/value pairs, in the order their keys first came.
pub type NamedArgs = Seq<(Seq<char>, Seq<char>)>;

/// No two pairs share a key.
pub open spec fn keys_distinct(m: NamedArgs) -> bool {
    forall|i: int, j: int| 0 <= i < j < m.len() ==> #[trigger] m[i].0 != #[trigger] m[j].0
}

/// Whether some pair has the key `k`.
pub open spec fn has_key(m: NamedArgs, k: Seq<char>) -> bool {
    exists|i: int| 0 <= i < m.len() && #[trigger] m[i].0 == k
}

/// `m` with the value of `k` set to `v`: the pair with that key keeps its
/// place, and a new key goes last.
pub open spec fn insert_pair(m: NamedArgs, k: Seq<char>, v: Seq<char>) -> NamedArgs {
    if has_key(m, k) {
        let i = choose|i: int| 0 <= i < m.len() && #[trigger] m[i].0 == k;
        m.update(i, (k, v))
    } else {
        m.push((k, v))
    }
}

/// A key that still waits for its value: named, with an empty value.
pub open spec fn is_open(p: (Seq<char>, Seq<char>)) -> bool {
    p.0.len() > 0 && p.1.len() == 0
}

/// Whether `i` is the first position of a key waiting for its value.
pub open spec fn first_open_at(m: NamedArgs, i: int) -> bool {
    0 <= i < m.len() && is_open(m[i]) && forall|j: int| 0 <= j < i ==> !is_open(#[trigger] m[j])
}

/// The first key waiting for its value, or the empty key when there is none.
pub open spec fn first_open_key(m: NamedArgs) -> Seq<char> {
    if exists|i: int| first_open_at(m, i) {
        m[choose|i: int| first_open_at(m, i)].0
    } else {
        Seq::<char>::empty()
    }
}

/// What one argument does to the pairs: `--key=value` and `--key` set a
/// key, anything else is the value of the first key still waiting for one.
pub open spec fn map_step(m: NamedArgs, arg: Seq<char>) -> NamedArgs {
    if starts_with(arg, "--"@) {
        if arg.contains('=') {
            let parts = split_on(arg, '=');
            insert_pair(m, replace_first(parts[0], "--"@, Seq::<char>::empty()), parts[1])
        } else {
            insert_pair(m, replace_first(arg, "--"@, Seq::<char>::empty()), Seq::<char>::empty())
        }
    } else {
        insert_pair(m, first_open_key(m), arg)
    }
}

/// The pairs that the named arguments give, read in order.
pub open spec fn map_named_args(args: Seq<Seq<char>>) -> NamedArgs
    decreases args.len(),
{
    if args.len() == 0 {
        Seq::empty()
    } else {
        map_step(map_named_args(args.drop_last()), args.last())
    }
}

/// Why the pairs cannot fill the placeholders, if they cannot.
pub open spec fn args_problem(m: NamedArgs) -> Option<Seq<char>> {
    if m.len() == 0 {
        Some(DEFAULT_NAMED_PARAMS_ERROR_MESSAGE@)
    } else if exists|i: int| 0 <= i < m.len() && (#[trigger] m[i]).0.len() == 0 {
        Some(INVALID_NAMED_PARAMS_ERROR_MESSAGE@)
    } else if exists|i: int| 0 <= i < m.len() && (#[trigger] m[i]).1.len() == 0 {
        Some(INVALID_NAMED_PARAMS_VALUE_ERROR_MESSAGE@)
    } else {
        None
    }
}

/// The message when the named arguments are refused.
pub open spec fn refusal_message(command: Seq<char>, none_given: bool, cause: Seq<char>) -> Seq<char> {
    if none_given {
        "Cannot run the command "@ + command + "\n\n"@ + cause
    } else {
        "Cannot run the command "@ + command + " with the provided arguments\n\n"@ + cause
    }
}

/// The message when the command cannot be formatted with the named arguments.
pub open spec fn build_failure_message(named_args: Seq<Seq<char>>) -> Seq<char> {
    "Cannot build the command with these arguments: "@ + join(named_args, ", "@) + "\n\n"@
        + DEFAULT_NAMED_PARAMS_ERROR_MESSAGE@
}

/// The command with its placeholders filled, when it has any (it holds `#`).
pub open spec fn with_named_args(command: Seq<char>, named_args: Seq<Seq<char>>) -> Result<Seq<char>, Seq<char>> {
    if !command.contains('#') {
        Ok(command)
    } else {
        let m = map_named_args(named_args);
        match args_problem(m) {
            Some(cause) => Err(refusal_message(command, m.len() == 0, cause)),
            None => match strfmt_output(remove_char(command, '#'), m) {
                Ok(s) => Ok(s),
                Err(_) => Err(build_failure_message(named_args)),
            },
        }
    }
}

/// What preparing the command gives: the placeholders filled, then the
/// other arguments appended with spaces.
pub open spec fn prepared_line(command: Seq<char>, named_args: Seq<Seq<char>>, args: Seq<Seq<char>>) -> Result<Seq<char>, Seq<char>> {
    match with_named_args(command, named_args) {
        Ok(s) => Ok(with_options(s, args)),
        Err(e) => Err(e),
    }
}

/// Sets the value of `k` to `v`, keeping the place of an existing key.
fn insert_named(m: &mut Vec<(String, String)>, k: String, v: String)
    requires
        keys_distinct(pair_views(old(m)@)),
    ensures
        pair_views(final(m)@) == insert_pair(pair_views(old(m)@), k@, v@),
        keys_distinct(pair_views(final(m)@)),
{
    let ghost pv = pair_views(m@);
    assert(pv.len() == m@.len());
    let mut i: usize = 0;
    while i < m.len()
        invariant
            i <= m.len(),
            pv == pair_views(m@),
            pv == pair_views(old(m)@),
            pv.len() == m@.len(),
            keys_distinct(pv),
            forall|j: int| 0 <= j < i ==> pv[j].0 != k@,
        decreases m.len() - i,
    {
        assert(pv[i as int] == (m@[i as int].0@, m@[i as int].1@));
        if str_eq(m[i].0.as_str(), k.as_str()) {
            let ghost ci = choose|c: int| 0 <= c < pv.len() && #[trigger] pv[c].0 == k@;
            assert(pv[i as int].0 == k@);
            assert(has_key(pv, k@));
            assert(ci == i as int) by {
                if ci != i as int {
                    if ci < i as int {
                        assert(pv[ci].0 != pv[i as int].0);
                    } else {
                        assert(pv[i as int].0 != pv[ci].0);
                    }
                }
            }
            assert(insert_pair(pv, k@, v@) == pv.update(i as int, (k@, v@)));
            m.set(i, (k, v));
            assert(pair_views(m@) =~= pv.update(i as int, (k@, v@)));
            return;
        }
        i = i + 1;
    }
    assert(!has_key(pv, k@));
    m.push((k, v));
    assert(pair_views(m@) =~= pv.push((k@, v@)));
}

/// The first key still waiting for its value, or the empty key.
fn first_open_name(m: &Vec<(String, String)>) -> (r: String)
    ensures
        r@ == first_open_key(pair_views(m@)),
{
    let ghost pv = pair_views(m@);
    assert(pv.len() == m@.len());
    let mut i: usize = 0;
    while i < m.len()
        invariant
            i <= m.len(),
            pv == pair_views(m@),
            pv.len() == m@.len(),
            forall|j: int| 0 <= j < i ==> !is_open(#[trigger] pv[j]),
        decreases m.len() - i,
    {
        assert(pv[i as int] == (m@[i as int].0@, m@[i as int].1@));
        if !m[i].0.as_str().is_empty() && m[i].1.as_str().is_empty() {
            assert(first_open_at(pv, i as int));
            let ghost c = choose|c: int| first_open_at(pv, c);
            assert(c == i as int) by {
                if c < i as int {
                    assert(!is_open(pv[c]));
                } else if c > i as int {
                    assert(!is_open(pv[i as int]));
                }
            }
            return m[i].0.clone();
        }
        i = i + 1;
    }
    assert(!exists|c: int| first_open_at(pv, c));
    String::new()
}

/// Reads the named arguments into key/value pairs.
fn map_named_args_exec(named_args: &Vec<String>) -> (r: Vec<(String, String)>)
    ensures
        pair_views(r@) == map_named_args(strs(named_args@)),
        keys_distinct(pair_views(r@)),
{
    let ghost sa = strs(named_args@);
    assert(sa.len() == named_args@.len());
    let mut m: Vec<(String, String)> = Vec::new();
    assert(pair_views(m@) =~= Seq::<(Seq<char>, Seq<char>)>::empty());
    let mut i: usize = 0;
    while i < named_args.len()
        invariant
            i <= named_args.len(),
            sa == strs(named_args@),
            sa.len() == named_args@.len(),
            pair_views(m@) == map_named_args(sa.take(i as int)),
            keys_distinct(pair_views(m@)),
        decreases named_args.len() - i,
    {
        assert(sa.take(i + 1).drop_last() =~= sa.take(i as int));
        assert(sa.take(i + 1).last() == named_args@[i as int]@);
        let arg = named_args[i].as_str();
        let ghost before = pair_views(m@);
        proof {
            reveal_strlit("");
        }
        assert(map_named_args(sa.take(i + 1)) == map_step(before, arg@));
        if starts_with_str(arg, "--") {
            if contains_char(arg, '=') {
                proof {
                    crate::text::lemma_split_on_contains(arg@, '=');
                }
                let parts = split_on_char(arg, '=');
                assert(strs(parts@).len() == parts@.len());
                assert(strs(parts@)[0] == parts@[0]@);
                assert(strs(parts@)[1] == parts@[1]@);
                let key = replace_first_str(parts[0].as_str(), "--", "");
                let value = parts[1].clone();
                insert_named(&mut m, key, value);
                assert(pair_views(m@) == map_step(before, arg@));
            } else {
                let key = replace_first_str(arg, "--", "");
                insert_named(&mut m, key, String::new());
                assert(pair_views(m@) == map_step(before, arg@));
            }
        } else {
            let key = first_open_name(&m);
            insert_named(&mut m, key, named_args[i].clone());
            assert(pair_views(m@) == map_step(before, arg@));
        }
        i = i + 1;
    }
    assert(sa.take(named_args.len() as int) =~= sa);
    m
}

/// Checks the pairs read from the named arguments: there must be some,
/// and each must have a key and a value.
fn validate_args(mapped_args: &Vec<(String, String)>, command: &str) -> (r: Result<(), String>)
    ensures
        args_problem(pair_views(mapped_args@)) matches Some(c) ==> (r matches Err(e) && e@
            == refusal_message(command@, mapped_args@.len() == 0, c)),
        args_problem(pair_views(mapped_args@)) is None ==> r is Ok,
{
    let ghost pv = pair_views(mapped_args@);
    assert(pv.len() == mapped_args@.len());
    let n = mapped_args.len();
    let mut no_key = false;
    let mut no_value = false;
    let mut i: usize = 0;
    while i < n
        invariant
            n == mapped_args.len(),
            i <= n,
            pv == pair_views(mapped_args@),
            pv.len() == n,
            no_key <==> exists|j: int| 0 <= j < i && (#[trigger] pv[j]).0.len() == 0,
            no_value <==> exists|j: int| 0 <= j < i && (#[trigger] pv[j]).1.len() == 0,
        decreases n - i,
    {
        assert(pv[i as int] == (mapped_args@[i as int].0@, mapped_args@[i as int].1@));
        if mapped_args[i].0.as_str().is_empty() {
            no_key = true;
        }
        if mapped_args[i].1.as_str().is_empty() {
            no_value = true;
        }
        i = i + 1;
    }
    let cause = if n == 0 {
        DEFAULT_NAMED_PARAMS_ERROR_MESSAGE
    } else if no_key {
        INVALID_NAMED_PARAMS_ERROR_MESSAGE
    } else if no_value {
        INVALID_NAMED_PARAMS_VALUE_ERROR_MESSAGE
    } else {
        return Ok(());
    };
    let head = if n == 0 {
        concat(concat("Cannot run the command ", command).as_str(), "\n\n")
    } else {
        concat(
            concat("Cannot run the command ", command).as_str(),
            " with the provided arguments\n\n",
        )
    };
    Err(concat(head.as_str(), cause))
}

/// Prepares a command: when it holds `#`, the named arguments fill its
/// placeholders `#{name}`; then the other arguments are appended.
pub fn prepare_command(command: String, named_args: Vec<String>, args: Vec<String>) -> (r: Result<String, String>)
    ensures
        match r {
            Ok(s) => prepared_line(command@, strs(named_args@), strs(args@)) == Ok::<Seq<char>, Seq<char>>(s@),
            Err(e) => prepared_line(command@, strs(named_args@), strs(args@)) == Err::<Seq<char>, Seq<char>>(e@),
        },
{
    let mut line = command;
    if contains_char(line.as_str(), '#') {
        let mapped_args = map_named_args_exec(&named_args);
        match validate_args(&mapped_args, line.as_str()) {
            Ok(()) => {},
            Err(e) => {
                return Err(e);
            },
        }
        let cleaned = remove_char_str(line.as_str(), '#');
        line = match strfmt_format(cleaned.as_str(), &mapped_args) {
            Ok(s) => s,
            Err(_) => {
                let joined = join_strs(&named_args, ", ");
                let head = concat("Cannot build the command with these arguments: ", joined.as_str());
                let with_gap = concat(head.as_str(), "\n\n");
                return Err(concat(with_gap.as_str(), DEFAULT_NAMED_PARAMS_ERROR_MESSAGE));
            },
        };
    }
    if args.len() != 0 {
        assert(strs(args@).len() == args@.len());
        let joined = join_strs(&args, " ");
        let with_space = concat(line.as_str(), " ");
        line = concat(with_space.as_str(), joined.as_str());
    } else {
        assert(strs(args@).len() == args@.len());
    }
    Ok(line)
}

} // verus!
