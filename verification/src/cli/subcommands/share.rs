//! Sharing commands through a file: which commands an export writes, and
//! which commands of a file an import adds to the stored ones.
use vstd::prelude::*;
use crate::command::{opt_strs, Command, CommandView};
use crate::commands::{has_key, keep_where, same_key, views};
use crate::text::{concat, join, join_strs, strs};

verus! {

/// Whether the file is written or read.
#[derive(Clone, Copy, Debug, PartialEq, Eq, Structural)]
pub enum Mode {
    Export,
    Import,
}

/// The options of the sharing subcommand.
pub struct Share {
    /// Export to the file, or import from it.
    pub mode: Mode,
    /// Where the file is.
    pub file_location: String,
    /// The namespaces to share; all of them when there are none.
    pub namespace: Option<Vec<String>>,
}

/// Whether an import takes a command: no namespace was named, or its
/// namespace is one of those named.
pub open spec fn selected(c: CommandView, namespaces: Option<Seq<Seq<char>>>) -> bool {
    match namespaces {
        None => true,
        Some(n) => n.len() == 0 || n.contains(c.namespace),
    }
}

/// `selected` as a predicate.
pub open spec fn selected_by(namespaces: Option<Seq<Seq<char>>>) -> spec_fn(CommandView) -> bool {
    |c: CommandView| selected(c, namespaces)
}

/// Whether the key of a command is among the stored ones.
pub open spec fn stored_key(stored: Seq<CommandView>) -> spec_fn(CommandView) -> bool {
    |c: CommandView| has_key(stored, c)
}

/// Whether the key of a command is not among the stored ones.
pub open spec fn fresh_key(stored: Seq<CommandView>) -> spec_fn(CommandView) -> bool {
    |c: CommandView| !has_key(stored, c)
}

/// What importing a file gives.
pub struct ImportPlan {
    /// The selected commands of the file whose alias and namespace are
    /// already stored; they are not imported.
    pub duplicates: Vec<Command>,
    /// The selected commands of the file that are imported.
    pub new_commands: Vec<Command>,
    /// The stored commands followed by the imported ones.
    pub merged: Vec<Command>,
}

/// Whether `namespace` holds the command.
pub open spec fn of_namespace(ns: Seq<char>) -> spec_fn(CommandView) -> bool {
    |c: CommandView| c.namespace == ns
}

/// What an export writes: every command, or for each namespace named in
/// turn, the commands of that namespace.
pub open spec fn exported(list: Seq<CommandView>, namespaces: Seq<Seq<char>>) -> Seq<CommandView>
    decreases namespaces.len(),
{
    if namespaces.len() == 0 {
        Seq::empty()
    } else {
        exported(list, namespaces.drop_last()) + keep_where(list, of_namespace(namespaces.last()))
    }
}

/// The commands of `list` for which `has_key(stored, c)` is `wanted`.
fn split_by_key(list: &Vec<Command>, stored: &Vec<Command>, wanted: bool) -> (r: Vec<Command>)
    ensures
        wanted ==> views(r@) == keep_where(views(list@), stored_key(views(stored@))),
        !wanted ==> views(r@) == keep_where(views(list@), fresh_key(views(stored@))),
{
    let ghost s = views(list@);
    let ghost st = views(stored@);
    let mut out: Vec<Command> = Vec::new();
    let mut i: usize = 0;
    while i < list.len()
        invariant
            i <= list.len(),
            s == views(list@),
            st == views(stored@),
            wanted ==> views(out@) == keep_where(s.take(i as int), stored_key(st)),
            !wanted ==> views(out@) == keep_where(s.take(i as int), fresh_key(st)),
        decreases list.len() - i,
    {
        let ghost t = s.take(i + 1);
        assert(t.drop_last() =~= s.take(i as int));
        assert(t.last() == list@[i as int]@);
        let found = key_stored(stored, &list[i]);
        let ghost old_o = views(out@);
        if found == wanted {
            out.push(list[i].clone());
            assert(views(out@) =~= old_o.push(list@[i as int]@));
        }
        i = i + 1;
    }
    assert(s.take(list.len() as int) =~= s);
    out
}

/// Whether a command with the alias and namespace of `c` is stored.
fn key_stored(stored: &Vec<Command>, c: &Command) -> (r: bool)
    ensures
        r == has_key(views(stored@), c@),
{
    let ghost st = views(stored@);
    let mut i: usize = 0;
    while i < stored.len()
        invariant
            i <= stored.len(),
            st == views(stored@),
            forall|k: int| 0 <= k < i ==> !same_key(#[trigger] st[k], c@),
        decreases stored.len() - i,
    {
        assert(st[i as int] == stored@[i as int]@);
        if stored[i].alias == c.alias && stored[i].namespace == c.namespace {
            assert(same_key(st[i as int], c@));
            return true;
        }
        i = i + 1;
    }
    false
}

/// Whether `s` is one of `names`.
fn is_named(names: &Vec<String>, s: &String) -> (r: bool)
    ensures
        r == strs(names@).contains(s@),
{
    let ghost sn = strs(names@);
    let mut i: usize = 0;
    while i < names.len()
        invariant
            i <= names.len(),
            sn == strs(names@),
            forall|k: int| 0 <= k < i ==> sn[k] != s@,
        decreases names.len() - i,
    {
        assert(sn[i as int] == names@[i as int]@);
        if names[i] == *s {
            return true;
        }
        i = i + 1;
    }
    false
}

/// The commands of the file that an import takes, in order.
pub fn select_namespaces(file: &Vec<Command>, namespaces: &Option<Vec<String>>) -> (r: Vec<Command>)
    ensures
        views(r@) == keep_where(views(file@), selected_by(opt_strs(*namespaces))),
        forall|c: CommandView| #[trigger] views(r@).contains(c) <==> (views(file@).contains(c)
            && match namespaces {
                None => true,
                Some(n) => n.len() == 0 || exists|k: int| 0 <= k < n.len() && n@[k]@ == c.namespace,
            }),
{
    proof {
        law_selected_commands(views(file@), opt_strs(*namespaces));
        if let Some(n) = namespaces {
            assert(strs(n@).len() == n@.len());
            assert forall|k: int| #![trigger strs(n@)[k]] #![trigger n@[k]] 0 <= k < n.len() implies strs(n@)[k]
                == n@[k]@ by {}
        }
    }
    let ghost s = views(file@);
    let ghost ns = opt_strs(*namespaces);
    let mut out: Vec<Command> = Vec::new();
    let mut i: usize = 0;
    while i < file.len()
        invariant
            i <= file.len(),
            s == views(file@),
            ns == opt_strs(*namespaces),
            views(out@) == keep_where(s.take(i as int), selected_by(ns)),
        decreases file.len() - i,
    {
        let ghost t = s.take(i + 1);
        assert(t.drop_last() =~= s.take(i as int));
        assert(t.last() == file@[i as int]@);
        let keep = match namespaces {
            None => true,
            Some(n) => n.len() == 0 || is_named(n, &file[i].namespace),
        };
        let ghost old_o = views(out@);
        if keep {
            out.push(file[i].clone());
            assert(views(out@) =~= old_o.push(file@[i as int]@));
        }
        i = i + 1;
    }
    assert(s.take(file.len() as int) =~= s);
    out
}

/// Plans an import: the selected commands of the file whose alias and
/// namespace are new are added after the stored ones; the others are
/// reported as duplicates.
pub fn plan_import(stored: &Vec<Command>, file: &Vec<Command>, namespaces: &Option<Vec<String>>) -> (r: ImportPlan)
    ensures
        views(r.duplicates@) == keep_where(
            keep_where(views(file@), selected_by(opt_strs(*namespaces))),
            stored_key(views(stored@)),
        ),
        views(r.new_commands@) == keep_where(
            keep_where(views(file@), selected_by(opt_strs(*namespaces))),
            fresh_key(views(stored@)),
        ),
        views(r.merged@) == views(stored@) + views(r.new_commands@),
        forall|c: CommandView| #[trigger] views(r.new_commands@).contains(c) <==> (views(file@).contains(c)
            && !has_key(views(stored@), c) && match namespaces {
                None => true,
                Some(n) => n.len() == 0 || exists|k: int| 0 <= k < n.len() && n@[k]@ == c.namespace,
            }),
{
    let selected = select_namespaces(file, namespaces);
    proof {
        law_import_partitions(views(stored@), views(selected@));
        crate::commands::lemma_keep_where(views(selected@), fresh_key(views(stored@)));
    }
    let duplicates = split_by_key(&selected, stored, true);
    let new_commands = split_by_key(&selected, stored, false);
    let mut merged = crate::commands::clone_commands(stored);
    let mut i: usize = 0;
    while i < new_commands.len()
        invariant
            i <= new_commands.len(),
            views(merged@) == views(stored@) + views(new_commands@).take(i as int),
        decreases new_commands.len() - i,
    {
        let ghost old_m = views(merged@);
        merged.push(new_commands[i].clone());
        assert(views(merged@) =~= old_m.push(new_commands@[i as int]@));
        assert(views(new_commands@).take(i + 1) =~= views(new_commands@).take(i as int).push(
            new_commands@[i as int]@,
        ));
        i = i + 1;
    }
    assert(views(new_commands@).take(new_commands.len() as int) =~= views(new_commands@));
    ImportPlan { duplicates, new_commands, merged }
}

/// An import splits the selected commands in two: those whose alias and
/// namespace are stored, reported as duplicates, and the others, imported;
/// none is lost and none imported has a stored alias and namespace.
pub proof fn law_import_partitions(stored: Seq<CommandView>, selected: Seq<CommandView>)
    ensures
        keep_where(selected, stored_key(stored)).len() + keep_where(selected, fresh_key(stored)).len()
            == selected.len(),
        forall|c: CommandView| #[trigger] keep_where(selected, fresh_key(stored)).contains(c)
            ==> selected.contains(c) && !has_key(stored, c),
        forall|c: CommandView| #[trigger] keep_where(selected, stored_key(stored)).contains(c)
            ==> selected.contains(c) && has_key(stored, c),
    decreases selected.len(),
{
    crate::commands::lemma_keep_where(selected, fresh_key(stored));
    crate::commands::lemma_keep_where(selected, stored_key(stored));
    if selected.len() > 0 {
        law_import_partitions(stored, selected.drop_last());
    }
}

/// An import takes a command of the file exactly when no namespace is
/// named, or its namespace is one of those named, wherever it stands in the
/// list; the commands taken keep the file's order.
pub proof fn law_selected_commands(file: Seq<CommandView>, namespaces: Option<Seq<Seq<char>>>)
    ensures
        forall|c: CommandView| #[trigger] keep_where(file, selected_by(namespaces)).contains(c) <==> (file.contains(c)
            && match namespaces {
                None => true,
                Some(n) => n.len() == 0 || exists|k: int| 0 <= k < n.len() && n[k] == c.namespace,
            }),
        match namespaces {
            None => true,
            Some(n) => forall|k: int, c: CommandView|
                0 <= k < n.len() && file.contains(c) && c.namespace == #[trigger] n[k] ==> #[trigger] keep_where(
                    file,
                    selected_by(namespaces),
                ).contains(c),
        },
        match namespaces {
            None => true,
            Some(n) => n.len() == 0,
        } ==> keep_where(file, selected_by(namespaces)) == file,
{
    crate::commands::lemma_keep_where(file, selected_by(namespaces));
    assert forall|c: CommandView| #[trigger] keep_where(file, selected_by(namespaces)).contains(c) <==> (file.contains(c)
        && match namespaces {
            None => true,
            Some(n) => n.len() == 0 || exists|k: int| 0 <= k < n.len() && n[k] == c.namespace,
        }) by {
        match namespaces {
            None => {},
            Some(n) => {
                if exists|k: int| 0 <= k < n.len() && n[k] == c.namespace {
                    let k = choose|k: int| 0 <= k < n.len() && n[k] == c.namespace;
                    assert(n.contains(n[k]));
                }
            },
        }
    }
    if match namespaces {
        None => true,
        Some(n) => n.len() == 0,
    } {
        assert forall|i: int| 0 <= i < file.len() implies #[trigger] selected_by(namespaces)(file[i]) by {}
        crate::commands::lemma_keep_all(file, selected_by(namespaces));
    }
}

/// An export writes, for the named namespaces, exactly the listed commands
/// whose namespace is one of them.
pub proof fn law_exported_commands(list: Seq<CommandView>, namespaces: Seq<Seq<char>>)
    ensures
        forall|c: CommandView| #[trigger] exported(list, namespaces).contains(c) <==> (list.contains(c)
            && exists|k: int| 0 <= k < namespaces.len() && namespaces[k] == c.namespace),
    decreases namespaces.len(),
{
    if namespaces.len() > 0 {
        let d = namespaces.drop_last();
        law_exported_commands(list, d);
        let last = namespaces.last();
        crate::commands::lemma_keep_where(list, of_namespace(last));
        let e = exported(list, d);
        let kw = keep_where(list, of_namespace(last));
        assert forall|c: CommandView| #[trigger] exported(list, namespaces).contains(c) <==> (list.contains(c)
            && exists|k: int| 0 <= k < namespaces.len() && namespaces[k] == c.namespace) by {
            let all = e + kw;
            if all.contains(c) {
                let i = choose|i: int| 0 <= i < all.len() && all[i] == c;
                if i < e.len() {
                    assert(e[i] == c);
                    assert(e.contains(c));
                    let k = choose|k: int| 0 <= k < d.len() && d[k] == c.namespace;
                    assert(namespaces[k] == d[k]);
                } else {
                    assert(kw[i - e.len()] == c);
                    assert(kw.contains(c));
                    assert(namespaces[namespaces.len() - 1] == last);
                }
            }
            if list.contains(c) && exists|k: int| 0 <= k < namespaces.len() && namespaces[k] == c.namespace {
                let k = choose|k: int| 0 <= k < namespaces.len() && namespaces[k] == c.namespace;
                if k < d.len() {
                    assert(d[k] == namespaces[k]);
                    assert(e.contains(c));
                    let i = choose|i: int| 0 <= i < e.len() && e[i] == c;
                    assert(all[i] == c);
                } else {
                    assert(last == namespaces[k]);
                    assert(kw.contains(c));
                    let i = choose|i: int| 0 <= i < kw.len() && kw[i] == c;
                    assert(all[e.len() + i] == c);
                }
            }
        }
    }
}

/// The line reporting a duplicated command.
pub open spec fn duplicate_line(c: CommandView) -> Seq<char> {
    " - alias: "@ + c.alias + ", namespace: "@ + c.namespace
}

/// The report of the duplicated commands, one per line.
pub fn duplicates_report(duplicates: &Vec<Command>) -> (r: String)
    ensures
        r@ == join(views(duplicates@).map_values(|c: CommandView| duplicate_line(c)), ",\n"@),
{
    let ghost s = views(duplicates@);
    let mut lines: Vec<String> = Vec::new();
    let mut i: usize = 0;
    while i < duplicates.len()
        invariant
            i <= duplicates.len(),
            s == views(duplicates@),
            strs(lines@) == s.take(i as int).map_values(|c: CommandView| duplicate_line(c)),
        decreases duplicates.len() - i,
    {
        assert(s[i as int] == duplicates@[i as int]@);
        let a = concat(" - alias: ", duplicates[i].alias.as_str());
        let b = concat(a.as_str(), ", namespace: ");
        let line = concat(b.as_str(), duplicates[i].namespace.as_str());
        let ghost old_l = strs(lines@);
        lines.push(line);
        assert(strs(lines@) =~= old_l.push(duplicate_line(s[i as int])));
        assert(s.take(i + 1).map_values(|c: CommandView| duplicate_line(c)) =~= s.take(
            i as int,
        ).map_values(|c: CommandView| duplicate_line(c)).push(duplicate_line(s[i as int])));
        i = i + 1;
    }
    assert(s.take(duplicates.len() as int) =~= s);
    join_strs(&lines, ",\n")
}

/// The commands an export writes: all of them when no namespace is named,
/// otherwise those of each named namespace in turn.
pub fn export_list(list: &Vec<Command>, namespaces: &Option<Vec<String>>) -> (r: Vec<Command>)
    ensures
        namespaces is None ==> views(r@) == views(list@),
        namespaces matches Some(n) ==> views(r@) == exported(views(list@), strs(n@)),
        namespaces matches Some(n) ==> forall|c: CommandView| #[trigger] views(r@).contains(c) <==> (views(list@).contains(c)
            && exists|k: int| 0 <= k < n.len() && n@[k]@ == c.namespace),
{
    proof {
        if let Some(n) = namespaces {
            law_exported_commands(views(list@), strs(n@));
            assert(strs(n@).len() == n@.len());
            assert forall|k: int| #![trigger strs(n@)[k]] #![trigger n@[k]] 0 <= k < n.len() implies strs(n@)[k]
                == n@[k]@ by {}
        }
    }
    match namespaces {
        None => crate::commands::clone_commands(list),
        Some(n) => {
            let ghost s = views(list@);
            let ghost sn = strs(n@);
            let mut out: Vec<Command> = Vec::new();
            let mut k: usize = 0;
            while k < n.len()
                invariant
                    k <= n.len(),
                    s == views(list@),
                    sn == strs(n@),
                    views(out@) == exported(s, sn.take(k as int)),
                decreases n.len() - k,
            {
                assert(sn.take(k + 1).drop_last() =~= sn.take(k as int));
                assert(sn.take(k + 1).last() == n@[k as int]@);
                let ns = &n[k];
                let mut i: usize = 0;
                let ghost base = views(out@);
                while i < list.len()
                    invariant
                        i <= list.len(),
                        k < n.len(),
                        ns@ == sn[k as int],
                        s == views(list@),
                        sn == strs(n@),
                        views(out@) == base + keep_where(s.take(i as int), of_namespace(ns@)),
                    decreases list.len() - i,
                {
                    let ghost t = s.take(i + 1);
                    assert(t.drop_last() =~= s.take(i as int));
                    assert(t.last() == list@[i as int]@);
                    let ghost old_o = views(out@);
                    if list[i].namespace == *ns {
                        out.push(list[i].clone());
                        assert(views(out@) =~= old_o.push(list@[i as int]@));
                    }
                    i = i + 1;
                }
                assert(s.take(list.len() as int) =~= s);
                k = k + 1;
            }
            assert(sn.take(n.len() as int) =~= sn);
            out
        },
    }
}

} // verus!
