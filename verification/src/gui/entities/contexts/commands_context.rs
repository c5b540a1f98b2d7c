//! The commands of the main screen: the stored list, a cache of the
//! commands of each namespace, the commands shown and the one selected.
use vstd::prelude::*;
use crate::command::{default_command, Command, CommandError, CommandView};
use crate::commands::{
    alias_ordered, all_namespace, keep_where, lemma_ordered_remove, lemma_sorted_by_alias, same_key,
    sort_by_alias, sorted_by_alias, views, Commands, CommandsError,
};
use crate::cli::subcommands::share::of_namespace;
use crate::bindings::{skim_fuzzy_indices_score, skim_indices_score};
use crate::fuzzy::{command_lookup, Fuzzy};
use crate::gui::entities::contexts::Selectable;
use crate::gui::entities::contexts::namespaces_context::{previous_position, wrap_next, wrap_previous};
use crate::gui::list_state::ListState;
use crate::order::{lemma_score_sort_map, lemma_sort_by_score, map_scored, sort_by_score, sort_pairs_by_score};
use crate::text::{own, str_eq};

verus! {

/// Cache entries taken by view: a namespace and its commands.
pub type EntriesView = Seq<(Seq<char>, Seq<CommandView>)>;

/// The entries as a map from namespace to commands.
pub open spec fn entries_map(e: EntriesView) -> Map<Seq<char>, Seq<CommandView>>
    decreases e.len(),
{
    if e.len() == 0 {
        Map::empty()
    } else {
        entries_map(e.drop_last()).insert(e.last().0, e.last().1)
    }
}

/// No two entries have the same namespace.
pub open spec fn keys_distinct(e: EntriesView) -> bool {
    forall|i: int, j: int| 0 <= i < j < e.len() ==> #[trigger] e[i].0 != #[trigger] e[j].0
}

/// The namespaces of the entries are the keys of the map, and each maps to
/// the commands of its entry.
pub proof fn lemma_entries_map(e: EntriesView)
    requires
        keys_distinct(e),
    ensures
        forall|k: Seq<char>| #[trigger] entries_map(e).dom().contains(k) <==> exists|i: int| 0 <= i < e.len() && e[i].0 == k,
        forall|i: int| 0 <= i < e.len() ==> #[trigger] entries_map(e)[e[i].0] == e[i].1,
    decreases e.len(),
{
    if e.len() > 0 {
        let d = e.drop_last();
        assert(keys_distinct(d)) by {
            assert forall|i: int, j: int| 0 <= i < j < d.len() implies #[trigger] d[i].0 != #[trigger] d[j].0 by {
                assert(d[i] == e[i] && d[j] == e[j]);
            }
        }
        lemma_entries_map(d);
        assert forall|k: Seq<char>| #[trigger] entries_map(e).dom().contains(k) <==> exists|i: int| 0 <= i < e.len() && e[i].0 == k by {
            if entries_map(e).dom().contains(k) {
                if k != e.last().0 {
                    assert(entries_map(d).dom().contains(k));
                    let i = choose|i: int| 0 <= i < d.len() && d[i].0 == k;
                    assert(d[i] == e[i]);
                    assert(e[i].0 == k);
                } else {
                    assert(e[e.len() - 1].0 == k);
                }
            }
            if exists|i: int| 0 <= i < e.len() && e[i].0 == k {
                let i = choose|i: int| 0 <= i < e.len() && e[i].0 == k;
                if i < e.len() - 1 {
                    assert(d[i] == e[i]);
                    assert(d[i].0 == k);
                    assert(entries_map(d).dom().contains(k));
                }
            }
        }
        assert forall|i: int| 0 <= i < e.len() implies #[trigger] entries_map(e)[e[i].0] == e[i].1 by {
            if i < e.len() - 1 {
                assert(d[i] == e[i]);
                assert(e[i].0 != e[e.len() - 1].0);
                assert(entries_map(d)[d[i].0] == d[i].1);
                assert(entries_map(e) == entries_map(d).insert(e.last().0, e.last().1));
            } else {
                assert(e[i] == e.last());
            }
        }
    }
}

/// Replacing the commands of an entry replaces them in the map.
pub proof fn lemma_entries_update(e: EntriesView, i: int, v: Seq<CommandView>)
    requires
        keys_distinct(e),
        0 <= i < e.len(),
    ensures
        entries_map(e.update(i, (e[i].0, v))) == entries_map(e).insert(e[i].0, v),
        keys_distinct(e.update(i, (e[i].0, v))),
    decreases e.len(),
{
    let u = e.update(i, (e[i].0, v));
    assert(keys_distinct(u)) by {
        assert forall|a: int, b: int| 0 <= a < b < u.len() implies #[trigger] u[a].0 != #[trigger] u[b].0 by {
            assert(u[a].0 == e[a].0 && u[b].0 == e[b].0);
        }
    }
    let d = e.drop_last();
    assert(keys_distinct(d)) by {
        assert forall|a: int, b: int| 0 <= a < b < d.len() implies #[trigger] d[a].0 != #[trigger] d[b].0 by {
            assert(d[a] == e[a] && d[b] == e[b]);
        }
    }
    if i == e.len() - 1 {
        assert(u.drop_last() =~= d);
        assert(entries_map(u) =~= entries_map(e).insert(e[i].0, v));
    } else {
        lemma_entries_update(d, i, v);
        assert(u.drop_last() =~= d.update(i, (d[i].0, v)));
        assert(e[i].0 != e.last().0);
        assert(entries_map(u) =~= entries_map(e).insert(e[i].0, v));
    }
}

/// Each namespace's commands ordered by lowercased alias.
pub open spec fn sort_all(m: Map<Seq<char>, Seq<CommandView>>) -> Map<Seq<char>, Seq<CommandView>> {
    Map::new(|k: Seq<char>| m.dom().contains(k), |k: Seq<char>| sorted_by_alias(m[k]))
}

/// The commands cached for a namespace, none when it has no entry.
pub open spec fn cached(m: Map<Seq<char>, Seq<CommandView>>, ns: Seq<char>) -> Seq<CommandView> {
    if m.dom().contains(ns) {
        m[ns]
    } else {
        Seq::empty()
    }
}

/// The commands of a named namespace to search: its cached commands, or
/// when the cache has none, its commands in the list, ordered by lowercased
/// alias.
pub open spec fn namespace_base(
    list: Seq<CommandView>,
    cache: Map<Seq<char>, Seq<CommandView>>,
    ns: Seq<char>,
) -> Seq<CommandView> {
    if cached(cache, ns).len() > 0 {
        cached(cache, ns)
    } else {
        sorted_by_alias(keep_where(list, of_namespace(ns)))
    }
}

/// Whether `ns` names one namespace: neither empty nor `"All"`.
pub open spec fn is_named(ns: Seq<char>) -> bool {
    ns.len() > 0 && ns != all_namespace()
}

/// The cache after showing a namespace: a named namespace whose cached
/// commands were empty gets its commands from the list, ordered by
/// lowercased alias; otherwise the cache stays.
pub open spec fn filtered_cache(
    list: Seq<CommandView>,
    cache: Map<Seq<char>, Seq<CommandView>>,
    ns: Seq<char>,
) -> Map<Seq<char>, Seq<CommandView>> {
    if is_named(ns) && cached(cache, ns).len() == 0 {
        cache.insert(ns, sorted_by_alias(keep_where(list, of_namespace(ns))))
    } else {
        cache
    }
}

/// Whether `i` is the first position of a command with the key of `c`.
pub open spec fn first_key_at(s: Seq<CommandView>, c: CommandView, i: int) -> bool {
    0 <= i < s.len() && same_key(s[i], c) && forall|j: int| 0 <= j < i ==> !same_key(#[trigger] s[j], c)
}

/// `s` without its first command with the key of `c`.
pub open spec fn remove_first_key(s: Seq<CommandView>, c: CommandView) -> Seq<CommandView> {
    if exists|i: int| first_key_at(s, c, i) {
        s.remove(choose|i: int| first_key_at(s, c, i))
    } else {
        s
    }
}

/// The cache with `c` added to the commands of its namespace.
pub open spec fn with_entry(m: Map<Seq<char>, Seq<CommandView>>, c: CommandView) -> Map<Seq<char>, Seq<CommandView>> {
    m.insert(c.namespace, cached(m, c.namespace).push(c))
}

/// The cache without the first command with the key of `c` in its namespace.
pub open spec fn without_entry(m: Map<Seq<char>, Seq<CommandView>>, c: CommandView) -> Map<Seq<char>, Seq<CommandView>> {
    if m.dom().contains(c.namespace) {
        m.insert(c.namespace, remove_first_key(m[c.namespace], c))
    } else {
        m
    }
}

/// The cache made for a list: each namespace of the list maps to its
/// commands, ordered by lowercased alias.
pub open spec fn cache_for(list: Seq<CommandView>) -> Map<Seq<char>, Seq<CommandView>> {
    Map::new(
        |k: Seq<char>| exists|i: int| 0 <= i < list.len() && list[i].namespace == k,
        |k: Seq<char>| sorted_by_alias(keep_where(list, of_namespace(k))),
    )
}

/// Whether the commands of every namespace come in order of their
/// lowercased alias.
pub open spec fn ordered_entries(m: Map<Seq<char>, Seq<CommandView>>) -> bool {
    forall|k: Seq<char>| #[trigger] m.dom().contains(k) ==> alias_ordered(m[k])
}

/// Sorting every namespace orders it, and leaves an ordered cache as it is.
pub proof fn lemma_sort_all(m: Map<Seq<char>, Seq<CommandView>>)
    ensures
        ordered_entries(sort_all(m)),
        ordered_entries(m) ==> sort_all(m) == m,
{
    assert forall|k: Seq<char>| #[trigger] sort_all(m).dom().contains(k) implies alias_ordered(sort_all(m)[k]) by {
        lemma_sorted_by_alias(m[k]);
    }
    if ordered_entries(m) {
        assert forall|k: Seq<char>| m.dom().contains(k) implies sort_all(m)[k] == m[k] by {
            lemma_sorted_by_alias(m[k]);
        }
        assert(sort_all(m) =~= m);
    }
}

/// Removing a command keeps an ordered cache ordered.
pub proof fn lemma_without_entry_ordered(m: Map<Seq<char>, Seq<CommandView>>, c: CommandView)
    requires
        ordered_entries(m),
    ensures
        ordered_entries(without_entry(m, c)),
{
    if m.dom().contains(c.namespace) {
        let s = m[c.namespace];
        assert(alias_ordered(s));
        if exists|i: int| first_key_at(s, c, i) {
            lemma_ordered_remove(s, choose|i: int| first_key_at(s, c, i));
        }
        assert forall|k: Seq<char>| #[trigger] without_entry(m, c).dom().contains(k) implies alias_ordered(
            without_entry(m, c)[k],
        ) by {
            if k != c.namespace {
                assert(m.dom().contains(k));
            }
        }
    }
}

/// The cache made for a list is ordered.
pub proof fn lemma_cache_for_ordered(list: Seq<CommandView>)
    ensures
        ordered_entries(cache_for(list)),
{
    assert forall|k: Seq<char>| #[trigger] cache_for(list).dom().contains(k) implies alias_ordered(cache_for(list)[k]) by {
        lemma_sorted_by_alias(keep_where(list, of_namespace(k)));
    }
}

/// Showing a namespace keeps an ordered cache ordered.
pub proof fn lemma_filtered_cache_ordered(
    list: Seq<CommandView>,
    cache: Map<Seq<char>, Seq<CommandView>>,
    ns: Seq<char>,
)
    requires
        ordered_entries(cache),
    ensures
        ordered_entries(filtered_cache(list, cache, ns)),
{
    lemma_sorted_by_alias(keep_where(list, of_namespace(ns)));
    let f = filtered_cache(list, cache, ns);
    assert forall|k: Seq<char>| #[trigger] f.dom().contains(k) implies alias_ordered(f[k]) by {
        if k != ns {
            assert(cache.dom().contains(k));
        }
    }
}

/// Adding a command to an ordered cache places it among the commands of
/// its namespace, ordered by lowercased alias; every other namespace keeps
/// its commands as they were.
pub proof fn law_insert_keeps_other_namespaces(m: Map<Seq<char>, Seq<CommandView>>, c: CommandView)
    requires
        ordered_entries(m),
    ensures
        sort_all(with_entry(m, c)) == m.insert(c.namespace, sorted_by_alias(cached(m, c.namespace).push(c))),
        ordered_entries(sort_all(with_entry(m, c))),
{
    lemma_sort_all(with_entry(m, c));
    assert forall|k: Seq<char>| m.dom().contains(k) && k != c.namespace implies sort_all(with_entry(m, c))[k]
        == m[k] by {
        lemma_sorted_by_alias(m[k]);
    }
    assert(sort_all(with_entry(m, c)) =~= m.insert(
        c.namespace,
        sorted_by_alias(cached(m, c.namespace).push(c)),
    ));
}

/// A command added to the cache is found among the commands of its
/// namespace, and every command cached before stays cached.
pub proof fn law_added_command_is_cached(m: Map<Seq<char>, Seq<CommandView>>, c: CommandView)
    ensures
        sort_all(with_entry(m, c)).dom().contains(c.namespace),
        sort_all(with_entry(m, c))[c.namespace].contains(c),
        forall|k: Seq<char>, x: CommandView| #[trigger] m.dom().contains(k) && m[k].contains(x)
            ==> sort_all(with_entry(m, c)).dom().contains(k) && #[trigger] sort_all(with_entry(m, c))[k].contains(x),
{
    let w = with_entry(m, c);
    let e = cached(m, c.namespace).push(c);
    assert(w[c.namespace] == e);
    assert(e[e.len() - 1] == c);
    assert(e.contains(c));
    crate::commands::law_init_orders_by_alias(e);
    assert(sort_all(w)[c.namespace] == sorted_by_alias(e));
    assert forall|k: Seq<char>, x: CommandView| #[trigger] m.dom().contains(k) && m[k].contains(x)
        implies sort_all(w).dom().contains(k) && #[trigger] sort_all(w)[k].contains(x) by {
        crate::commands::law_init_orders_by_alias(w[k]);
        let i = choose|i: int| 0 <= i < m[k].len() && m[k][i] == x;
        if k == c.namespace {
            assert(cached(m, k) == m[k]);
            assert(e[i] == x);
            assert(w[k].contains(x));
        } else {
            assert(w[k] == m[k]);
            assert(w[k].contains(x));
        }
        assert(sort_all(w)[k] == sorted_by_alias(w[k]));
    }
}

/// Each namespace of the list mapped to its commands, in list order.
pub open spec fn grouped(list: Seq<CommandView>) -> Map<Seq<char>, Seq<CommandView>> {
    Map::new(
        |k: Seq<char>| exists|i: int| 0 <= i < list.len() && list[i].namespace == k,
        |k: Seq<char>| keep_where(list, of_namespace(k)),
    )
}

/// A namespace no command has keeps nothing.
proof fn lemma_keep_none(s: Seq<CommandView>, k: Seq<char>)
    requires
        forall|i: int| 0 <= i < s.len() ==> #[trigger] s[i].namespace != k,
    ensures
        keep_where(s, of_namespace(k)) == Seq::<CommandView>::empty(),
    decreases s.len(),
{
    if s.len() > 0 {
        let d = s.drop_last();
        assert forall|i: int| 0 <= i < d.len() implies #[trigger] d[i].namespace != k by {
            assert(d[i] == s[i]);
        }
        lemma_keep_none(d, k);
        assert(s[s.len() - 1].namespace != k);
    }
}

/// Grouping one more command adds it to its namespace.
proof fn lemma_grouped_push(t: Seq<CommandView>, c: CommandView)
    ensures
        grouped(t.push(c)) == with_entry(grouped(t), c),
{
    let u = t.push(c);
    assert(u.drop_last() =~= t);
    assert(u.last() == c);
    if !grouped(t).dom().contains(c.namespace) {
        assert forall|i: int| 0 <= i < t.len() implies #[trigger] t[i].namespace != c.namespace by {
            if t[i].namespace == c.namespace {
                assert(grouped(t).dom().contains(c.namespace));
            }
        }
        lemma_keep_none(t, c.namespace);
    }
    assert forall|k: Seq<char>| #[trigger] grouped(u).dom().contains(k) <==> with_entry(grouped(t), c).dom().contains(k) by {
        if grouped(u).dom().contains(k) && k != c.namespace {
            let i = choose|i: int| 0 <= i < u.len() && u[i].namespace == k;
            assert(i < t.len());
            assert(t[i].namespace == k);
        }
        if grouped(t).dom().contains(k) {
            let i = choose|i: int| 0 <= i < t.len() && t[i].namespace == k;
            assert(u[i].namespace == k);
        }
        if k == c.namespace {
            assert(u[t.len() as int].namespace == k);
        }
    }
    assert(grouped(u) =~= with_entry(grouped(t), c));
}

/// The commands of each namespace, for a faster search.
pub struct CacheInfo {
    cache: Vec<(String, Vec<Command>)>,
}

/// The entries taken by view.
pub open spec fn entry_views(v: Seq<(String, Vec<Command>)>) -> EntriesView {
    v.map_values(|p: (String, Vec<Command>)| (p.0@, views(p.1@)))
}

impl View for CacheInfo {
    type V = Map<Seq<char>, Seq<CommandView>>;

    closed spec fn view(&self) -> Map<Seq<char>, Seq<CommandView>> {
        entries_map(entry_views(self.cache@))
    }
}

impl CacheInfo {
    /// No namespace has two entries.
    pub closed spec fn well_formed(&self) -> bool {
        keys_distinct(entry_views(self.cache@))
    }

    /// The position of the entry of `ns`, if there is one.
    fn position_of(&self, ns: &str) -> (r: Option<usize>)
        requires
            self.well_formed(),
        ensures
            match r {
                Some(i) => i < self.cache@.len() && self.cache@[i as int].0@ == ns@,
                None => !self@.dom().contains(ns@),
            },
    {
        proof {
            lemma_entries_map(entry_views(self.cache@));
        }
        let ghost e = entry_views(self.cache@);
        let mut i: usize = 0;
        while i < self.cache.len()
            invariant
                i <= self.cache.len(),
                e == entry_views(self.cache@),
                forall|k: int| 0 <= k < i ==> e[k].0 != ns@,
            decreases self.cache.len() - i,
        {
            assert(e[i as int].0 == self.cache@[i as int].0@);
            if crate::text::str_eq(self.cache[i].0.as_str(), ns) {
                return Some(i);
            }
            i = i + 1;
        }
        None
    }

    /// Whether the namespace has an entry.
    pub fn contains_namespace(&self, namespace: &str) -> (r: bool)
        requires
            self.well_formed(),
        ensures
            r == self@.dom().contains(namespace@),
    {
        proof {
            lemma_entries_map(entry_views(self.cache@));
        }
        match self.position_of(namespace) {
            Some(i) => {
                assert(entry_views(self.cache@)[i as int].0 == namespace@);
                true
            },
            None => false,
        }
    }

    /// The commands cached for a namespace; none when it has no entry.
    pub fn get_entry(&self, namespace: &str) -> (r: Vec<Command>)
        requires
            self.well_formed(),
        ensures
            views(r@) == cached(self@, namespace@),
    {
        proof {
            lemma_entries_map(entry_views(self.cache@));
        }
        match self.position_of(namespace) {
            Some(i) => {
                assert(entry_views(self.cache@)[i as int].0 == namespace@);
                crate::commands::clone_commands(&self.cache[i].1)
            },
            None => {
                let v: Vec<Command> = Vec::new();
                assert(views(v@) =~= Seq::<CommandView>::empty());
                v
            },
        }
    }

    /// Adds `c` to the commands of its namespace, making an entry if needed.
    fn add_to_entry(&mut self, c: Command)
        requires
            old(self).well_formed(),
        ensures
            final(self).well_formed(),
            final(self)@ == with_entry(old(self)@, c@),
    {
        let ghost e = entry_views(self.cache@);
        proof {
            lemma_entries_map(e);
        }
        match self.position_of(c.namespace.as_str()) {
            Some(i) => {
                let (k, mut v) = self.cache.remove(i);
                let ghost old_v = views(v@);
                assert(e[i as int] == (k@, old_v));
                v.push(c);
                assert(views(v@) =~= old_v.push(c@));
                self.cache.insert(i, (k, v));
                proof {
                    lemma_entries_update(e, i as int, views(v@));
                    assert(entry_views(self.cache@) =~= e.update(i as int, (e[i as int].0, views(v@))));
                    assert(entries_map(e)[e[i as int].0] == e[i as int].1);
                }
            },
            None => {
                let key = c.namespace.clone();
                let mut v: Vec<Command> = Vec::new();
                v.push(c);
                let ghost cv = views(v@);
                self.cache.push((key, v));
                assert(entry_views(self.cache@) =~= e.push((c@.namespace, cv)));
                assert(entry_views(self.cache@).drop_last() =~= e);
                assert(cv =~= Seq::<CommandView>::empty().push(c@));
                assert(keys_distinct(entry_views(self.cache@))) by {
                    assert forall|a: int, b: int| 0 <= a < b < entry_views(self.cache@).len() implies
                        #[trigger] entry_views(self.cache@)[a].0 != #[trigger] entry_views(self.cache@)[b].0 by {
                        if b == e.len() {
                            if entry_views(self.cache@)[a].0 == c@.namespace {
                                assert(e[a].0 == c@.namespace);
                            }
                        } else {
                            assert(entry_views(self.cache@)[a] == e[a]);
                            assert(entry_views(self.cache@)[b] == e[b]);
                        }
                    }
                }
            },
        }
    }

    /// Sets the commands of a namespace, making an entry if needed.
    fn set_entry(&mut self, namespace: String, commands: Vec<Command>)
        requires
            old(self).well_formed(),
        ensures
            final(self).well_formed(),
            final(self)@ == old(self)@.insert(namespace@, views(commands@)),
    {
        let ghost e = entry_views(self.cache@);
        let ghost cv = views(commands@);
        proof {
            lemma_entries_map(e);
        }
        match self.position_of(namespace.as_str()) {
            Some(i) => {
                let (k, _) = self.cache.remove(i);
                assert(e[i as int].0 == k@);
                self.cache.insert(i, (k, commands));
                proof {
                    lemma_entries_update(e, i as int, cv);
                    assert(entry_views(self.cache@) =~= e.update(i as int, (e[i as int].0, cv)));
                }
            },
            None => {
                let ghost key = namespace@;
                self.cache.push((namespace, commands));
                assert(entry_views(self.cache@) =~= e.push((key, cv)));
                assert(entry_views(self.cache@).drop_last() =~= e);
                assert(keys_distinct(entry_views(self.cache@))) by {
                    assert forall|a: int, b: int| 0 <= a < b < entry_views(self.cache@).len() implies
                        #[trigger] entry_views(self.cache@)[a].0 != #[trigger] entry_views(self.cache@)[b].0 by {
                        if b == e.len() {
                            if entry_views(self.cache@)[a].0 == key {
                                assert(e[a].0 == key);
                            }
                        } else {
                            assert(entry_views(self.cache@)[a] == e[a]);
                            assert(entry_views(self.cache@)[b] == e[b]);
                        }
                    }
                }
            },
        }
    }

    /// Orders the commands of each namespace by lowercased alias.
    fn sort_cached_values(&mut self)
        requires
            old(self).well_formed(),
        ensures
            final(self).well_formed(),
            final(self)@ == sort_all(old(self)@),
    {
        let ghost start = entry_views(self.cache@);
        let mut i: usize = 0;
        while i < self.cache.len()
            invariant
                i <= self.cache.len(),
                start == entry_views(old(self).cache@),
                keys_distinct(start),
                entry_views(self.cache@).len() == start.len(),
                forall|k: int| 0 <= k < i ==> #[trigger] entry_views(self.cache@)[k] == (start[k].0, sorted_by_alias(start[k].1)),
                forall|k: int| i <= k < start.len() ==> #[trigger] entry_views(self.cache@)[k] == start[k],
            decreases self.cache.len() - i,
        {
            let ghost before = entry_views(self.cache@);
            assert(before[i as int] == (self.cache@[i as int].0@, views(self.cache@[i as int].1@)));
            let (k, v) = self.cache.remove(i);
            assert((k@, views(v@)) == start[i as int]);
            let sorted = sort_by_alias(v);
            self.cache.insert(i, (k, sorted));
            assert(entry_views(self.cache@) =~= before.update(i as int, (start[i as int].0, sorted_by_alias(start[i as int].1))));
            i = i + 1;
        }
        let ghost fin = entry_views(self.cache@);
        assert(keys_distinct(fin)) by {
            assert forall|a: int, b: int| 0 <= a < b < fin.len() implies #[trigger] fin[a].0 != #[trigger] fin[b].0 by {
                assert(fin[a].0 == start[a].0 && fin[b].0 == start[b].0);
            }
        }
        proof {
            lemma_entries_map(start);
            lemma_entries_map(fin);
            assert forall|k: Seq<char>| #[trigger] entries_map(fin).dom().contains(k) <==> entries_map(start).dom().contains(k) by {
                if entries_map(fin).dom().contains(k) {
                    let j = choose|j: int| 0 <= j < fin.len() && fin[j].0 == k;
                    assert(start[j].0 == k);
                }
                if entries_map(start).dom().contains(k) {
                    let j = choose|j: int| 0 <= j < start.len() && start[j].0 == k;
                    assert(fin[j].0 == k);
                }
            }
            assert forall|k: Seq<char>| entries_map(fin).dom().contains(k) implies entries_map(fin)[k] == sorted_by_alias(entries_map(start)[k]) by {
                let j = choose|j: int| 0 <= j < fin.len() && fin[j].0 == k;
                assert(entries_map(fin)[fin[j].0] == fin[j].1);
                assert(entries_map(start)[start[j].0] == start[j].1);
            }
            assert(entries_map(fin) =~= sort_all(entries_map(start)));
        }
    }

    /// Adds a command to its namespace's entry and reorders the entries.
    pub fn insert_entry(&mut self, command_item: Command)
        requires
            old(self).well_formed(),
        ensures
            final(self).well_formed(),
            final(self)@ == sort_all(with_entry(old(self)@, command_item@)),
            ordered_entries(final(self)@),
            ordered_entries(old(self)@) ==> final(self)@ == old(self)@.insert(
                command_item@.namespace,
                sorted_by_alias(cached(old(self)@, command_item@.namespace).push(command_item@)),
            ),
    {
        let ghost c = command_item@;
        self.add_to_entry(command_item);
        self.sort_cached_values();
        proof {
            lemma_sort_all(with_entry(old(self)@, c));
            if ordered_entries(old(self)@) {
                law_insert_keeps_other_namespaces(old(self)@, c);
            }
        }
    }

    /// Adds a command to the commands of its namespace when the namespace
    /// has an entry; otherwise nothing changes.
    pub fn push_if_present(&mut self, command_item: Command)
        requires
            old(self).well_formed(),
        ensures
            final(self).well_formed(),
            final(self)@ == (if old(self)@.dom().contains(command_item@.namespace) {
                with_entry(old(self)@, command_item@)
            } else {
                old(self)@
            }),
    {
        if self.contains_namespace(command_item.namespace.as_str()) {
            self.add_to_entry(command_item);
        }
    }

    /// Orders the commands of each namespace by lowercased alias.
    pub fn sort_entries(&mut self)
        requires
            old(self).well_formed(),
        ensures
            final(self).well_formed(),
            final(self)@ == sort_all(old(self)@),
            ordered_entries(final(self)@),
    {
        self.sort_cached_values();
        proof {
            lemma_sort_all(old(self)@);
        }
    }

    /// Removes the first command with the alias and namespace of
    /// `command_item` from its namespace's entry.
    pub fn remove_entry(&mut self, command_item: &Command)
        requires
            old(self).well_formed(),
        ensures
            final(self).well_formed(),
            final(self)@ == without_entry(old(self)@, command_item@),
            ordered_entries(old(self)@) ==> ordered_entries(final(self)@),
    {
        proof {
            if ordered_entries(old(self)@) {
                lemma_without_entry_ordered(old(self)@, command_item@);
            }
        }
        let ghost e = entry_views(self.cache@);
        proof {
            lemma_entries_map(e);
        }
        match self.position_of(command_item.namespace.as_str()) {
            Some(i) => {
                let (k, mut v) = self.cache.remove(i);
                let ghost old_v = views(v@);
                assert(e[i as int] == (k@, old_v));
                assert(entries_map(e)[e[i as int].0] == e[i as int].1);
                let mut j: usize = 0;
                let mut hit = false;
                while j < v.len() && !hit
                    invariant
                        j <= v.len(),
                        old_v == views(v@),
                        !hit ==> forall|m: int| 0 <= m < j ==> !same_key(#[trigger] old_v[m], command_item@),
                        hit ==> j > 0 && same_key(old_v[j - 1], command_item@) && forall|m: int|
                            0 <= m < j - 1 ==> !same_key(#[trigger] old_v[m], command_item@),
                    decreases v.len() - j,
                {
                    assert(old_v[j as int] == v@[j as int]@);
                    if v[j].alias == command_item.alias && v[j].namespace == command_item.namespace {
                        hit = true;
                    }
                    j = j + 1;
                }
                let found: Option<usize> = if hit {
                    Some(j - 1)
                } else {
                    None
                };
                match found {
                    Some(p) => {
                        assert(first_key_at(old_v, command_item@, p as int));
                        let ghost ch = choose|x: int| first_key_at(old_v, command_item@, x);
                        assert(ch == p as int) by {
                            if ch < p as int {
                                assert(!same_key(old_v[ch], command_item@));
                            } else if ch > p as int {
                                assert(!same_key(old_v[p as int], command_item@));
                            }
                        }
                        v.remove(p);
                        assert(views(v@) =~= old_v.remove(p as int));
                    },
                    None => {
                        assert(!exists|x: int| first_key_at(old_v, command_item@, x)) by {
                            if exists|x: int| first_key_at(old_v, command_item@, x) {
                                let x = choose|x: int| first_key_at(old_v, command_item@, x);
                                assert(!same_key(old_v[x], command_item@));
                            }
                        }
                    },
                }
                self.cache.insert(i, (k, v));
                proof {
                    lemma_entries_update(e, i as int, views(v@));
                    assert(entry_views(self.cache@) =~= e.update(i as int, (e[i as int].0, views(v@))));
                }
            },
            None => {},
        }
    }

    /// The commands of a list grouped by namespace: the namespaces in the
    /// order they first appear, each with its commands in list order.
    pub fn group(command_list: Vec<Command>) -> (r: CacheInfo)
        ensures
            r.well_formed(),
            r@ == grouped(views(command_list@)),
    {
        let ghost list = views(command_list@);
        let mut cache = CacheInfo { cache: Vec::new() };
        assert(entry_views(cache.cache@) =~= Seq::<(Seq<char>, Seq<CommandView>)>::empty());
        assert(cache@ =~= grouped(list.take(0)));
        let mut rest = command_list;
        let ghost orig = rest@;
        let n = rest.len();
        let mut i: usize = 0;
        while rest.len() > 0
            invariant
                orig.len() == n,
                list == views(orig),
                i + rest@.len() == n,
                rest@ == orig.skip(i as int),
                cache.well_formed(),
                cache@ == grouped(list.take(i as int)),
            decreases rest.len(),
        {
            let c = rest.remove(0);
            assert(c == orig[i as int]);
            assert(rest@ =~= orig.skip(i + 1));
            proof {
                lemma_grouped_push(list.take(i as int), c@);
                assert(list.take(i + 1) =~= list.take(i as int).push(c@));
            }
            cache.add_to_entry(c);
            i = i + 1;
        }
        assert(list.take(n as int) =~= list);
        cache
    }

    /// The cache for a list: each namespace mapped to its commands, ordered
    /// by lowercased alias.
    pub fn new(command_list: Vec<Command>) -> (r: CacheInfo)
        ensures
            r.well_formed(),
            r@ == cache_for(views(command_list@)),
            ordered_entries(r@),
    {
        let ghost list = views(command_list@);
        let mut cache = CacheInfo::group(command_list);
        cache.sort_cached_values();
        assert(sort_all(grouped(list)) =~= cache_for(list));
        proof {
            lemma_cache_for_ordered(list);
        }
        cache
    }

    /// The entries: each namespace once, with its commands.
    pub fn entries(&self) -> (r: &Vec<(String, Vec<Command>)>)
        ensures
            entries_map(entry_views(r@)) == self@,
            self.well_formed() ==> keys_distinct(entry_views(r@)),
    {
        &self.cache
    }

    /// Adds the new command to its namespace, removes the old one from its
    /// own, and reorders the entries.
    pub fn update_entry(&mut self, new_command_item: &Command, old_command_item: &Command)
        requires
            old(self).well_formed(),
        ensures
            final(self).well_formed(),
            final(self)@ == sort_all(
                without_entry(with_entry(old(self)@, new_command_item@), old_command_item@),
            ),
            ordered_entries(final(self)@),
    {
        self.add_to_entry(new_command_item.clone());
        self.remove_entry(old_command_item);
        self.sort_cached_values();
        proof {
            lemma_sort_all(without_entry(with_entry(old(self)@, new_command_item@), old_command_item@));
        }
    }
}

/// The commands of namespace `ns` (any for `"All"`) that the query matches
/// with a score above 1, each with its score, in order.
pub open spec fn scored_commands(s: Seq<CommandView>, ns: Seq<char>, q: Seq<char>) -> Seq<(i64, CommandView)>
    decreases s.len(),
{
    if s.len() == 0 {
        Seq::empty()
    } else {
        let rest = scored_commands(s.drop_last(), ns, q);
        let c = s.last();
        if ns == all_namespace() || c.namespace == ns {
            match skim_indices_score(command_lookup(c), q) {
                Some(x) => if x > 1 {
                    rest.push((x, c))
                } else {
                    rest
                },
                None => rest,
            }
        } else {
            rest
        }
    }
}

/// What a fuzzy search finds: the scored commands from the best score to
/// the worst, equal scores in list order.
pub open spec fn fuzzy_found(s: Seq<CommandView>, ns: Seq<char>, q: Seq<char>) -> Seq<CommandView> {
    sort_by_score(scored_commands(s, ns, q)).map_values(|p: (i64, CommandView)| p.1)
}

/// Each scored command comes from the list, belongs to the namespace
/// searched, and carries its score, which is above 1.
proof fn lemma_scored_pairs(s: Seq<CommandView>, ns: Seq<char>, q: Seq<char>)
    ensures
        forall|p: (i64, CommandView)| #[trigger] scored_commands(s, ns, q).contains(p) ==> {
            &&& s.contains(p.1)
            &&& (ns == all_namespace() || p.1.namespace == ns)
            &&& skim_indices_score(command_lookup(p.1), q) == Some(p.0)
            &&& p.0 > 1
        },
    decreases s.len(),
{
    if s.len() > 0 {
        let d = s.drop_last();
        lemma_scored_pairs(d, ns, q);
        let rest = scored_commands(d, ns, q);
        assert forall|p: (i64, CommandView)| #[trigger] scored_commands(s, ns, q).contains(p) implies {
            &&& s.contains(p.1)
            &&& (ns == all_namespace() || p.1.namespace == ns)
            &&& skim_indices_score(command_lookup(p.1), q) == Some(p.0)
            &&& p.0 > 1
        } by {
            let r = scored_commands(s, ns, q);
            let k = choose|k: int| 0 <= k < r.len() && r[k] == p;
            if k < rest.len() && r[k] == rest[k] {
                assert(rest.contains(p));
                let m = choose|m: int| 0 <= m < d.len() && d[m] == p.1;
                assert(s[m] == d[m]);
            } else {
                assert(s[s.len() - 1] == s.last());
            }
        }
    }
}

/// A search shows only commands of the list that belong to the namespace
/// searched (any for `"All"`) and that the query matches with a score
/// above 1, from the best score to the worst.
pub proof fn law_search_results(s: Seq<CommandView>, ns: Seq<char>, q: Seq<char>)
    ensures
        forall|k: int| 0 <= k < fuzzy_found(s, ns, q).len() ==> {
            let c = #[trigger] fuzzy_found(s, ns, q)[k];
            &&& s.contains(c)
            &&& (ns == all_namespace() || c.namespace == ns)
            &&& skim_indices_score(command_lookup(c), q) matches Some(x) && x > 1
        },
        forall|i: int, j: int| 0 <= i < j < fuzzy_found(s, ns, q).len() ==>
            skim_indices_score(command_lookup(#[trigger] fuzzy_found(s, ns, q)[i]), q)->0
                >= skim_indices_score(command_lookup(#[trigger] fuzzy_found(s, ns, q)[j]), q)->0,
{
    let scored = scored_commands(s, ns, q);
    let sorted = sort_by_score(scored);
    lemma_scored_pairs(s, ns, q);
    lemma_sort_by_score(scored);
    let found = fuzzy_found(s, ns, q);
    assert(found.len() == sorted.len());
    assert forall|k: int| 0 <= k < found.len() implies {
        let c = #[trigger] found[k];
        &&& s.contains(c)
        &&& (ns == all_namespace() || c.namespace == ns)
        &&& skim_indices_score(command_lookup(c), q) matches Some(x) && x > 1
    } by {
        assert(found[k] == sorted[k].1);
        assert(sorted.contains(sorted[k]));
        assert(scored.contains(sorted[k]));
    }
    assert forall|i: int, j: int| 0 <= i < j < found.len() implies
        skim_indices_score(command_lookup(#[trigger] found[i]), q)->0
            >= skim_indices_score(command_lookup(#[trigger] found[j]), q)->0 by {
        assert(found[i] == sorted[i].1 && found[j] == sorted[j].1);
        assert(sorted.contains(sorted[i]) && sorted.contains(sorted[j]));
        assert(scored.contains(sorted[i]) && scored.contains(sorted[j]));
        assert(sorted[i].0 >= sorted[j].0);
    }
}

/// What the command list shows for a namespace and a query: the commands
/// of a named namespace (from the cache, or from the list when the cache has
/// none), or every command (the demo one when none is stored), searched with
/// the query when there is one.
pub open spec fn filter_view(
    list: Seq<CommandView>,
    cache: Map<Seq<char>, Seq<CommandView>>,
    ns: Seq<char>,
    q: Seq<char>,
) -> Seq<CommandView> {
    let base = if is_named(ns) {
        namespace_base(list, cache, ns)
    } else if list.len() == 0 {
        seq![default_command()]
    } else {
        list
    };
    if base.len() > 0 && q.len() > 0 {
        fuzzy_found(base, ns, q)
    } else {
        base
    }
}

/// The commands of `list` that belong to namespace `ns`, in list order.
fn namespace_commands(list: &Vec<Command>, ns: &str) -> (r: Vec<Command>)
    ensures
        views(r@) == keep_where(views(list@), of_namespace(ns@)),
{
    let ghost s = views(list@);
    let mut out: Vec<Command> = Vec::new();
    let mut i: usize = 0;
    while i < list.len()
        invariant
            i <= list.len(),
            s == views(list@),
            views(out@) == keep_where(s.take(i as int), of_namespace(ns@)),
        decreases list.len() - i,
    {
        let ghost t = s.take(i + 1);
        assert(t.drop_last() =~= s.take(i as int));
        assert(t.last() == list@[i as int]@);
        let ghost before = views(out@);
        if str_eq(list[i].namespace.as_str(), ns) {
            out.push(list[i].clone());
            assert(views(out@) =~= before.push(list@[i as int]@));
        }
        i = i + 1;
    }
    assert(s.take(list.len() as int) =~= s);
    out
}

/// The commands of a pair list, taken by view with their scores.
pub open spec fn scored_views(v: Seq<(i64, Command)>) -> Seq<(i64, CommandView)> {
    v.map_values(|p: (i64, Command)| map_scored(p, |c: Command| c@))
}

/// Searches `commands` for the query: the commands of the namespace that
/// match with a score above 1, from the best score to the worst.
pub fn fuzzy_find(namespace: &str, query_string: &str, commands: Vec<Command>) -> (r: Vec<Command>)
    ensures
        commands@.len() == 0 ==> r@.len() == 0,
        commands@.len() > 0 ==> views(r@) == fuzzy_found(views(commands@), namespace@, query_string@),
{
    if commands.len() == 0 {
        return commands;
    }
    let ghost s = views(commands@);
    let all = str_eq(namespace, "All");
    let mut pairs: Vec<(i64, Command)> = Vec::new();
    let mut i: usize = 0;
    while i < commands.len()
        invariant
            i <= commands.len(),
            s == views(commands@),
            all == (namespace@ == all_namespace()),
            scored_views(pairs@) == scored_commands(s.take(i as int), namespace@, query_string@),
        decreases commands.len() - i,
    {
        let ghost t = s.take(i + 1);
        assert(t.drop_last() =~= s.take(i as int));
        assert(t.last() == commands@[i as int]@);
        let c = &commands[i];
        let ghost before = scored_views(pairs@);
        if all || str_eq(c.namespace.as_str(), namespace) {
            let lookup = c.lookup_string();
            match skim_fuzzy_indices_score(lookup.as_str(), query_string) {
                Some(score) => {
                    if score > 1 {
                        pairs.push((score, c.clone()));
                        assert(scored_views(pairs@) =~= before.push((score, c@)));
                    }
                },
                None => {},
            }
        }
        i = i + 1;
    }
    assert(s.take(commands.len() as int) =~= s);
    let ghost unsorted = pairs@;
    let sorted = sort_pairs_by_score(pairs);
    proof {
        lemma_score_sort_map(unsorted, |c: Command| c@);
    }
    let mut out: Vec<Command> = Vec::new();
    let mut k: usize = 0;
    while k < sorted.len()
        invariant
            k <= sorted.len(),
            views(out@) == scored_views(sorted@).take(k as int).map_values(|p: (i64, CommandView)| p.1),
        decreases sorted.len() - k,
    {
        let ghost before = views(out@);
        out.push(sorted[k].1.clone());
        assert(scored_views(sorted@)[k as int] == (sorted@[k as int].0, sorted@[k as int].1@));
        assert(views(out@) =~= before.push(sorted@[k as int].1@));
        assert(scored_views(sorted@).take(k + 1).map_values(|p: (i64, CommandView)| p.1)
            =~= scored_views(sorted@).take(k as int).map_values(|p: (i64, CommandView)| p.1).push(sorted@[k as int].1@));
        k = k + 1;
    }
    assert(scored_views(sorted@).take(sorted.len() as int) =~= scored_views(sorted@));
    out
}

/// Why a change to the commands is refused.
#[derive(Debug)]
pub enum ChangeError {
    /// The command is not valid.
    Invalid(CommandError),
    /// The list refuses the change.
    Refused(CommandsError),
}

impl ChangeError {
    /// The message of the error.
    pub open spec fn message(&self) -> Seq<char> {
        match self {
            ChangeError::Invalid(e) => e.message(),
            ChangeError::Refused(e) => e.message(),
        }
    }

    /// The message of the error.
    pub fn to_string(&self) -> (r: String)
        ensures
            r@ == self.message(),
    {
        match self {
            ChangeError::Invalid(e) => e.to_string(),
            ChangeError::Refused(e) => e.to_string(),
        }
    }
}

/// The commands of the main screen: the stored list, the cache by
/// namespace, the commands shown, the one selected and the one to run.
pub struct CommandsContext {
    commands: Commands,
    state: ListState,
    to_be_executed: Option<Command>,
    commands_cache: CacheInfo,
    filtered_commands: Vec<Command>,
}

impl CommandsContext {
    /// The stored commands.
    pub closed spec fn list(&self) -> Seq<CommandView> {
        self.commands.list()
    }

    /// The cache by namespace.
    pub closed spec fn cache(&self) -> Map<Seq<char>, Seq<CommandView>> {
        self.commands_cache@
    }

    /// The commands shown.
    pub closed spec fn shown(&self) -> Seq<CommandView> {
        views(self.filtered_commands@)
    }

    /// The position selected.
    pub closed spec fn selection(&self) -> Option<usize> {
        self.state.selection()
    }

    /// The command to run once the interface closes.
    pub closed spec fn to_run(&self) -> Option<CommandView> {
        match self.to_be_executed {
            Some(c) => Some(c@),
            None => None,
        }
    }

    /// The cache keeps one entry per namespace, each ordered by lowercased
    /// alias.
    pub closed spec fn well_formed(&self) -> bool {
        &&& self.commands_cache.well_formed()
        &&& ordered_entries(self.commands_cache@)
    }

    /// The context for the stored commands: nothing shown yet, the first
    /// position selected.
    pub fn new(commands: Vec<Command>) -> (r: CommandsContext)
        ensures
            r.well_formed(),
            r.list() == crate::commands::sorted_by_alias(views(commands@)),
            r.cache() == cache_for(views(commands@)),
            r.shown().len() == 0,
            r.selection() == Some(0usize),
            r.to_run() is None,
    {
        let copy = crate::commands::clone_commands(&commands);
        let mut state = ListState::new();
        state.select(Some(0));
        let r = CommandsContext {
            commands: Commands::init(copy),
            state,
            to_be_executed: None,
            commands_cache: CacheInfo::new(commands),
            filtered_commands: Vec::new(),
        };
        assert(views(r.filtered_commands@).len() == 0);
        r
    }

    /// The stored commands.
    pub fn commands(&self) -> (r: &Commands)
        ensures
            r.list() == self.list(),
    {
        &self.commands
    }

    /// The cache by namespace.
    pub fn commands_cache(&self) -> (r: &CacheInfo)
        ensures
            r@ == self.cache(),
            self.well_formed() ==> r.well_formed(),
    {
        &self.commands_cache
    }

    /// The selection in the list shown.
    pub fn state(&self) -> (r: ListState)
        ensures
            r.selection() == self.selection(),
    {
        self.state
    }

    /// Sets the command to run once the interface closes.
    pub fn set_command_to_be_executed(&mut self, command: Option<Command>)
        ensures
            final(self).to_run() == (match command {
                Some(c) => Some(c@),
                None => None::<CommandView>,
            }),
            final(self).list() == old(self).list(),
            final(self).cache() == old(self).cache(),
            final(self).shown() == old(self).shown(),
            final(self).selection() == old(self).selection(),
            final(self).well_formed() == old(self).well_formed(),
    {
        self.to_be_executed = command;
    }

    /// The command to run once the interface closes.
    pub fn command_to_be_executed(&self) -> (r: Option<Command>)
        ensures
            (match r {
                Some(c) => Some(c@),
                None => None::<CommandView>,
            }) == self.to_run(),
    {
        match &self.to_be_executed {
            Some(c) => Some(c.clone()),
            None => None,
        }
    }

    /// The position selected, 0 when nothing is.
    pub fn get_selected_command_idx(&self) -> (r: usize)
        ensures
            r == (match self.selection() {
                Some(i) => i,
                None => 0usize,
            }),
    {
        match self.state.selected() {
            Some(i) => i,
            None => 0,
        }
    }

    /// Selects the first position.
    pub fn reset_selected_command_idx(&mut self)
        ensures
            final(self).selection() == Some(0usize),
            final(self).list() == old(self).list(),
            final(self).cache() == old(self).cache(),
            final(self).shown() == old(self).shown(),
            final(self).to_run() == old(self).to_run(),
            final(self).well_formed() == old(self).well_formed(),
    {
        self.state.select(Some(0));
    }

    /// The commands shown.
    pub fn filtered_commands(&self) -> (r: Vec<Command>)
        ensures
            views(r@) == self.shown(),
    {
        crate::commands::clone_commands(&self.filtered_commands)
    }

    /// The commands of a named namespace taken from the stored list, ordered
    /// by lowercased alias.
    fn searched_namespace(&self, current_namespace: &str) -> (r: Vec<Command>)
        ensures
            views(r@) == sorted_by_alias(keep_where(self.list(), of_namespace(current_namespace@))),
    {
        sort_by_alias(namespace_commands(self.commands.command_list(), current_namespace))
    }

    /// The commands to show for a namespace and a query. For a namespace
    /// other than `""` and `"All"` they are its cached commands, or, when the
    /// cache has none, its commands searched in the stored list, which the
    /// cache then keeps; for the others, every stored command (the demo
    /// command when none is stored). A query, when there is one, keeps and
    /// orders them by fuzzy score.
    pub fn filter(&mut self, current_namespace: &str, query_string: &str) -> (r: Vec<Command>)
        requires
            old(self).well_formed(),
        ensures
            views(r@) == filter_view(old(self).list(), old(self).cache(), current_namespace@, query_string@),
            final(self).cache() == filtered_cache(old(self).list(), old(self).cache(), current_namespace@),
            final(self).list() == old(self).list(),
            final(self).shown() == old(self).shown(),
            final(self).selection() == old(self).selection(),
            final(self).to_run() == old(self).to_run(),
            final(self).well_formed(),
    {
        proof {
            lemma_filtered_cache_ordered(self.list(), self.cache(), current_namespace@);
        }
        let commands = if !current_namespace.is_empty() && !str_eq(current_namespace, "All") {
            let cached_commands = self.commands_cache.get_entry(current_namespace);
            if cached_commands.len() > 0 {
                cached_commands
            } else {
                let found = self.searched_namespace(current_namespace);
                let kept = crate::commands::clone_commands(&found);
                self.commands_cache.set_entry(own(current_namespace), kept);
                found
            }
        } else {
            let list = crate::commands::clone_commands(self.commands.command_list());
            if list.len() == 0 {
                let mut v: Vec<Command> = Vec::new();
                v.push(Command::default());
                assert(views(v@) =~= seq![default_command()]);
                v
            } else {
                list
            }
        };
        if commands.len() != 0 && !query_string.is_empty() {
            fuzzy_find(current_namespace, query_string, commands)
        } else {
            commands
        }
    }

    /// Shows the commands for a namespace and a query, as `filter` gives
    /// them and with the cache as `filter` leaves it; a selection past their
    /// end goes back to the first.
    pub fn filter_commands(&mut self, current_namespace: &str, query_string: &str)
        requires
            old(self).well_formed(),
        ensures
            final(self).shown() == filter_view(old(self).list(), old(self).cache(), current_namespace@, query_string@),
            final(self).selection() == (if (match old(self).selection() {
                Some(i) => i as int,
                None => 0,
            }) >= final(self).shown().len() {
                Some(0usize)
            } else {
                old(self).selection()
            }),
            final(self).list() == old(self).list(),
            final(self).cache() == filtered_cache(old(self).list(), old(self).cache(), current_namespace@),
            final(self).to_run() == old(self).to_run(),
            final(self).well_formed(),
    {
        let commands = self.filter(current_namespace, query_string);
        if self.get_selected_command_idx() >= commands.len() {
            self.reset_selected_command_idx();
        }
        self.filtered_commands = commands;
    }

    /// Adds a valid new command; gives the list to write.
    pub fn add_command(&mut self, new_command: &Command) -> (r: Result<Vec<Command>, ChangeError>)
        requires
            old(self).well_formed(),
        ensures
            final(self).well_formed(),
            crate::command::validation(new_command@) matches Err(e) ==> (r matches Err(ChangeError::Invalid(x)) && x == e
                && final(self).list() == old(self).list() && final(self).cache() == old(self).cache()),
            crate::command::validation(new_command@) is Ok && crate::commands::has_key(old(self).list(), new_command@)
                ==> (r matches Err(ChangeError::Refused(CommandsError::AlreadyExists { alias: a, namespace: n }))
                && a@ == new_command.alias@ && n@ == new_command.namespace@
                && final(self).list() == old(self).list() && final(self).cache() == old(self).cache()),
            crate::command::validation(new_command@) is Ok && !crate::commands::has_key(old(self).list(), new_command@)
                ==> (r matches Ok(v) && views(v@) == old(self).list().push(new_command@)
                && final(self).list() == old(self).list().push(new_command@)
                && final(self).cache() == sort_all(with_entry(old(self).cache(), new_command@))
                && final(self).cache() == old(self).cache().insert(
                    new_command@.namespace,
                    sorted_by_alias(cached(old(self).cache(), new_command@.namespace).push(new_command@)),
                )),
            final(self).shown() == old(self).shown(),
            final(self).selection() == old(self).selection(),
            final(self).to_run() == old(self).to_run(),
    {
        match new_command.validate() {
            Ok(()) => {},
            Err(e) => {
                return Err(ChangeError::Invalid(e));
            },
        }
        let commands = match self.commands.add_command(new_command) {
            Ok(c) => c,
            Err(e) => {
                return Err(ChangeError::Refused(e));
            },
        };
        self.commands_cache.insert_entry(new_command.clone());
        Ok(commands)
    }

    /// Replaces a command by its edited form; gives the list to write.
    pub fn add_edited_command(&mut self, edited_command: &Command, current_command: &Command) -> (r: Result<Vec<Command>, ChangeError>)
        requires
            old(self).well_formed(),
        ensures
            final(self).well_formed(),
            crate::command::validation(edited_command@) matches Err(e) ==> (r matches Err(ChangeError::Invalid(x)) && x == e
                && final(self).list() == old(self).list() && final(self).cache() == old(self).cache()),
            crate::command::validation(edited_command@) is Ok && crate::commands::edit_conflicts(old(self).list(), edited_command@, current_command@)
                ==> (r matches Err(ChangeError::Refused(CommandsError::AlreadyExists { alias: a, namespace: n }))
                && a@ == edited_command.alias@ && n@ == edited_command.namespace@
                && final(self).list() == old(self).list() && final(self).cache() == old(self).cache()),
            crate::command::validation(edited_command@) is Ok && !crate::commands::edit_conflicts(old(self).list(), edited_command@, current_command@)
                ==> (r matches Ok(v) && views(v@) == final(self).list()
                && final(self).list() == crate::commands::without_key(old(self).list(), current_command@).push(edited_command@)
                && final(self).cache() == sort_all(without_entry(with_entry(old(self).cache(), edited_command@), current_command@))),
            final(self).shown() == old(self).shown(),
            final(self).selection() == old(self).selection(),
            final(self).to_run() == old(self).to_run(),
    {
        match edited_command.validate() {
            Ok(()) => {},
            Err(e) => {
                return Err(ChangeError::Invalid(e));
            },
        }
        let commands = match self.commands.add_edited_command(edited_command, current_command) {
            Ok(c) => c,
            Err(e) => {
                return Err(ChangeError::Refused(e));
            },
        };
        self.commands_cache.update_entry(edited_command, current_command);
        Ok(commands)
    }

    /// Removes a command; gives the list to write.
    pub fn remove_command(&mut self, command: &Command) -> (r: Result<Vec<Command>, ChangeError>)
        requires
            old(self).well_formed(),
        ensures
            final(self).well_formed(),
            r matches Ok(v) && views(v@) == final(self).list(),
            final(self).list() == crate::commands::without_key(old(self).list(), command@),
            final(self).cache() == without_entry(old(self).cache(), command@),
            final(self).shown() == old(self).shown(),
            final(self).selection() == old(self).selection(),
            final(self).to_run() == old(self).to_run(),
    {
        let commands = match self.commands.remove(command) {
            Ok(c) => c,
            Err(e) => {
                return Err(ChangeError::Refused(e));
            },
        };
        self.commands_cache.remove_entry(command);
        Ok(commands)
    }
}

impl Selectable for CommandsContext {
    /// Some command is shown.
    open spec fn has_items(&self) -> bool {
        self.shown().len() > 0
    }

    /// Selects the next command shown, the first after the last.
    fn next(&mut self)
        ensures
            final(self).selection() == Some(wrap_next(
                (match old(self).selection() {
                    Some(i) => i as int,
                    None => 0,
                }),
                old(self).shown().len() as int,
            ) as usize),
            final(self).list() == old(self).list(),
            final(self).cache() == old(self).cache(),
            final(self).shown() == old(self).shown(),
            final(self).to_run() == old(self).to_run(),
            final(self).well_formed() == old(self).well_formed(),
    {
        let i = self.get_selected_command_idx();
        let n = self.filtered_commands.len();
        let next = if i < n { (i + 1) % n } else { (i % n + 1) % n };
        proof {
            if i >= n {
                if n > 1 {
                    vstd::arithmetic::div_mod::lemma_add_mod_noop(i as int, 1, n as int);
                    vstd::arithmetic::div_mod::lemma_small_mod(1, n as nat);
                } else {
                    vstd::arithmetic::div_mod::lemma_mod_bound((i % n) as int + 1, 1);
                    vstd::arithmetic::div_mod::lemma_mod_bound(i as int + 1, 1);
                }
            }
        }
        self.state.select(Some(next));
    }

    /// Selects the previous command shown, the last before the first.
    fn previous(&mut self)
        ensures
            final(self).selection() == Some(wrap_previous(
                (match old(self).selection() {
                    Some(i) => i as int,
                    None => 0,
                }),
                old(self).shown().len() as int,
            ) as usize),
            final(self).list() == old(self).list(),
            final(self).cache() == old(self).cache(),
            final(self).shown() == old(self).shown(),
            final(self).to_run() == old(self).to_run(),
            final(self).well_formed() == old(self).well_formed(),
    {
        let i = self.get_selected_command_idx();
        let previous = previous_position(i, self.filtered_commands.len());
        self.state.select(Some(previous));
    }
}

} // verus!
