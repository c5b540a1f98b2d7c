//! The text that fuzzy searches look commands up by.
use vstd::prelude::*;
use crate::command::{description_text, tags_text, Command};
use crate::text::{concat, join, join_strs, split_whitespace_str, str_eq, strs, words};

verus! {

/// The words of `ws` without repetitions, each kept where it first appears.
pub open spec fn unique_words(ws: Seq<Seq<char>>) -> Seq<Seq<char>>
    decreases ws.len(),
{
    if ws.len() == 0 {
        ws
    } else {
        let u = unique_words(ws.drop_last());
        if u.contains(ws.last()) {
            u
        } else {
            u.push(ws.last())
        }
    }
}

/// `unique_words` keeps exactly the words of its input, each once.
pub proof fn lemma_unique_words(ws: Seq<Seq<char>>)
    ensures
        forall|w: Seq<char>| unique_words(ws).contains(w) <==> ws.contains(w),
        unique_words(ws).no_duplicates(),
    decreases ws.len(),
{
    if ws.len() > 0 {
        let d = ws.drop_last();
        lemma_unique_words(d);
        let u = unique_words(d);
        assert forall|w: Seq<char>| unique_words(ws).contains(w) <==> ws.contains(w) by {
            let l = ws.last();
            assert(ws[ws.len() - 1] == l);
            assert(ws.contains(w) <==> (d.contains(w) || w == l)) by {
                if ws.contains(w) && w != l {
                    let i = choose|i: int| 0 <= i < ws.len() && ws[i] == w;
                    assert(d[i] == w);
                }
                if d.contains(w) {
                    let i = choose|i: int| 0 <= i < d.len() && d[i] == w;
                    assert(ws[i] == w);
                }
            }
            if !u.contains(l) {
                assert(u.push(l).contains(w) <==> (u.contains(w) || w == l)) by {
                    if u.push(l).contains(w) && w != l {
                        let i = choose|i: int| 0 <= i < u.len() + 1 && u.push(l)[i] == w;
                        assert(u[i] == w);
                    }
                    if u.contains(w) {
                        let i = choose|i: int| 0 <= i < u.len() && u[i] == w;
                        assert(u.push(l)[i] == w);
                    }
                    if w == l {
                        assert(u.push(l)[u.len() as int] == w);
                    }
                }
            }
        }
        if !u.contains(ws.last()) {
            assert(u.push(ws.last()).no_duplicates()) by {
                assert forall|i: int, j: int|
                    0 <= i < u.len() + 1 && 0 <= j < u.len() + 1 && i != j implies u.push(
                    ws.last(),
                )[i] != u.push(ws.last())[j] by {
                    if i < u.len() && j < u.len() {
                    } else if i < u.len() {
                        assert(u[i] == u.push(ws.last())[i]);
                    } else {
                        assert(u[j] == u.push(ws.last())[j]);
                    }
                }
            }
        }
    }
}

/// The words of `input` without repetitions, separated by single spaces.
pub open spec fn deduplicated(input: Seq<char>) -> Seq<char> {
    join(unique_words(words(input)), " "@)
}

/// The words of `input` without repetitions, each kept where it first
/// appears, separated by single spaces.
pub fn filter_duplicates_text(input: &str) -> (r: String)
    ensures
        r@ == deduplicated(input@),
{
    let ws = split_whitespace_str(input);
    let mut unique: Vec<String> = Vec::new();
    let mut i: usize = 0;
    while i < ws.len()
        invariant
            i <= ws.len(),
            strs(unique@) == unique_words(strs(ws@).take(i as int)),
        decreases ws.len() - i,
    {
        let ghost t = strs(ws@).take(i + 1);
        assert(strs(ws@).len() == ws@.len());
        assert(t.drop_last() == strs(ws@).take(i as int));
        assert(t.last() == ws@[i as int]@);
        let mut found = false;
        let mut k: usize = 0;
        while k < unique.len()
            invariant
                k <= unique.len(),
                i < ws.len(),
                found <==> exists|m: int| 0 <= m < k && unique@[m]@ == ws@[i as int]@,
            decreases unique.len() - k,
        {
            if str_eq(unique[k].as_str(), ws[i].as_str()) {
                found = true;
            }
            k = k + 1;
        }
        let ghost u = strs(unique@);
        assert(u.len() == unique@.len());
        assert(found <==> u.contains(t.last())) by {
            if found {
                let m = choose|m: int| 0 <= m < unique.len() && unique@[m]@ == ws@[i as int]@;
                assert(u[m] == t.last());
            }
            if u.contains(t.last()) {
                let m = choose|m: int| 0 <= m < u.len() && u[m] == t.last();
                assert(unique@[m]@ == ws@[i as int]@);
            }
        }
        if !found {
            let ghost old_u = unique@;
            unique.push(ws[i].clone());
            assert(strs(unique@) =~= u.push(t.last())) by {
                assert forall|m: int| 0 <= m < old_u.len() implies unique@[m] == old_u[m] by {}
            }
        }
        i = i + 1;
    }
    assert(strs(ws@).take(ws.len() as int) =~= strs(ws@));
    join_strs(&unique, " ")
}

/// Values that a fuzzy search can look up by a text.
pub trait Fuzzy {
    /// The text the value is looked up by.
    spec fn lookup(&self) -> Seq<char>;

    /// The text the value is looked up by.
    fn lookup_string(&self) -> (r: String)
        ensures
            r@ == self.lookup(),
    ;

    /// The words of `input` without repetitions.
    fn filter_duplicates(&self, input: &str) -> (r: String)
        ensures
            r@ == deduplicated(input@),
    {
        filter_duplicates_text(input)
    }
}

/// The alias, namespace, command, description and tags of a command,
/// separated by spaces, with repeated words kept once.
pub open spec fn command_lookup(c: crate::command::CommandView) -> Seq<char> {
    deduplicated(
        c.alias + " "@ + c.namespace + " "@ + c.command + " "@ + description_text(c) + " "@
            + tags_text(c),
    )
}

impl Fuzzy for Command {
    open spec fn lookup(&self) -> Seq<char> {
        command_lookup(self@)
    }

    fn lookup_string(&self) -> (r: String) {
        let description = self.description();
        let tags = self.tags_as_string();
        let a = concat(self.alias.as_str(), " ");
        let b = concat(a.as_str(), self.namespace.as_str());
        let c = concat(b.as_str(), " ");
        let d = concat(c.as_str(), self.command.as_str());
        let e = concat(d.as_str(), " ");
        let f = concat(e.as_str(), description.as_str());
        let g = concat(f.as_str(), " ");
        let h = concat(g.as_str(), tags.as_str());
        self.filter_duplicates(h.as_str())
    }
}

} // verus!
