//! Selection of the files that a recursive walk of a directory tree yields,
//! leaving out every hidden entry and everything below a hidden directory.

use vstd::prelude::*;
use vstd::hash_set::StringHashSet;
use crate::text::views;

verus! {

/// One entry that a walk of a tree reached.
pub struct WalkEntry {
    /// The entry's path as the walk reports it.
    pub path: String,
    /// The names of the entries from the root down to this one: the root's
    /// name first, this entry's own name last.
    pub names: Vec<String>,
    /// Whether the entry is something other than a directory.
    pub is_file: bool,
}

/// A name that follows the hidden-file convention: it starts with a dot.
pub open spec fn hidden(name: Seq<char>) -> bool {
    name.len() > 0 && name[0] == '.'
}

/// No name on the way from the root to the entry is hidden.
pub open spec fn unhidden(names: Seq<String>) -> bool {
    forall|k: int| 0 <= k < names.len() ==> !hidden(#[trigger] names[k]@)
}

/// A file that lies under no hidden entry and is not hidden itself.
pub open spec fn visible(e: WalkEntry) -> bool {
    e.is_file && unhidden(e.names@)
}

/// The paths of the visible files among `es`.
pub open spec fn visible_files(es: Seq<WalkEntry>) -> Set<Seq<char>> {
    Set::new(|p: Seq<char>| exists|i: int| 0 <= i < es.len() && visible(es[i]) && es[i].path@ == p)
}

/// Whether the entry name `name` is hidden.
pub fn is_hidden(name: &str) -> (r: bool)
    ensures
        r == hidden(name@),
{
    name.unicode_len() > 0 && name.get_char(0) == '.'
}

/// Whether none of `names` is hidden.
fn none_hidden(names: &Vec<String>) -> (r: bool)
    ensures
        r == unhidden(names@),
{
    let mut k: usize = 0;
    while k < names.len()
        invariant
            k <= names.len(),
            forall|j: int| 0 <= j < k ==> !hidden(#[trigger] names@[j]@),
        decreases names.len() - k,
    {
        if is_hidden(names[k].as_str()) {
            return false;
        }
        k = k + 1;
    }
    true
}

/// The paths of the visible files among `entries`, each once.
pub fn select_files(entries: &Vec<WalkEntry>) -> (r: Vec<String>)
    ensures
        views(r@).no_duplicates(),
        views(r@).to_set() == visible_files(entries@),
        r.len() == visible_files(entries@).len(),
{
    let mut out: Vec<String> = Vec::new();
    let mut seen = StringHashSet::new();
    let mut i: usize = 0;
    while i < entries.len()
        invariant
            i <= entries.len(),
            views(out@).no_duplicates(),
            seen@ == views(out@).to_set(),
            forall|p: Seq<char>|
                #![trigger views(out@).contains(p)]
                views(out@).contains(p) <==> exists|j: int|
                    0 <= j < i && visible(entries@[j]) && entries@[j].path@ == p,
        decreases entries.len() - i,
    {
        let e = &entries[i];
        let ghost before = views(out@);
        if e.is_file && none_hidden(&e.names) && !seen.contains(e.path.as_str()) {
            out.push(e.path.clone());
            seen.insert(e.path.clone());
            assert(views(out@) =~= before.push(e.path@));
        }
        assert forall|p: Seq<char>|
            #![trigger views(out@).contains(p)]
            views(out@).contains(p) <==> exists|j: int|
                0 <= j < i + 1 && visible(entries@[j]) && entries@[j].path@ == p by {
            if views(out@).contains(p) {
                if before.contains(p) {
                    let j = choose|j: int|
                        0 <= j < i && visible(entries@[j]) && entries@[j].path@ == p;
                    assert(0 <= j < i + 1);
                } else {
                    assert(visible(entries@[i as int]) && entries@[i as int].path@ == p);
                }
            }
            if exists|j: int| 0 <= j < i + 1 && visible(entries@[j]) && entries@[j].path@ == p {
                let j = choose|j: int|
                    0 <= j < i + 1 && visible(entries@[j]) && entries@[j].path@ == p;
                if j < i {
                    assert(before.contains(p));
                    let x = choose|x: int| 0 <= x < before.len() && before[x] == p;
                    assert(views(out@)[x] == p);
                } else if before.contains(p) {
                    let x = choose|x: int| 0 <= x < before.len() && before[x] == p;
                    assert(views(out@)[x] == p);
                } else {
                    assert(views(out@).last() == p);
                }
            }
        }
        i = i + 1;
    }
    assert(views(out@).to_set() =~= visible_files(entries@));
    proof {
        views(out@).unique_seq_to_set();
    }
    out
}

/// Every entry that lies under a hidden name (a hidden directory, or a hidden
/// file itself) contributes no path, given that, as in any tree, no two
/// entries share a path.
pub proof fn lemma_hidden_contributes_nothing(es: Seq<WalkEntry>, i: int, k: int)
    requires
        forall|a: int, b: int|
            0 <= a < es.len() && 0 <= b < es.len() && a != b ==> es[a].path@ != es[b].path@,
        0 <= i < es.len(),
        0 <= k < es[i].names.len(),
        hidden(es[i].names@[k]@),
    ensures
        !visible_files(es).contains(es[i].path@),
{
    if visible_files(es).contains(es[i].path@) {
        let j = choose|j: int| 0 <= j < es.len() && visible(es[j]) && es[j].path@ == es[i].path@;
        assert(!hidden(es[j].names@[k]@));
    }
}

} // verus!
