//! The scanning session: a root directory, the attributes to extract, the
//! default marker, and the cached state of the last discovery or extraction.

use vstd::prelude::*;
use std::path::PathBuf;
use crate::discover::{select_files, visible_files, WalkEntry};
use crate::tags::{derivable, is_tag_map, TagMap, TagValue};
use crate::text::views;

verus! {

#[verifier::external_type_specification]
#[verifier::external_body]
pub struct ExPathBuf(PathBuf);

/// What is known of one discovered path.
pub enum Outcome {
    /// No extraction has been attempted yet.
    Unscanned,
    /// The file did not open as a DICOM object.
    Unparseable,
    /// The tag map of the file, one entry per requested attribute.
    Extracted(Vec<TagValue>),
}

/// One path of the scan state with what is known of it.
pub struct ScanEntry {
    pub path: String,
    pub outcome: Outcome,
}

/// The scan state: each discovered path once, with what is known of it.
pub type ScanState = Vec<ScanEntry>;

/// A scanning session.
pub struct Scanner {
    root_path: String,
    load_tags: Vec<String>,
    tag_val_default: String,
    /// The scan state: `None` until the first discovery.
    pub data: Option<ScanState>,
}

/// The paths of a scan state, in order.
pub open spec fn keys(d: Seq<ScanEntry>) -> Seq<Seq<char>> {
    d.map_values(|e: ScanEntry| e.path@)
}

/// Two tag maps hold the same names and values in the same order.
pub open spec fn same_map(a: Seq<TagValue>, b: Seq<TagValue>) -> bool {
    &&& a.len() == b.len()
    &&& forall|k: int|
        0 <= k < a.len() ==> (#[trigger] a[k]).name@ == b[k].name@ && a[k].value@ == b[k].value@
}

/// The state that a discovery over the walk `w` leaves: each visible file
/// once, none yet examined.
pub open spec fn discovered(d: Seq<ScanEntry>, w: Seq<WalkEntry>) -> bool {
    &&& keys(d).no_duplicates()
    &&& keys(d).to_set() == visible_files(w)
    &&& d.len() == visible_files(w).len()
    &&& forall|i: int| 0 <= i < d.len() ==> (#[trigger] d[i]).outcome is Unscanned
}

/// What the extraction of the files `ps` may hand back: one outcome per path,
/// in order, `None` for a file that did not open, otherwise its tag map.
pub open spec fn extraction_of(
    ps: Seq<String>,
    outs: Seq<Option<Vec<TagValue>>>,
    tags: Seq<String>,
    default: Seq<char>,
) -> bool {
    &&& outs.len() == ps.len()
    &&& forall|i: int|
        0 <= i < outs.len() && (#[trigger] outs[i]) is Some ==> is_tag_map(
            outs[i]->0@,
            tags,
            default,
        )
}

/// The state built from the paths `ps` and their extraction outcomes `outs`:
/// the paths in order, each with what its extraction gave.
pub open spec fn merged(d: Seq<ScanEntry>, ps: Seq<String>, outs: Seq<Option<Vec<TagValue>>>) -> bool {
    &&& d.len() == ps.len()
    &&& d.len() == outs.len()
    &&& forall|i: int|
        0 <= i < d.len() ==> {
            &&& (#[trigger] d[i]).path@ == ps[i]@
            &&& match d[i].outcome {
                Outcome::Extracted(m) => outs[i] is Some && same_map(m@, outs[i]->0@),
                Outcome::Unparseable => outs[i] is None,
                Outcome::Unscanned => false,
            }
        }
}

/// A listing step: the configuration kept, a state present afterwards, the
/// result its paths, and a state that was present before left as it was.
pub open spec fn listed(pre: Scanner, post: Scanner, r: Seq<Seq<char>>) -> bool {
    &&& post.spec_root_path() == pre.spec_root_path()
    &&& post.spec_load_tags() == pre.spec_load_tags()
    &&& post.spec_tag_val_default() == pre.spec_tag_val_default()
    &&& post.spec_data() is Some
    &&& r == keys(post.spec_data()->0@)
    &&& pre.spec_data() is Some ==> post.spec_data() == pre.spec_data()
}

/// The filesystem path that a string denotes.
pub uninterp spec fn path_buf_from(s: Seq<char>) -> PathBuf;

/// Relies on `PathBuf::from`: the path that the string denotes, which
/// depends on the string alone.
#[verifier::external_body]
fn path_buf_of(s: &String) -> (r: PathBuf)
    ensures
        r == path_buf_from(s@),
{
    PathBuf::from(s)
}

/// The paths of a scan state, in order.
fn paths_of(d: &Vec<ScanEntry>) -> (r: Vec<String>)
    ensures
        views(r@) == keys(d@),
{
    let mut r: Vec<String> = Vec::new();
    let mut i: usize = 0;
    while i < d.len()
        invariant
            i <= d.len(),
            views(r@) == keys(d@.subrange(0, i as int)),
        decreases d.len() - i,
    {
        let ghost prev = r@;
        r.push(d[i].path.clone());
        assert(views(r@) =~= views(prev).push(d@[i as int].path@));
        assert(keys(d@.subrange(0, i + 1)) =~= keys(d@.subrange(0, i as int)).push(d@[i as int].path@));
        i = i + 1;
    }
    assert(d@.subrange(0, d.len() as int) =~= d@);
    r
}

/// The state of freshly discovered paths, none yet examined.
fn unscanned_state(ps: &Vec<String>) -> (r: Vec<ScanEntry>)
    ensures
        keys(r@) == views(ps@),
        forall|i: int| 0 <= i < r.len() ==> (#[trigger] r@[i]).outcome is Unscanned,
{
    let mut r: Vec<ScanEntry> = Vec::new();
    let mut i: usize = 0;
    while i < ps.len()
        invariant
            i <= ps.len(),
            keys(r@) == views(ps@.subrange(0, i as int)),
            forall|k: int| 0 <= k < r.len() ==> (#[trigger] r@[k]).outcome is Unscanned,
        decreases ps.len() - i,
    {
        let ghost prev = r@;
        r.push(ScanEntry { path: ps[i].clone(), outcome: Outcome::Unscanned });
        assert(keys(r@) =~= keys(prev).push(ps@[i as int]@));
        assert(views(ps@.subrange(0, i + 1)) =~= views(ps@.subrange(0, i as int)).push(ps@[i as int]@));
        i = i + 1;
    }
    assert(ps@.subrange(0, ps.len() as int) =~= ps@);
    r
}

/// A copy of a tag map.
fn copy_map(m: &Vec<TagValue>) -> (r: Vec<TagValue>)
    ensures
        same_map(r@, m@),
{
    let mut r: Vec<TagValue> = Vec::new();
    let mut k: usize = 0;
    while k < m.len()
        invariant
            k <= m.len(),
            r.len() == k,
            forall|j: int|
                0 <= j < k ==> (#[trigger] r@[j]).name@ == m@[j].name@ && r@[j].value@
                    == m@[j].value@,
        decreases m.len() - k,
    {
        r.push(TagValue { name: m[k].name.clone(), value: m[k].value.clone() });
        k = k + 1;
    }
    r
}

/// The state built from the paths `ps` and their extraction outcomes `outs`.
pub fn merge_outcomes(ps: &Vec<String>, outs: &Vec<Option<TagMap>>) -> (r: ScanState)
    requires
        outs.len() == ps.len(),
    ensures
        merged(r@, ps@, outs@),
{
    let mut r: Vec<ScanEntry> = Vec::new();
    let mut i: usize = 0;
    while i < ps.len()
        invariant
            i <= ps.len(),
            outs.len() == ps.len(),
            r.len() == i,
            forall|k: int|
                0 <= k < i ==> {
                    &&& (#[trigger] r@[k]).path@ == ps@[k]@
                    &&& match r@[k].outcome {
                        Outcome::Extracted(m) => outs@[k] is Some && same_map(m@, outs@[k]->0@),
                        Outcome::Unparseable => outs@[k] is None,
                        Outcome::Unscanned => false,
                    }
                },
        decreases ps.len() - i,
    {
        let outcome = match &outs[i] {
            Some(m) => Outcome::Extracted(copy_map(m)),
            None => Outcome::Unparseable,
        };
        r.push(ScanEntry { path: ps[i].clone(), outcome });
        i = i + 1;
    }
    r
}

impl Scanner {
    /// A session over `root_path` that extracts `load_tags`, with
    /// `tag_val_default` for attributes that cannot be resolved; nothing is
    /// discovered yet.
    pub fn new(root_path: String, load_tags: Vec<String>, tag_val_default: String) -> (r: Scanner)
        ensures
            r.spec_root_path() == root_path,
            r.spec_load_tags() == load_tags,
            r.spec_tag_val_default() == tag_val_default,
            r.spec_data() is None,
    {
        Scanner { root_path, load_tags, tag_val_default, data: None }
    }

    /// The root directory.
    pub closed spec fn spec_root_path(&self) -> String {
        self.root_path
    }

    /// The scan state.
    pub closed spec fn spec_data(&self) -> Option<ScanState> {
        self.data
    }

    /// The names of the attributes to extract.
    pub closed spec fn spec_load_tags(&self) -> Vec<String> {
        self.load_tags
    }

    /// The marker for attributes that cannot be resolved.
    pub closed spec fn spec_tag_val_default(&self) -> String {
        self.tag_val_default
    }

    /// The root directory.
    pub fn get_root_path(&self) -> (r: &String)
        ensures
            *r == self.spec_root_path(),
    {
        &self.root_path
    }

    /// The root directory as a filesystem path.
    pub fn get_root_path_as_pathbuf(&self) -> (r: PathBuf)
        ensures
            r == path_buf_from(self.spec_root_path()@),
    {
        path_buf_of(&self.root_path)
    }

    /// The names of the attributes to extract.
    pub fn get_load_tags(&self) -> (r: &Vec<String>)
        ensures
            *r == self.spec_load_tags(),
    {
        &self.load_tags
    }

    /// The marker stored for an attribute that cannot be resolved.
    pub fn get_tag_val_default(&self) -> (r: &String)
        ensures
            *r == self.spec_tag_val_default(),
    {
        &self.tag_val_default
    }

    /// The current scan state.
    pub fn data(&mut self) -> (r: &Option<ScanState>)
        ensures
            *r == old(self).spec_data(),
            *final(self) == *old(self),
    {
        &self.data
    }

    /// The discovered paths. When nothing has been discovered yet, `discover`
    /// walks the tree and its visible files become the state, none yet
    /// examined; otherwise the cached state is listed as it is.
    pub fn paths<D: FnOnce() -> Vec<WalkEntry>>(&mut self, discover: D) -> (r: Vec<String>)
        requires
            discover.requires(()),
        ensures
            listed(*old(self), *final(self), views(r@)),
            old(self).spec_data() is None ==> exists|w: Vec<WalkEntry>|
                discover.ensures((), w) && discovered(final(self).spec_data()->0@, w@),
    {
        if self.data.is_none() {
            let found = discover();
            let ps = select_files(&found);
            let state = unscanned_state(&ps);
            assert(keys(state@).len() == state@.len() && views(ps@).len() == ps@.len());
            self.data = Some(state);
            assert(discover.ensures((), found) && discovered(self.data->0@, found@));
        }
        match &self.data {
            Some(d) => paths_of(d),
            None => Vec::new(),
        }
    }

    /// A fresh extraction: `discover` walks the tree anew, `extract_all`
    /// opens each visible file and extracts its tag map, and the result
    /// replaces whatever state was cached before.
    pub fn read_files<D, X>(&mut self, discover: D, extract_all: X) -> (r: &Option<ScanState>)
        where
            D: FnOnce() -> Vec<WalkEntry>,
            X: FnOnce(&Vec<String>) -> Vec<Option<TagMap>>,
        requires
            discover.requires(()),
            forall|ps: &Vec<String>| #[trigger] extract_all.requires((ps,)),
            forall|ps: &Vec<String>, outs: Vec<Option<TagMap>>|
                #[trigger] extract_all.ensures((ps,), outs) ==> extraction_of(
                    ps@,
                    outs@,
                    old(self).spec_load_tags()@,
                    old(self).spec_tag_val_default()@,
                ),
        ensures
            final(self).spec_root_path() == old(self).spec_root_path(),
            final(self).spec_load_tags() == old(self).spec_load_tags(),
            final(self).spec_tag_val_default() == old(self).spec_tag_val_default(),
            *r == final(self).spec_data(),
            final(self).spec_data() is Some,
            exists|w: Vec<WalkEntry>, ps: Vec<String>, outs: Vec<Option<TagMap>>|
                {
                    &&& discover.ensures((), w)
                    &&& views(ps@).no_duplicates()
                    &&& views(ps@).to_set() == visible_files(w@)
                    &&& extract_all.ensures((&ps,), outs)
                    &&& extraction_of(
                        ps@,
                        outs@,
                        old(self).spec_load_tags()@,
                        old(self).spec_tag_val_default()@,
                    )
                    &&& merged(final(self).spec_data()->0@, ps@, outs@)
                },
    {
        let found = discover();
        let ps = select_files(&found);
        let outs = extract_all(&ps);
        let state = merge_outcomes(&ps, &outs);
        self.data = Some(state);
        assert(discover.ensures((), found) && extract_all.ensures((&ps,), outs));
        assert(merged(self.data->0@, ps@, outs@));
        &self.data
    }
}

/// Listing twice with no extraction in between returns the same paths and
/// leaves the state as the first listing left it.
pub proof fn lemma_listing_idempotent(
    s0: Scanner,
    s1: Scanner,
    s2: Scanner,
    r1: Seq<Seq<char>>,
    r2: Seq<Seq<char>>,
)
    requires
        listed(s0, s1, r1),
        listed(s1, s2, r2),
    ensures
        s2.spec_data() == s1.spec_data(),
        r2 == r1,
{
}

/// After an extraction of the paths `ps`, the state has exactly one entry
/// per path; an entry holds a tag map, with one value per requested
/// attribute, exactly where its file opened, and is marked unparseable
/// everywhere else.
pub proof fn lemma_extraction_shape(
    d: Seq<ScanEntry>,
    ps: Seq<String>,
    outs: Seq<Option<Vec<TagValue>>>,
    tags: Seq<String>,
    default: Seq<char>,
)
    requires
        extraction_of(ps, outs, tags, default),
        merged(d, ps, outs),
    ensures
        d.len() == ps.len(),
        keys(d) == views(ps),
        forall|i: int|
            0 <= i < d.len() ==> ((#[trigger] d[i]).outcome is Extracted <==> outs[i] is Some),
        forall|i: int|
            0 <= i < d.len() ==> ((#[trigger] d[i]).outcome is Unparseable <==> outs[i] is None),
        forall|i: int|
            0 <= i < d.len() && (#[trigger] d[i]).outcome is Extracted ==> is_tag_map(
                d[i].outcome->Extracted_0@,
                tags,
                default,
            ),
{
    assert(keys(d) =~= views(ps));
    assert forall|i: int|
        0 <= i < d.len() && (#[trigger] d[i]).outcome is Extracted implies is_tag_map(
            d[i].outcome->Extracted_0@,
            tags,
            default,
        ) by {
        let m = d[i].outcome->Extracted_0@;
        let o = outs[i]->0@;
        assert(is_tag_map(o, tags, default));
        assert forall|k: int| 0 <= k < m.len() implies derivable((#[trigger] m[k]).value@, default) by {
            assert(derivable(o[k].value@, default));
        }
    }
}

/// An extraction forgets what the state held before: a path that the fresh
/// walk does not reach as a visible file (a file deleted since the last
/// scan) has no entry afterwards.
pub proof fn lemma_rescan_drops_missing(
    d: Seq<ScanEntry>,
    w: Seq<WalkEntry>,
    ps: Seq<String>,
    outs: Seq<Option<Vec<TagValue>>>,
    p: Seq<char>,
)
    requires
        views(ps).to_set() == visible_files(w),
        merged(d, ps, outs),
        !visible_files(w).contains(p),
    ensures
        !keys(d).contains(p),
{
    assert(keys(d) =~= views(ps));
    if keys(d).contains(p) {
        assert(views(ps).to_set().contains(p));
    }
}

} // verus!
