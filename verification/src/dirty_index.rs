//! The paths that hold local changes, which remote changes must not overwrite.
use vstd::prelude::*;

use crate::paths::{components, same_path, within, FsPath};

verus! {

/// Says which paths remote changes must not overwrite.
pub trait PathProtection {
    /// Whether the path is protected.
    spec fn protects(&self, path: Seq<u8>) -> bool;

    /// Whether the path must not be overwritten by a remote change.
    fn is_protected(&self, path: &FsPath) -> (r: bool)
        ensures
            r == self.protects(path@),
    ;
}

/// A set of paths with local changes, in the order in which they came in.
#[derive(Debug)]
pub struct DirtyIndex {
    paths: Vec<FsPath>,
}

/// The bytes of each path of a list.
pub open spec fn path_bytes(list: Seq<FsPath>) -> Seq<Seq<u8>> {
    list.map_values(|p: FsPath| p@)
}

/// Whether one of the paths is the given one.
pub open spec fn holds_path(s: Seq<Seq<u8>>, path: Seq<u8>) -> bool {
    exists|i: int| 0 <= i < s.len() && same_path(#[trigger] s[i], path)
}

/// Whether the given path is one of the paths or lies below one.
pub open spec fn covers_path(s: Seq<Seq<u8>>, path: Seq<u8>) -> bool {
    exists|i: int| 0 <= i < s.len() && within(path, #[trigger] s[i])
}

/// Whether no path occurs twice.
pub open spec fn distinct_paths(s: Seq<Seq<u8>>) -> bool {
    forall|i: int, j: int| 0 <= i < j < s.len() ==> !same_path(#[trigger] s[i], #[trigger] s[j])
}

/// The paths with one more, unless it is there.
pub open spec fn with_path(s: Seq<Seq<u8>>, path: Seq<u8>) -> Seq<Seq<u8>> {
    if holds_path(s, path) {
        s
    } else {
        s.push(path)
    }
}

/// The paths with those of a list, each added in turn.
pub open spec fn with_paths(s: Seq<Seq<u8>>, list: Seq<Seq<u8>>) -> Seq<Seq<u8>>
    decreases list.len(),
{
    if list.len() == 0 {
        s
    } else {
        with_path(with_paths(s, list.drop_last()), list.last())
    }
}

/// The paths that are not the given one.
pub open spec fn without_path(s: Seq<Seq<u8>>, path: Seq<u8>) -> Seq<Seq<u8>>
    decreases s.len(),
{
    if s.len() == 0 {
        Seq::empty()
    } else {
        let before = without_path(s.drop_last(), path);
        if same_path(s.last(), path) {
            before
        } else {
            before.push(s.last())
        }
    }
}

impl View for DirtyIndex {
    type V = Seq<Seq<u8>>;

    closed spec fn view(&self) -> Seq<Seq<u8>> {
        path_bytes(self.paths@)
    }
}

impl DirtyIndex {
    /// No path occurs twice.
    pub open spec fn wf(&self) -> bool {
        distinct_paths(self@)
    }

    /// The paths themselves.
    pub closed spec fn items(&self) -> Seq<FsPath> {
        self.paths@
    }

    /// An index without paths.
    pub fn new() -> (r: DirtyIndex)
        ensures
            r.wf(),
            r@ == Seq::<Seq<u8>>::empty(),
    {
        let r = DirtyIndex { paths: Vec::new() };
        assert(r@ =~= Seq::<Seq<u8>>::empty());
        r
    }

    /// Marks a path as dirty.
    pub fn mark_dirty(&mut self, path: FsPath)
        requires
            old(self).wf(),
        ensures
            final(self).wf(),
            final(self)@ == with_path(old(self)@, path@),
    {
        if !self.holds(&path) {
            self.paths.push(path);
            assert(self@ =~= old(self)@.push(path@));
        }
    }

    /// Marks a path as clean.
    pub fn mark_clean(&mut self, path: &FsPath)
        requires
            old(self).wf(),
        ensures
            final(self).wf(),
            final(self)@ == without_path(old(self)@, path@),
    {
        let ghost all = self@;
        let mut i: usize = 0;
        proof {
            assert(all.take(0) =~= Seq::<Seq<u8>>::empty());
        }
        while i < self.paths.len()
            invariant
                i <= self.paths@.len() == all.len(),
                all == self@,
                *self == *old(self),
                old(self).wf(),
                all == old(self)@,
                forall|j: int| 0 <= j < i ==> !same_path(#[trigger] all[j], path@),
            decreases self.paths@.len() - i,
        {
            assert(all[i as int] == self.paths@[i as int]@);
            if self.paths[i].same(path) {
                let gone = self.paths.remove(i);
                assert(self@ =~= all.remove(i as int));
                proof {
                    lemma_without_one(all, path@, i as int);
                    assert(all.remove(i as int) =~= without_path(all, path@));
                    assert forall|a: int, b: int| 0 <= a < b < self@.len() implies !same_path(
                        #[trigger] self@[a],
                        #[trigger] self@[b],
                    ) by {
                        let x = if a < i {
                            a
                        } else {
                            a + 1
                        };
                        let y = if b < i {
                            b
                        } else {
                            b + 1
                        };
                        assert(self@[a] == all[x] && self@[b] == all[y]);
                    }
                }
                return;
            }
            i += 1;
        }
        proof {
            lemma_without_none(all, path@);
        }
    }

    /// The dirty paths.
    pub fn snapshot(&self) -> (r: Vec<FsPath>)
        ensures
            path_bytes(r@) == self@,
    {
        copy_paths(&self.paths)
    }

    /// Whether the path is dirty or lies within a dirty directory.
    pub fn is_protected(&self, path: &FsPath) -> (r: bool)
        ensures
            r == covers_path(self@, path@),
    {
        let mut i: usize = 0;
        while i < self.paths.len()
            invariant
                i <= self.paths@.len() == self@.len(),
                forall|j: int| 0 <= j < i ==> !within(path@, #[trigger] self@[j]),
            decreases self.paths@.len() - i,
        {
            assert(self@[i as int] == self.paths@[i as int]@);
            if path.starts_with(&self.paths[i]) {
                return true;
            }
            i += 1;
        }
        false
    }

    /// Whether the path itself is dirty.
    pub fn holds(&self, path: &FsPath) -> (r: bool)
        ensures
            r == holds_path(self@, path@),
    {
        let mut i: usize = 0;
        while i < self.paths.len()
            invariant
                i <= self.paths@.len() == self@.len(),
                forall|j: int| 0 <= j < i ==> !same_path(#[trigger] self@[j], path@),
            decreases self.paths@.len() - i,
        {
            assert(self@[i as int] == self.paths@[i as int]@);
            if self.paths[i].same(path) {
                return true;
            }
            i += 1;
        }
        false
    }

    /// The number of dirty paths.
    pub fn len(&self) -> (r: usize)
        ensures
            r == self@.len(),
    {
        self.paths.len()
    }

    /// Whether no path is dirty.
    pub fn is_empty(&self) -> (r: bool)
        ensures
            r == (self@.len() == 0),
    {
        self.paths.len() == 0
    }

    /// The path at a position.
    pub fn path_at(&self, i: usize) -> (r: &FsPath)
        requires
            i < self@.len(),
        ensures
            r@ == self@[i as int],
            *r == self.items()[i as int],
    {
        &self.paths[i]
    }

    /// Marks every path of a list as dirty.
    pub fn mark_all_dirty(&mut self, list: &Vec<FsPath>)
        requires
            old(self).wf(),
        ensures
            final(self).wf(),
            final(self)@ == with_paths(old(self)@, path_bytes(list@)),
    {
        let ghost bytes = path_bytes(list@);
        let mut i: usize = 0;
        assert(bytes.take(0) =~= Seq::<Seq<u8>>::empty());
        while i < list.len()
            invariant
                i <= list@.len(),
                bytes == path_bytes(list@),
                self.wf(),
                self@ == with_paths(old(self)@, bytes.take(i as int)),
            decreases list@.len() - i,
        {
            self.mark_dirty(list[i].copy());
            assert(bytes.take(i + 1).drop_last() =~= bytes.take(i as int));
            i += 1;
        }
        assert(bytes.take(i as int) =~= bytes);
    }

    /// Borrows the index as a protection of paths.
    pub fn as_path_protection(&self) -> (r: &Self)
        ensures
            r == self,
    {
        self
    }
}

impl Default for DirtyIndex {
    fn default() -> (r: DirtyIndex)
        ensures
            r.wf(),
            r@ == Seq::<Seq<u8>>::empty(),
    {
        DirtyIndex::new()
    }
}

impl PathProtection for DirtyIndex {
    open spec fn protects(&self, path: Seq<u8>) -> bool {
        covers_path(self@, path)
    }

    fn is_protected(&self, path: &FsPath) -> (r: bool) {
        DirtyIndex::is_protected(self, path)
    }
}

/// Copies of the paths of a list.
pub fn copy_paths(list: &Vec<FsPath>) -> (r: Vec<FsPath>)
    ensures
        path_bytes(r@) == path_bytes(list@),
{
    let mut out: Vec<FsPath> = Vec::new();
    let mut i: usize = 0;
    while i < list.len()
        invariant
            i <= list@.len(),
            path_bytes(out@) == path_bytes(list@).take(i as int),
        decreases list@.len() - i,
    {
        let ghost before = out@;
        out.push(list[i].copy());
        assert(path_bytes(out@) =~= path_bytes(before).push(list@[i as int]@));
        assert(path_bytes(out@) =~= path_bytes(list@).take(i + 1));
        i += 1;
    }
    assert(path_bytes(out@) =~= path_bytes(list@));
    out
}

proof fn lemma_without_none(s: Seq<Seq<u8>>, path: Seq<u8>)
    requires
        forall|j: int| 0 <= j < s.len() ==> !same_path(#[trigger] s[j], path),
    ensures
        without_path(s, path) == s,
    decreases s.len(),
{
    if s.len() > 0 {
        lemma_without_none(s.drop_last(), path);
        assert(s.drop_last().push(s.last()) =~= s);
    } else {
        assert(without_path(s, path) =~= s);
    }
}

proof fn lemma_without_one(s: Seq<Seq<u8>>, path: Seq<u8>, i: int)
    requires
        0 <= i < s.len(),
        same_path(s[i], path),
        forall|j: int| 0 <= j < s.len() && j != i ==> !same_path(#[trigger] s[j], s[i]),
    ensures
        without_path(s, path) == s.remove(i),
    decreases s.len(),
{
    if i == s.len() - 1 {
        assert forall|j: int| 0 <= j < s.drop_last().len() implies !same_path(
            #[trigger] s.drop_last()[j],
            path,
        ) by {
            assert(s[j] == s.drop_last()[j]);
        }
        lemma_without_none(s.drop_last(), path);
        assert(s.drop_last() =~= s.remove(i));
    } else {
        let t = s.drop_last();
        assert forall|j: int| 0 <= j < t.len() && j != i implies !same_path(
            #[trigger] t[j],
            t[i],
        ) by {
            assert(s[j] == t[j]);
        }
        lemma_without_one(t, path, i);
        assert(!same_path(s[s.len() - 1], s[i]));
        assert(t.remove(i).push(s.last()) =~= s.remove(i));
    }
}

/// A path is in the set after paths were added exactly where it was in it or is
/// one of them.
pub proof fn lemma_with_paths_holds(s: Seq<Seq<u8>>, list: Seq<Seq<u8>>, path: Seq<u8>)
    ensures
        holds_path(with_paths(s, list), path) <==> holds_path(s, path) || holds_path(list, path),
    decreases list.len(),
{
    if list.len() > 0 {
        let init = list.drop_last();
        lemma_with_paths_holds(s, init, path);
        lemma_with_path_holds(with_paths(s, init), list.last(), path);
        if holds_path(init, path) {
            let i = choose|i: int| 0 <= i < init.len() && same_path(#[trigger] init[i], path);
            assert(same_path(list[i], path));
        }
        if holds_path(list, path) && !holds_path(init, path) {
            let i = choose|i: int| 0 <= i < list.len() && same_path(#[trigger] list[i], path);
            if i < init.len() {
                assert(same_path(init[i], path));
            }
            assert(same_path(list.last(), path));
        }
        if same_path(list.last(), path) {
            assert(same_path(list[list.len() - 1], path));
        }
    }
}

/// Adding paths to a set without repetitions repeats none.
pub proof fn lemma_with_paths_distinct(s: Seq<Seq<u8>>, list: Seq<Seq<u8>>)
    requires
        distinct_paths(s),
    ensures
        distinct_paths(with_paths(s, list)),
    decreases list.len(),
{
    if list.len() > 0 {
        lemma_with_paths_distinct(s, list.drop_last());
        let before = with_paths(s, list.drop_last());
        if !holds_path(before, list.last()) {
            let after = before.push(list.last());
            assert forall|i: int, j: int| 0 <= i < j < after.len() implies !same_path(
                #[trigger] after[i],
                #[trigger] after[j],
            ) by {
                assert(after[i] == before[i]);
                if j < before.len() {
                    assert(after[j] == before[j]);
                }
            }
        }
    }
}

/// A path is in the set after one was added exactly where it was in it or is
/// that one.
pub proof fn lemma_with_path_holds(s: Seq<Seq<u8>>, added: Seq<u8>, path: Seq<u8>)
    ensures
        holds_path(with_path(s, added), path) <==> holds_path(s, path) || same_path(added, path),
{
    if !holds_path(s, added) {
        let t = s.push(added);
        if holds_path(s, path) {
            let i = choose|i: int| 0 <= i < s.len() && same_path(#[trigger] s[i], path);
            assert(same_path(t[i], path));
        }
        if same_path(added, path) {
            assert(same_path(t[s.len() as int], path));
        }
        if holds_path(t, path) {
            let i = choose|i: int| 0 <= i < t.len() && same_path(#[trigger] t[i], path);
            if i < s.len() {
                assert(same_path(s[i], path));
            }
        }
    } else {
        if same_path(added, path) {
            let i = choose|i: int| 0 <= i < s.len() && same_path(#[trigger] s[i], added);
            assert(same_path(s[i], path));
        }
    }
}

proof fn lemma_without_path_holds(s: Seq<Seq<u8>>, gone: Seq<u8>, path: Seq<u8>)
    ensures
        holds_path(without_path(s, gone), path) <==> holds_path(s, path) && !same_path(gone, path),
    decreases s.len(),
{
    if s.len() > 0 {
        let init = s.drop_last();
        lemma_without_path_holds(init, gone, path);
        let before = without_path(init, gone);
        if holds_path(init, path) {
            let i = choose|i: int| 0 <= i < init.len() && same_path(#[trigger] init[i], path);
            assert(same_path(s[i], path));
        }
        if holds_path(s, path) && !holds_path(init, path) {
            let i = choose|i: int| 0 <= i < s.len() && same_path(#[trigger] s[i], path);
            if i < init.len() {
                assert(same_path(init[i], path));
            }
            assert(same_path(s.last(), path));
        }
        if same_path(s.last(), path) {
            assert(same_path(s[s.len() - 1], path));
        }
        if !same_path(s.last(), gone) {
            let after = before.push(s.last());
            if holds_path(before, path) {
                let i = choose|i: int|
                    0 <= i < before.len() && same_path(#[trigger] before[i], path);
                assert(same_path(after[i], path));
            }
            if same_path(s.last(), path) {
                assert(same_path(after[before.len() as int], path));
            }
            if holds_path(after, path) {
                let i = choose|i: int| 0 <= i < after.len() && same_path(#[trigger] after[i], path);
                if i < before.len() {
                    assert(same_path(before[i], path));
                }
            }
        }
    }
}

/// Marking a path as dirty makes it dirty, marking it as clean makes it not
/// dirty, and neither touches another path.
pub proof fn law_marks(s: Seq<Seq<u8>>, marked: Seq<u8>, path: Seq<u8>)
    ensures
        holds_path(with_path(s, marked), marked),
        !holds_path(without_path(s, marked), marked),
        !same_path(marked, path) ==> holds_path(with_path(s, marked), path) == holds_path(s, path),
        !same_path(marked, path) ==> holds_path(without_path(s, marked), path) == holds_path(
            s,
            path,
        ),
{
    lemma_with_path_holds(s, marked, marked);
    lemma_with_path_holds(s, marked, path);
    lemma_without_path_holds(s, marked, marked);
    lemma_without_path_holds(s, marked, path);
}

/// A dirty path protects itself and everything below it.
pub proof fn law_dirty_paths_protect(s: Seq<Seq<u8>>, dirty: Seq<u8>, path: Seq<u8>)
    requires
        holds_path(s, dirty),
        within(path, dirty),
    ensures
        covers_path(s, path),
        covers_path(s, dirty),
{
    let i = choose|i: int| 0 <= i < s.len() && same_path(#[trigger] s[i], dirty);
    assert(within(path, s[i]));
    assert(components(dirty) =~= components(dirty).take(components(dirty).len() as int));
    assert(within(dirty, s[i]));
}

/// Marking a path as dirty makes exactly that path dirty besides what was, however
/// it is written, and no path comes in twice.
pub proof fn law_mark_dirty_adds_one(index: &mut DirtyIndex, marked: FsPath, path: Seq<u8>)
    requires
        call_ensures(DirtyIndex::mark_dirty, (index, marked), ()),
    ensures
        holds_path(final(index)@, path) <==> holds_path(old(index)@, path) || components(marked@)
            == components(path),
        final(index)@.len() == old(index)@.len() + if holds_path(old(index)@, marked@) {
            0int
        } else {
            1int
        },
        distinct_paths(final(index)@),
{
    lemma_with_path_holds(old(index)@, marked@, path);
}

/// Marking a path as clean takes exactly that path out, however it is written.
pub proof fn law_mark_clean_takes_one(index: &mut DirtyIndex, marked: &FsPath, path: Seq<u8>)
    requires
        call_ensures(DirtyIndex::mark_clean, (index, marked), ()),
    ensures
        holds_path(final(index)@, path) <==> holds_path(old(index)@, path) && components(marked@)
            != components(path),
        distinct_paths(final(index)@),
{
    lemma_without_path_holds(old(index)@, marked@, path);
}

/// Marking every path of a list as dirty makes exactly those dirty besides what
/// was.
pub proof fn law_mark_all_adds_all(index: &mut DirtyIndex, list: &Vec<FsPath>, path: Seq<u8>)
    requires
        call_ensures(DirtyIndex::mark_all_dirty, (index, list), ()),
    ensures
        holds_path(final(index)@, path) <==> holds_path(old(index)@, path) || exists|i: int|
            0 <= i < list@.len() && components((#[trigger] list@[i])@) == components(path),
{
    lemma_with_paths_holds(old(index)@, path_bytes(list@), path);
    if exists|i: int| 0 <= i < list@.len() && components((#[trigger] list@[i])@) == components(
        path,
    ) {
        let i = choose|i: int| 0 <= i < list@.len() && components((#[trigger] list@[i])@)
            == components(path);
        assert(same_path(path_bytes(list@)[i], path));
    }
    if holds_path(path_bytes(list@), path) {
        let i = choose|i: int|
            0 <= i < path_bytes(list@).len() && same_path(#[trigger] path_bytes(list@)[i], path);
        assert(components(list@[i]@) == components(path));
    }
}

/// A path is protected exactly where one of the dirty paths is it or stands above
/// it: where the dirty path's components are the first ones of its own.
pub proof fn law_protection_reaches_below(index: DirtyIndex, path: &FsPath, r: bool)
    requires
        call_ensures(DirtyIndex::is_protected, (&index, path), r),
    ensures
        r <==> exists|i: int|
            {
                &&& 0 <= i < index@.len()
                &&& components(#[trigger] index@[i]).len() <= components(path@).len()
                &&& components(path@).take(components(index@[i]).len() as int) == components(
                    index@[i],
                )
            },
        r == index.protects(path@),
{
    if r {
        let i = choose|i: int| 0 <= i < index@.len() && within(path@, #[trigger] index@[i]);
        assert(components(path@).take(components(index@[i]).len() as int) == components(index@[i]));
    }
    if exists|i: int|
        {
            &&& 0 <= i < index@.len()
            &&& components(#[trigger] index@[i]).len() <= components(path@).len()
            &&& components(path@).take(components(index@[i]).len() as int) == components(index@[i])
        } {
        let i = choose|i: int|
            {
                &&& 0 <= i < index@.len()
                &&& components(#[trigger] index@[i]).len() <= components(path@).len()
                &&& components(path@).take(components(index@[i]).len() as int) == components(
                    index@[i],
                )
            };
        assert(within(path@, index@[i]));
    }
}

/// A new index is empty; what an index tells of itself is what it holds.
pub proof fn law_index_tells_its_paths(
    empty: DirtyIndex,
    index: DirtyIndex,
    path: &FsPath,
    held: bool,
    list: Vec<FsPath>,
    count: usize,
    none: bool,
)
    requires
        call_ensures(DirtyIndex::new, (), empty),
        call_ensures(DirtyIndex::holds, (&index, path), held),
        call_ensures(DirtyIndex::snapshot, (&index,), list),
        call_ensures(DirtyIndex::len, (&index,), count),
        call_ensures(DirtyIndex::is_empty, (&index,), none),
    ensures
        empty@.len() == 0,
        held <==> exists|i: int|
            0 <= i < index@.len() && components(#[trigger] index@[i]) == components(path@),
        list@.len() == index@.len(),
        forall|i: int| 0 <= i < list@.len() ==> (#[trigger] list@[i])@ == index@[i],
        count == index@.len(),
        none <==> index@.len() == 0,
{
    assert(path_bytes(list@).len() == list@.len());
    assert forall|i: int| 0 <= i < list@.len() implies (#[trigger] list@[i])@ == index@[i] by {
        assert(path_bytes(list@)[i] == list@[i]@);
    }
    if held {
        let i = choose|i: int| 0 <= i < index@.len() && same_path(#[trigger] index@[i], path@);
        assert(components(index@[i]) == components(path@));
    }
    if exists|i: int|
        0 <= i < index@.len() && components(#[trigger] index@[i]) == components(path@) {
        let i = choose|i: int|
            0 <= i < index@.len() && components(#[trigger] index@[i]) == components(path@);
        assert(same_path(index@[i], path@));
    }
}

/// What a position of the index tells, and what is copied of a list, are the paths
/// that stand there.
pub proof fn law_paths_are_told_as_they_stand(
    index: DirtyIndex,
    i: usize,
    path: &FsPath,
    list: Vec<FsPath>,
    copies: Vec<FsPath>,
    j: int,
)
    requires
        i < index@.len(),
        call_ensures(DirtyIndex::path_at, (&index, i), path),
        call_ensures(copy_paths, (&list,), copies),
        0 <= j < list@.len(),
    ensures
        path@ == index@[i as int],
        copies@.len() == list@.len(),
        copies@[j]@ == list@[j]@,
{
    assert(path_bytes(copies@).len() == path_bytes(list@).len());
    assert(path_bytes(copies@)[j] == path_bytes(list@)[j]);
}

} // verus!
