//! File system paths.
//!
//! A path is a list of bytes. What it names is given by its components: the
//! pieces between slashes, without empty ones and without `.` after the start.
//! Two paths are the same path when their components are the same.
use vstd::prelude::*;
use vstd::utf8::{decode_utf8, encode_utf8, valid_utf8};

use crate::text::{copy_bytes, same_bytes};

verus! {

/// The byte that separates components.
pub const SEPARATOR: u8 = 0x2f;

/// The byte of the component that names the current directory.
pub const DOT: u8 = 0x2e;

/// A file system path.
#[derive(Debug, Clone)]
pub struct FsPath {
    bytes: Vec<u8>,
}

impl View for FsPath {
    type V = Seq<u8>;

    closed spec fn view(&self) -> Seq<u8> {
        self.bytes@
    }
}

/// What stands between the separators, from left to right.
pub open spec fn pieces(s: Seq<u8>) -> Seq<Seq<u8>>
    decreases s.len(),
{
    if s.len() == 0 {
        seq![Seq::<u8>::empty()]
    } else {
        let before = pieces(s.drop_last());
        if s.last() == SEPARATOR {
            before.push(Seq::<u8>::empty())
        } else {
            before.drop_last().push(before.last().push(s.last()))
        }
    }
}

/// The component that names the current directory.
pub open spec fn current_dir() -> Seq<u8> {
    seq![DOT]
}

/// The component that names the root directory.
pub open spec fn root_dir() -> Seq<u8> {
    seq![SEPARATOR]
}

/// Whether the piece at a position is a component: it is not empty, and it is
/// `.` only at the start.
pub open spec fn is_component(piece: Seq<u8>, position: int) -> bool {
    piece.len() > 0 && (piece == current_dir() ==> position == 0)
}

/// The pieces that are components.
pub open spec fn component_pieces(p: Seq<Seq<u8>>) -> Seq<Seq<u8>>
    decreases p.len(),
{
    if p.len() == 0 {
        Seq::empty()
    } else {
        let before = component_pieces(p.drop_last());
        if is_component(p.last(), p.len() - 1) {
            before.push(p.last())
        } else {
            before
        }
    }
}

/// Whether a path starts at the root.
pub open spec fn absolute(s: Seq<u8>) -> bool {
    s.len() > 0 && s[0] == SEPARATOR
}

/// The root component of an absolute path.
pub open spec fn root_part(s: Seq<u8>) -> Seq<Seq<u8>> {
    if absolute(s) {
        seq![root_dir()]
    } else {
        Seq::empty()
    }
}

/// The components of a path.
pub open spec fn components(s: Seq<u8>) -> Seq<Seq<u8>> {
    root_part(s) + component_pieces(pieces(s))
}

/// Whether two byte lists are the same path.
pub open spec fn same_path(a: Seq<u8>, b: Seq<u8>) -> bool {
    components(a) == components(b)
}

/// Whether `path` is `base` or lies below it.
pub open spec fn within(path: Seq<u8>, base: Seq<u8>) -> bool {
    components(base).is_prefix_of(components(path))
}

/// A list of components written as a path.
pub open spec fn rendered(c: Seq<Seq<u8>>) -> Seq<u8>
    decreases c.len(),
{
    if c.len() == 0 {
        Seq::empty()
    } else if c.len() == 1 {
        c[0]
    } else {
        let head = rendered(c.drop_last());
        if c.len() == 2 && c[0] == root_dir() {
            head + c.last()
        } else {
            head.push(SEPARATOR) + c.last()
        }
    }
}

/// The shortest way to write a path.
pub open spec fn normal(s: Seq<u8>) -> Seq<u8> {
    rendered(components(s))
}

/// A path followed by another one: an absolute one takes its place.
pub open spec fn joined(s: Seq<u8>, other: Seq<u8>) -> Seq<u8> {
    if absolute(other) {
        other
    } else if s.len() > 0 && s.last() != SEPARATOR {
        s.push(SEPARATOR) + other
    } else {
        s + other
    }
}

/// A path followed by a name given as text.
pub open spec fn joined_text(s: Seq<u8>, name: Seq<char>) -> Seq<u8> {
    joined(s, encode_utf8(name))
}

/// Whether the last component of a path is a name.
pub open spec fn has_name(c: Seq<Seq<u8>>) -> bool {
    c.len() > 0 && c.last() != root_dir() && c.last() != current_dir() && c.last() != parent_dir()
}

/// The component that names the directory above.
pub open spec fn parent_dir() -> Seq<u8> {
    seq![DOT, DOT]
}

/// The bytes that the elements of a list hold.
pub open spec fn deep(list: Seq<Vec<u8>>) -> Seq<Seq<u8>> {
    list.map_values(|v: Vec<u8>| v@)
}

/// The text that bytes stand for when every ill-formed part is replaced.
pub uninterp spec fn utf8_lossy(bytes: Seq<u8>) -> Seq<char>;

/// `String::from_utf8_lossy` of the standard library: well-formed UTF-8 is
/// decoded; what it puts in place of ill-formed parts is named, not described.
#[verifier::external_body]
pub(crate) fn lossy_text(bytes: &[u8]) -> (r: String)
    ensures
        r@ == utf8_lossy(bytes@),
        valid_utf8(bytes@) ==> r@ == decode_utf8(bytes@),
{
    String::from_utf8_lossy(bytes).into_owned()
}

impl FsPath {
    /// The path that holds the given bytes.
    pub fn from_bytes(bytes: Vec<u8>) -> (r: FsPath)
        ensures
            r@ == bytes@,
    {
        FsPath { bytes }
    }

    /// The path that a text writes.
    pub fn from_text(text: &str) -> (r: FsPath)
        ensures
            r@ == encode_utf8(text@),
    {
        FsPath { bytes: copy_bytes(text.as_bytes()) }
    }

    /// The bytes of the path.
    pub fn as_bytes(&self) -> (r: &[u8])
        ensures
            r@ == self@,
    {
        self.bytes.as_slice()
    }

    /// A copy of the path.
    pub fn copy(&self) -> (r: FsPath)
        ensures
            r@ == self@,
    {
        FsPath { bytes: copy_bytes(self.bytes.as_slice()) }
    }

    /// The path as text for messages.
    pub fn display(&self) -> (r: String)
        ensures
            r@ == utf8_lossy(self@),
            valid_utf8(self@) ==> r@ == decode_utf8(self@),
    {
        lossy_text(self.bytes.as_slice())
    }

    /// Whether the path starts at the root.
    pub fn is_absolute(&self) -> (r: bool)
        ensures
            r == absolute(self@),
    {
        self.bytes.len() > 0 && self.bytes[0] == SEPARATOR
    }

    /// The components of the path.
    pub fn components(&self) -> (r: Vec<Vec<u8>>)
        ensures
            deep(r@) == components(self@),
    {
        let mut out: Vec<Vec<u8>> = Vec::new();
        if self.is_absolute() {
            let mut root: Vec<u8> = Vec::new();
            root.push(SEPARATOR);
            assert(root@ =~= root_dir());
            out.push(root);
        }
        assert(deep(out@) =~= root_part(self@));
        let mut cur: Vec<u8> = Vec::new();
        let mut first: bool = true;
        let ghost mut done: Seq<Seq<u8>> = Seq::empty();
        let mut i: usize = 0;
        assert(pieces(self@.take(0)) =~= done.push(cur@));
        while i < self.bytes.len()
            invariant
                i <= self@.len(),
                self@ == self.bytes@,
                pieces(self@.take(i as int)) == done.push(cur@),
                first == (done.len() == 0),
                deep(out@) == root_part(self@) + component_pieces(done),
            decreases self.bytes.len() - i,
        {
            let b: u8 = self.bytes[i];
            let ghost prefix = self@.take(i + 1);
            assert(prefix.drop_last() =~= self@.take(i as int));
            if b == SEPARATOR {
                proof {
                    assert(done.push(cur@).drop_last() =~= done);
                }
                let ghost all = done.push(cur@);
                keep_piece(&mut out, cur, first, Ghost(done), Ghost(root_part(self@)));
                proof {
                    done = all;
                }
                cur = Vec::new();
                first = false;
                assert(pieces(prefix) =~= done.push(cur@));
            } else {
                cur.push(b);
                assert(pieces(prefix) =~= done.push(cur@));
            }
            i += 1;
        }
        proof {
            assert(self@.take(i as int) =~= self@);
            assert(done.push(cur@).drop_last() =~= done);
        }
        keep_piece(&mut out, cur, first, Ghost(done), Ghost(root_part(self@)));
        out
    }

    /// The shortest way to write the path.
    pub fn normalized(&self) -> (r: Vec<u8>)
        ensures
            r@ == normal(self@),
    {
        let parts = self.components();
        render(&parts)
    }

    /// Whether both are the same path.
    pub fn same(&self, other: &FsPath) -> (r: bool)
        ensures
            r == same_path(self@, other@),
    {
        let a = self.components();
        let b = other.components();
        if a.len() != b.len() {
            assert(deep(a@).len() == a@.len() && deep(b@).len() == b@.len());
            return false;
        }
        list_starts_with(&a, &b)
    }

    /// Whether the path is `base` or lies below it.
    pub fn starts_with(&self, base: &FsPath) -> (r: bool)
        ensures
            r == within(self@, base@),
    {
        let a = self.components();
        let b = base.components();
        list_starts_with(&a, &b)
    }

    /// The path followed by another one.
    pub fn join(&self, other: &FsPath) -> (r: FsPath)
        ensures
            r@ == joined(self@, other@),
    {
        if other.is_absolute() {
            return other.copy();
        }
        let mut bytes = copy_bytes(self.bytes.as_slice());
        if bytes.len() > 0 && bytes[bytes.len() - 1] != SEPARATOR {
            bytes.push(SEPARATOR);
        }
        let mut tail = copy_bytes(other.bytes.as_slice());
        bytes.append(&mut tail);
        FsPath { bytes }
    }

    /// The path followed by a name.
    pub fn join_text(&self, name: &str) -> (r: FsPath)
        ensures
            r@ == joined_text(self@, name@),
    {
        let other = FsPath::from_text(name);
        self.join(&other)
    }

    /// The last component, where it is a name.
    pub fn file_name(&self) -> (r: Option<Vec<u8>>)
        ensures
            match r {
                Some(name) => has_name(components(self@)) && name@ == components(self@).last(),
                None => !has_name(components(self@)),
            },
    {
        let mut parts = self.components();
        let ghost c = components(self@);
        assert(c.len() == parts@.len());
        match parts.pop() {
            None => None,
            Some(last) => {
                assert(last@ == c.last());
                let root = root_component();
                let here = dots(1);
                let above = dots(2);
                if same_bytes(&last, &root) || same_bytes(&last, &here) || same_bytes(
                    &last,
                    &above,
                ) {
                    None
                } else {
                    Some(last)
                }
            },
        }
    }

    /// The path without its last component; the root and the empty path have none.
    pub fn parent(&self) -> (r: Option<FsPath>)
        ensures
            match r {
                Some(p) => components(self@).len() > 0 && components(self@).last() != root_dir()
                    && p@ == rendered(components(self@).drop_last()),
                None => components(self@).len() == 0 || components(self@).last() == root_dir(),
            },
    {
        let mut parts = self.components();
        let ghost c = components(self@);
        assert(c.len() == parts@.len());
        match parts.pop() {
            None => None,
            Some(last) => {
                assert(last@ == c.last());
                let root = root_component();
                if same_bytes(&last, &root) {
                    None
                } else {
                    assert(deep(parts@) =~= c.drop_last());
                    Some(FsPath { bytes: render(&parts) })
                }
            },
        }
    }
}

fn root_component() -> (r: Vec<u8>)
    ensures
        r@ == root_dir(),
{
    let mut root: Vec<u8> = Vec::new();
    root.push(SEPARATOR);
    assert(root@ =~= root_dir());
    root
}

fn dots(n: usize) -> (r: Vec<u8>)
    requires
        n == 1 || n == 2,
    ensures
        n == 1 ==> r@ == current_dir(),
        n == 2 ==> r@ == parent_dir(),
{
    let mut out: Vec<u8> = Vec::new();
    out.push(DOT);
    if n == 2 {
        out.push(DOT);
    }
    assert(n == 1 ==> out@ =~= current_dir());
    assert(n == 2 ==> out@ =~= parent_dir());
    out
}

/// Adds a piece to the components found so far, where it is one.
fn keep_piece(
    out: &mut Vec<Vec<u8>>,
    piece: Vec<u8>,
    first: bool,
    Ghost(done): Ghost<Seq<Seq<u8>>>,
    Ghost(root): Ghost<Seq<Seq<u8>>>,
)
    requires
        first == (done.len() == 0),
        deep(old(out)@) == root + component_pieces(done),
    ensures
        deep(final(out)@) == root + component_pieces(done.push(piece@)),
{
    let here = dots(1);
    proof {
        assert(done.push(piece@).drop_last() =~= done);
    }
    if piece.len() > 0 && (first || !same_bytes(&piece, &here)) {
        out.push(piece);
        assert(deep(out@) =~= deep(old(out)@).push(piece@));
        assert(deep(out@) =~= root + component_pieces(done.push(piece@)));
    }
}

fn list_starts_with(a: &Vec<Vec<u8>>, b: &Vec<Vec<u8>>) -> (r: bool)
    ensures
        r == deep(b@).is_prefix_of(deep(a@)),
        a@.len() == b@.len() ==> r == (deep(a@) == deep(b@)),
{
    if b.len() > a.len() {
        assert(deep(a@).len() < deep(b@).len());
        return false;
    }
    let mut i: usize = 0;
    while i < b.len()
        invariant
            i <= b@.len() <= a@.len(),
            forall|j: int| 0 <= j < i ==> deep(a@)[j] == deep(b@)[j],
        decreases b.len() - i,
    {
        if !same_bytes(&a[i], &b[i]) {
            assert(deep(a@)[i as int] != deep(b@)[i as int]);
            assert(deep(a@).take(b@.len() as int)[i as int] == deep(a@)[i as int]);
            return false;
        }
        i += 1;
    }
    assert(deep(b@) =~= deep(a@).take(b@.len() as int));
    if a.len() == b.len() {
        assert(deep(a@) =~= deep(b@));
    }
    true
}

/// Writes a list of components as a path.
fn render(parts: &Vec<Vec<u8>>) -> (r: Vec<u8>)
    ensures
        r@ == rendered(deep(parts@)),
{
    let root = root_component();
    let mut out: Vec<u8> = Vec::new();
    let ghost c = deep(parts@);
    let mut i: usize = 0;
    assert(c.take(0) =~= Seq::<Seq<u8>>::empty());
    while i < parts.len()
        invariant
            i <= parts@.len() == c.len(),
            c == deep(parts@),
            root@ == root_dir(),
            out@ == rendered(c.take(i as int)),
        decreases parts.len() - i,
    {
        let ghost now = c.take(i + 1);
        assert(now.drop_last() =~= c.take(i as int));
        assert(c[0] == parts@[0]@);
        if i > 0 && !(i == 1 && same_bytes(&parts[0], &root)) {
            out.push(SEPARATOR);
        }
        let mut tail = copy_bytes(parts[i].as_slice());
        out.append(&mut tail);
        assert(out@ =~= rendered(now));
        i += 1;
    }
    assert(c.take(i as int) =~= c);
    out
}

/// Whether a list of bytes holds no separator.
spec fn separator_free(s: Seq<u8>) -> bool {
    forall|i: int| 0 <= i < s.len() ==> s[i] != SEPARATOR
}

/// Whether a list of components can come from a path.
spec fn well_formed(c: Seq<Seq<u8>>) -> bool {
    forall|i: int|
        0 <= i < c.len() ==> {
            &&& #[trigger] c[i].len() > 0
            &&& c[i] == current_dir() ==> i == 0
            &&& separator_free(c[i]) || (i == 0 && c[i] == root_dir())
        }
}

proof fn lemma_pieces_separator_free(s: Seq<u8>)
    ensures
        pieces(s).len() > 0,
        forall|i: int| 0 <= i < pieces(s).len() ==> separator_free(#[trigger] pieces(s)[i]),
    decreases s.len(),
{
    if s.len() > 0 {
        lemma_pieces_separator_free(s.drop_last());
    }
}

proof fn lemma_first_piece(s: Seq<u8>)
    ensures
        pieces(s).len() > 0,
        absolute(s) ==> pieces(s).len() > 1 && pieces(s)[0].len() == 0,
    decreases s.len(),
{
    if s.len() > 0 {
        lemma_first_piece(s.drop_last());
        if s.len() == 1 {
            assert(s.drop_last() =~= Seq::<u8>::empty());
        }
    }
}

proof fn lemma_component_pieces(p: Seq<Seq<u8>>)
    requires
        forall|i: int| 0 <= i < p.len() ==> separator_free(#[trigger] p[i]),
    ensures
        component_pieces(p).len() <= p.len(),
        forall|j: int|
            0 <= j < component_pieces(p).len() ==> {
                let x = #[trigger] component_pieces(p)[j];
                x.len() > 0 && separator_free(x) && (x == current_dir() ==> j == 0 && p[0] == x)
            },
    decreases p.len(),
{
    if p.len() > 0 {
        lemma_component_pieces(p.drop_last());
    }
}

proof fn lemma_components_well_formed(s: Seq<u8>)
    ensures
        well_formed(components(s)),
{
    lemma_pieces_separator_free(s);
    lemma_first_piece(s);
    lemma_component_pieces(pieces(s));
    let c = components(s);
    let k = component_pieces(pieces(s));
    assert forall|i: int| 0 <= i < c.len() implies {
        &&& #[trigger] c[i].len() > 0
        &&& c[i] == current_dir() ==> i == 0
        &&& separator_free(c[i]) || (i == 0 && c[i] == root_dir())
    } by {
        if absolute(s) {
            if i > 0 {
                assert(c[i] == k[i - 1]);
            }
        } else {
            assert(c[i] == k[i]);
        }
    }
}

proof fn lemma_pieces_append(a: Seq<u8>, b: Seq<u8>)
    requires
        separator_free(b),
    ensures
        pieces(a).len() > 0,
        pieces(a + b) == pieces(a).drop_last().push(pieces(a).last() + b),
    decreases b.len(),
{
    lemma_pieces_separator_free(a);
    if b.len() == 0 {
        assert(a + b =~= a);
        assert(pieces(a).last() + b =~= pieces(a).last());
        assert(pieces(a) =~= pieces(a).drop_last().push(pieces(a).last()));
    } else {
        lemma_pieces_append(a, b.drop_last());
        assert((a + b).drop_last() =~= a + b.drop_last());
        assert((a + b).last() == b.last());
        assert(pieces(a).last() + b =~= (pieces(a).last() + b.drop_last()).push(b.last()));
        assert(pieces(a + b) =~= pieces(a).drop_last().push(pieces(a).last() + b));
    }
}

/// The pieces on both sides of a separator.
proof fn lemma_pieces_around(a: Seq<u8>, b: Seq<u8>)
    ensures
        pieces(a.push(SEPARATOR) + b) == pieces(a) + pieces(b),
        pieces(b).len() > 0,
    decreases b.len(),
{
    lemma_pieces_separator_free(b);
    let s = a.push(SEPARATOR);
    if b.len() == 0 {
        assert(s + b =~= s);
        assert(s.drop_last() =~= a);
        assert(pieces(s) =~= pieces(a) + pieces(b));
    } else {
        lemma_pieces_around(a, b.drop_last());
        assert((s + b).drop_last() =~= s + b.drop_last());
        assert((s + b).last() == b.last());
        lemma_pieces_separator_free(b.drop_last());
        assert(pieces(s + b) =~= pieces(a) + pieces(b));
    }
}

proof fn lemma_rendered_not_empty(c: Seq<Seq<u8>>)
    requires
        well_formed(c),
        c.len() > 0,
    ensures
        rendered(c).len() > 0,
        rendered(c)[0] == c[0][0],
    decreases c.len(),
{
    assert(c[0].len() > 0);
    if c.len() > 1 {
        assert(well_formed(c.drop_last())) by {
            assert forall|i: int| 0 <= i < c.drop_last().len() implies {
                &&& #[trigger] c.drop_last()[i].len() > 0
                &&& c.drop_last()[i] == current_dir() ==> i == 0
                &&& separator_free(c.drop_last()[i]) || (i == 0 && c.drop_last()[i] == root_dir())
            } by {
                assert(c[i].len() > 0);
            }
        }
        lemma_rendered_not_empty(c.drop_last());
    }
}

proof fn lemma_components_rendered(c: Seq<Seq<u8>>)
    requires
        well_formed(c),
    ensures
        components(rendered(c)) == c,
    decreases c.len(),
{
    reveal_with_fuel(component_pieces, 3);
    if c.len() == 0 {
        assert(pieces(Seq::<u8>::empty()) =~= seq![Seq::<u8>::empty()]);
        assert(pieces(Seq::<u8>::empty()).drop_last() =~= Seq::<Seq<u8>>::empty());
        assert(components(rendered(c)) =~= c);
    } else if c.len() == 1 {
        let x = c[0];
        assert(x.len() > 0);
        let e = Seq::<u8>::empty();
        if x == root_dir() {
            assert(x.drop_last() =~= e);
            assert(pieces(e) =~= seq![e]);
            assert(pieces(x) =~= pieces(e).push(e));
            assert(pieces(x) =~= seq![e, e]);
            assert(pieces(x).drop_last() =~= seq![e]);
            assert(seq![e].drop_last() =~= Seq::<Seq<u8>>::empty());
            assert(components(x) =~= c);
        } else {
            assert(separator_free(x));
            lemma_pieces_append(e, x);
            assert(e + x =~= x);
            assert(pieces(x) =~= seq![x]);
            assert(seq![x].drop_last() =~= Seq::<Seq<u8>>::empty());
            assert(x[0] != SEPARATOR);
            assert(components(x) =~= c);
        }
    } else {
        let init = c.drop_last();
        let x = c.last();
        assert(c[c.len() - 1].len() > 0);
        assert(separator_free(x));
        assert(well_formed(init)) by {
            assert forall|i: int| 0 <= i < init.len() implies {
                &&& #[trigger] init[i].len() > 0
                &&& init[i] == current_dir() ==> i == 0
                &&& separator_free(init[i]) || (i == 0 && init[i] == root_dir())
            } by {
                assert(c[i].len() > 0);
            }
        }
        lemma_components_rendered(init);
        lemma_rendered_not_empty(init);
        let head = rendered(init);
        lemma_first_piece(head);
        assert(c =~= init.push(x));
        if c.len() == 2 && c[0] == root_dir() {
            assert(init =~= seq![root_dir()]);
            assert(head =~= root_dir());
            let e = Seq::<u8>::empty();
            assert(head.drop_last() =~= e);
            assert(pieces(e) =~= seq![e]);
            assert(pieces(head) =~= pieces(e).push(e));
            assert(pieces(head) =~= seq![e, e]);
            lemma_pieces_append(head, x);
            assert(e + x =~= x);
            assert(pieces(head + x) =~= seq![e, x]);
            assert(seq![e, x].drop_last() =~= seq![e]);
            assert(seq![e].drop_last() =~= Seq::<Seq<u8>>::empty());
            assert(components(head + x) =~= c);
        } else {
            let e = Seq::<u8>::empty();
            lemma_pieces_around(head, x);
            lemma_pieces_append(e, x);
            assert(e + x =~= x);
            assert(pieces(x) =~= seq![x]);
            let p = pieces(head).push(x);
            assert(pieces(head) + pieces(x) =~= p);
            assert(p.drop_last() =~= pieces(head));
            let full = head.push(SEPARATOR) + x;
            assert(full[0] == head[0]);
            assert(component_pieces(p) =~= component_pieces(pieces(head)).push(x));
            assert(components(full) =~= components(head).push(x));
        }
    }
}

/// The shortest way to write a path names the same path.
pub proof fn lemma_normal_is_same_path(s: Seq<u8>)
    ensures
        same_path(normal(s), s),
        normal(normal(s)) == normal(s),
{
    lemma_components_well_formed(s);
    lemma_components_rendered(components(s));
}

/// Two paths are the same exactly when their shortest forms are equal.
pub proof fn lemma_normal_decides_same_path(a: Seq<u8>, b: Seq<u8>)
    ensures
        same_path(a, b) <==> normal(a) == normal(b),
{
    lemma_normal_is_same_path(a);
    lemma_normal_is_same_path(b);
}

proof fn lemma_component_pieces_prefix(p: Seq<Seq<u8>>, q: Seq<Seq<u8>>)
    ensures
        component_pieces(p).is_prefix_of(component_pieces(p + q)),
    decreases q.len(),
{
    if q.len() == 0 {
        assert(p + q =~= p);
    } else {
        lemma_component_pieces_prefix(p, q.drop_last());
        assert((p + q).drop_last() =~= p + q.drop_last());
        assert((p + q).last() == q.last());
    }
}

/// What is joined to a path by a relative path lies within it.
pub proof fn lemma_joined_is_within(base: Seq<u8>, other: Seq<u8>)
    requires
        !absolute(other),
    ensures
        within(joined(base, other), base),
{
    let full = joined(base, other);
    let e = Seq::<u8>::empty();
    if base.len() == 0 {
        assert(pieces(base) =~= seq![e]);
        assert(seq![e].drop_last() =~= Seq::<Seq<u8>>::empty());
        reveal_with_fuel(component_pieces, 2);
        assert(components(base) =~= Seq::<Seq<u8>>::empty());
    } else {
        assert(full[0] == base[0]);
        if base.last() != SEPARATOR {
            lemma_pieces_around(base, other);
            lemma_component_pieces_prefix(pieces(base), pieces(other));
        } else {
            let head = base.drop_last();
            assert(base =~= head.push(SEPARATOR));
            lemma_pieces_around(head, other);
            lemma_pieces_around(head, e);
            assert(base + e =~= base);
            assert(pieces(e) =~= seq![e]);
            assert((pieces(head) + pieces(e)).drop_last() =~= pieces(head));
            lemma_component_pieces_prefix(pieces(head), pieces(other));
        }
        let x = component_pieces(pieces(base));
        let y = component_pieces(pieces(full));
        assert(x.is_prefix_of(y));
        assert(components(base) =~= components(full).take(components(base).len() as int));
    }
}

/// A path lies within itself, and lying within is transitive.
pub proof fn lemma_within_is_a_preorder(a: Seq<u8>, b: Seq<u8>, c: Seq<u8>)
    ensures
        within(a, a),
        within(a, b) && within(b, c) ==> within(a, c),
{
    assert(components(a) =~= components(a).take(components(a).len() as int));
    if within(a, b) && within(b, c) {
        assert(components(c) =~= components(a).take(components(c).len() as int));
    }
}

impl PartialEq for FsPath {
    fn eq(&self, other: &FsPath) -> (r: bool) {
        self.same(other)
    }
}

impl vstd::std_specs::cmp::PartialEqSpecImpl for FsPath {
    open spec fn obeys_eq_spec() -> bool {
        true
    }

    open spec fn eq_spec(&self, other: &FsPath) -> bool {
        same_path(self@, other@)
    }
}

/// A path is its parent followed by its name.
pub proof fn law_parent_and_name(path: Seq<u8>)
    requires
        has_name(components(path)),
    ensures
        same_path(joined(rendered(components(path).drop_last()), components(path).last()), path),
{
    let c = components(path);
    let init = c.drop_last();
    let name = c.last();
    lemma_components_well_formed(path);
    lemma_components_rendered(c);
    assert(c[c.len() - 1].len() > 0);
    assert(separator_free(name));
    assert(!absolute(name));
    let head = rendered(init);
    if c.len() == 1 {
        assert(joined(head, name) =~= rendered(c));
    } else {
        lemma_init_well_formed(c);
        lemma_rendered_last(init);
        assert(joined(head, name) =~= rendered(c));
    }
}

proof fn lemma_init_well_formed(c: Seq<Seq<u8>>)
    requires
        well_formed(c),
        c.len() > 0,
    ensures
        well_formed(c.drop_last()),
{
    let init = c.drop_last();
    assert forall|i: int| 0 <= i < init.len() implies {
        &&& #[trigger] init[i].len() > 0
        &&& init[i] == current_dir() ==> i == 0
        &&& separator_free(init[i]) || (i == 0 && init[i] == root_dir())
    } by {
        assert(c[i].len() > 0);
    }
}

/// A rendered path ends with a separator only where it is the root.
proof fn lemma_rendered_last(c: Seq<Seq<u8>>)
    requires
        well_formed(c),
        c.len() > 0,
    ensures
        rendered(c).len() > 0,
        rendered(c).last() == SEPARATOR <==> (c.len() == 1 && c[0] == root_dir()),
{
    assert(c[c.len() - 1].len() > 0);
    let name = c.last();
    if c.len() > 1 {
        assert(separator_free(name));
        assert(rendered(c).last() == name.last());
    } else {
        if c[0] != root_dir() {
            assert(separator_free(c[0]));
        }
    }
}

/// A path is the bytes that it is made of, and so is a copy; a text makes the path
/// of its encoding, which is shown as that text.
pub proof fn law_paths_keep_their_bytes(
    bytes: Vec<u8>,
    path: FsPath,
    given: &[u8],
    copied: FsPath,
    text: &str,
    named: FsPath,
    shown: String,
)
    requires
        call_ensures(FsPath::from_bytes, (bytes,), path),
        call_ensures(FsPath::as_bytes, (&path,), given),
        call_ensures(FsPath::copy, (&path,), copied),
        call_ensures(FsPath::from_text, (text,), named),
        call_ensures(FsPath::display, (&named,), shown),
    ensures
        path@ == bytes@,
        given@ == bytes@,
        copied@ == path@,
        named@ == encode_utf8(text@),
        shown@ == text@,
{
    vstd::utf8::encode_utf8_valid_utf8(text@);
    vstd::utf8::encode_utf8_decode_utf8(text@);
}

/// A path followed by an absolute one is that one; else the other one follows
/// behind exactly one separator, which an empty path does not need.
pub proof fn law_join_puts_behind(
    path: FsPath,
    other: &FsPath,
    name: &str,
    r: FsPath,
    named: FsPath,
    rooted: bool,
)
    requires
        call_ensures(FsPath::join, (&path, other), r),
        call_ensures(FsPath::join_text, (&path, name), named),
        call_ensures(FsPath::is_absolute, (other,), rooted),
        other@ == encode_utf8(name@),
    ensures
        rooted <==> other@.len() > 0 && other@[0] == 0x2f,
        rooted ==> r@ == other@,
        !rooted && path@.len() > 0 && path@.last() != 0x2f ==> r@ == path@ + seq![0x2fu8]
            + other@,
        !rooted && (path@.len() == 0 || path@.last() == 0x2f) ==> r@ == path@ + other@,
        named@ == r@,
{
    assert(path@.push(0x2fu8) =~= path@ + seq![0x2fu8]);
}

/// The components of a path in a directory are those of the directory and its
/// name.
pub proof fn law_name_is_the_last_component(base: Seq<u8>, name: Seq<u8>)
    requires
        base.len() > 0,
        name.len() > 0,
        forall|i: int| 0 <= i < name.len() ==> #[trigger] name[i] != 0x2f,
        name != seq![0x2eu8],
    ensures
        components(joined(base, name)) == components(base).push(name),
{
    assert(separator_free(name));
    assert(!absolute(name));
    let empty = Seq::<u8>::empty();
    lemma_pieces_append(empty, name);
    assert(empty + name =~= name);
    assert(pieces(empty) =~= seq![empty]);
    assert(pieces(name) =~= seq![name]);
    lemma_pieces_separator_free(base);
    let full = joined(base, name);
    if base.last() != SEPARATOR {
        lemma_pieces_around(base, name);
        let p = pieces(base).push(name);
        assert(pieces(base) + pieces(name) =~= p);
        assert(p.drop_last() =~= pieces(base));
        assert(full[0] == base[0]);
        assert(components(full) =~= components(base).push(name));
    } else {
        let head = base.drop_last();
        assert(head.push(SEPARATOR) =~= base);
        lemma_pieces_around(head, name);
        lemma_pieces_separator_free(head);
        let p = pieces(head).push(name);
        assert(pieces(head) + pieces(name) =~= p);
        assert(p.drop_last() =~= pieces(head));
        let q = pieces(head).push(empty);
        assert(pieces(base) =~= q);
        assert(q.drop_last() =~= pieces(head));
        assert(component_pieces(q) =~= component_pieces(pieces(head)));
        assert(full[0] == base[0]);
        assert(components(full) =~= components(base).push(name));
    }
}

/// A separator at the end, or a `.` behind one, does not change what a path names.
pub proof fn law_separators_at_the_end_do_not_count(base: Seq<u8>)
    requires
        base.len() > 0,
    ensures
        components(base.push(0x2f)) == components(base),
        components(base + seq![0x2fu8, 0x2eu8]) == components(base),
{
    let empty = Seq::<u8>::empty();
    lemma_pieces_separator_free(base);
    let q = pieces(base).push(empty);
    assert(base.push(SEPARATOR).drop_last() =~= base);
    assert(pieces(base.push(SEPARATOR)) =~= q);
    assert(q.drop_last() =~= pieces(base));
    assert(base.push(SEPARATOR)[0] == base[0]);
    assert(components(base.push(SEPARATOR)) =~= components(base));
    let dot = seq![0x2eu8];
    lemma_pieces_append(empty, dot);
    assert(empty + dot =~= dot);
    assert(pieces(empty) =~= seq![empty]);
    assert(pieces(dot) =~= seq![dot]);
    lemma_pieces_around(base, dot);
    let full = base + seq![0x2fu8, 0x2eu8];
    assert(base.push(SEPARATOR) + dot =~= full);
    let d = pieces(base).push(dot);
    assert(pieces(base) + pieces(dot) =~= d);
    assert(d.drop_last() =~= pieces(base));
    assert(full[0] == base[0]);
    assert(components(full) =~= components(base));
}

/// What a path tells of its components is what they are, whichever way it is
/// written: two paths are the same exactly where their components are, one lies
/// below another where that one's come first in its own, and the shortest way to
/// write a path is the same for all ways.
pub proof fn law_paths_go_by_components(
    a: FsPath,
    b: &FsPath,
    list: Vec<Vec<u8>>,
    same: bool,
    below: bool,
    short_a: Vec<u8>,
    short_b: Vec<u8>,
)
    requires
        call_ensures(FsPath::components, (&a,), list),
        call_ensures(FsPath::same, (&a, b), same),
        call_ensures(FsPath::starts_with, (&a, b), below),
        call_ensures(FsPath::normalized, (&a,), short_a),
        call_ensures(FsPath::normalized, (b,), short_b),
    ensures
        list@.len() == components(a@).len(),
        forall|i: int| 0 <= i < list@.len() ==> (#[trigger] list@[i])@ == components(a@)[i],
        same <==> components(a@) == components(b@),
        below <==> components(b@).len() <= components(a@).len() && components(a@).take(
            components(b@).len() as int,
        ) == components(b@),
        short_a@ == short_b@ <==> same,
        components(short_a@) == components(a@),
{
    assert(deep(list@).len() == list@.len());
    assert forall|i: int| 0 <= i < list@.len() implies (#[trigger] list@[i])@ == components(
        a@,
    )[i] by {
        assert(deep(list@)[i] == list@[i]@);
    }
    lemma_normal_decides_same_path(a@, b@);
    lemma_normal_is_same_path(a@);
}

/// The name of a path is its last component, unless that is the root, `.` or
/// `..`; its parent has the components before the last, and only the root and the
/// empty path have none.
pub proof fn law_parents_have_one_component_less(
    path: FsPath,
    name: Option<Vec<u8>>,
    parent: Option<FsPath>,
)
    requires
        call_ensures(FsPath::file_name, (&path,), name),
        call_ensures(FsPath::parent, (&path,), parent),
    ensures
        ({
            let c = components(path@);
            &&& name is Some <==> c.len() > 0 && c.last() != seq![0x2fu8] && c.last()
                != seq![0x2eu8] && c.last() != seq![0x2eu8, 0x2eu8]
            &&& name matches Some(n) ==> n@ == c.last()
            &&& parent is Some <==> c.len() > 0 && c.last() != seq![0x2fu8]
            &&& parent matches Some(p) ==> components(p@) == c.drop_last()
        }),
{
    let c = components(path@);
    lemma_components_well_formed(path@);
    if c.len() > 0 {
        lemma_init_well_formed(c);
        lemma_components_rendered(c.drop_last());
    }
}

/// The components of an absolute path begin with the root, those of others do not.
pub proof fn law_rootedpaths_begin_at_the_root(path: Seq<u8>)
    ensures
        path.len() > 0 && path[0] == 0x2f ==> components(path).len() > 0 && components(path)[0]
            == seq![0x2fu8],
        !(path.len() > 0 && path[0] == 0x2f) && components(path).len() > 0 ==> components(path)[0]
            != seq![0x2fu8],
{
    lemma_components_well_formed(path);
    lemma_pieces_separator_free(path);
    lemma_component_pieces(pieces(path));
    if !absolute(path) && components(path).len() > 0 {
        assert(components(path)[0] == component_pieces(pieces(path))[0]);
        let first = component_pieces(pieces(path))[0];
        assert(separator_free(first));
        if first == seq![0x2fu8] {
            assert(first[0] == SEPARATOR);
        }
    }
}

/// Paths are equal exactly where they are the same path.
pub proof fn law_equal_paths_are_the_same(a: FsPath, b: FsPath, r: bool)
    requires
        call_ensures(<FsPath as PartialEq>::eq, (&a, &b), r),
    ensures
        r <==> components(a@) == components(b@),
{
}

} // verus!
