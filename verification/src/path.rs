//! Paths of selected items, held as the bytes the operating system uses for
//! them, with the component structure of Unix paths: a leading `/` is the
//! root, empty and `.` segments are skipped (but a leading `.` is the current
//! directory), `..` is the parent directory.

use vstd::prelude::*;
use vstd::utf8::*;

verus! {

pub open spec fn slash() -> u8 { 47u8 }

pub open spec fn dot() -> u8 { 46u8 }

/// One component of a path, as a mathematical value.
pub enum ComponentView {
    RootDir,
    CurDir,
    ParentDir,
    Normal(Seq<u8>),
}

/// One component of a path.
pub enum Component {
    RootDir,
    CurDir,
    ParentDir,
    Normal(Vec<u8>),
}

impl View for Component {
    type V = ComponentView;

    open spec fn view(&self) -> ComponentView {
        match self {
            Component::RootDir => ComponentView::RootDir,
            Component::CurDir => ComponentView::CurDir,
            Component::ParentDir => ComponentView::ParentDir,
            Component::Normal(b) => ComponentView::Normal(b@),
        }
    }
}

pub open spec fn components_view(v: Seq<Component>) -> Seq<ComponentView> {
    v.map_values(|c: Component| c@)
}

/// The segments of `s` between `/` separators (there is always at least one).
pub open spec fn split_segments(s: Seq<u8>) -> Seq<Seq<u8>>
    decreases s.len(),
{
    if s.len() == 0 {
        seq![Seq::<u8>::empty()]
    } else {
        let prev = split_segments(s.drop_last());
        if s.last() == slash() {
            prev.push(Seq::<u8>::empty())
        } else {
            prev.update(prev.len() - 1, prev.last().push(s.last()))
        }
    }
}

/// What a segment contributes to the components; `first` marks the segment
/// that starts the path.
pub open spec fn classify(seg: Seq<u8>, first: bool) -> Option<ComponentView> {
    if seg.len() == 0 {
        None
    } else if seg =~= seq![dot()] {
        if first { Some(ComponentView::CurDir) } else { None }
    } else if seg =~= seq![dot(), dot()] {
        Some(ComponentView::ParentDir)
    } else {
        Some(ComponentView::Normal(seg))
    }
}

pub open spec fn parts_of(segs: Seq<Seq<u8>>) -> Seq<ComponentView>
    decreases segs.len(),
{
    if segs.len() == 0 {
        seq![]
    } else {
        let rest = parts_of(segs.drop_last());
        match classify(segs.last(), segs.len() == 1) {
            Some(c) => rest.push(c),
            None => rest,
        }
    }
}

/// The components of the path whose bytes are `s`.
pub open spec fn path_components(s: Seq<u8>) -> Seq<ComponentView> {
    let root: Seq<ComponentView> = if s.len() > 0 && s[0] == slash() {
        seq![ComponentView::RootDir]
    } else {
        seq![]
    };
    root + parts_of(split_segments(s))
}

/// Two paths are the same path when they have the same components.
pub open spec fn same_path(a: Seq<u8>, b: Seq<u8>) -> bool {
    path_components(a) == path_components(b)
}

/// The final component of a path, when it is a normal name.
pub open spec fn file_name_of(s: Seq<u8>) -> Option<Seq<u8>> {
    let c = path_components(s);
    if c.len() > 0 && c.last() is Normal {
        Some(c.last()->Normal_0)
    } else {
        None
    }
}

/// The index of the last occurrence of `b` in `s`, or -1.
pub open spec fn last_index_of(s: Seq<u8>, b: u8) -> int
    decreases s.len(),
{
    if s.len() == 0 {
        -1
    } else if s.last() == b {
        s.len() - 1
    } else {
        last_index_of(s.drop_last(), b)
    }
}

/// A file name without its final extension; names without a dot, or whose
/// only dot leads them, keep their whole text.
pub open spec fn stem_of_name(name: Seq<u8>) -> Seq<u8> {
    let d = last_index_of(name, dot());
    if name =~= seq![dot(), dot()] || d <= 0 {
        name
    } else {
        name.subrange(0, d)
    }
}

pub open spec fn file_stem_of(s: Seq<u8>) -> Option<Seq<u8>> {
    match file_name_of(s) {
        Some(n) => Some(stem_of_name(n)),
        None => None,
    }
}

/// `base` extended by `tail` as a path: an absolute `tail` replaces `base`,
/// otherwise a separator is put between them unless `base` is empty or
/// already ends with one.
pub open spec fn joined(base: Seq<u8>, tail: Seq<u8>) -> Seq<u8> {
    if tail.len() > 0 && tail[0] == slash() {
        tail
    } else if base.len() > 0 && base.last() != slash() {
        base.push(slash()) + tail
    } else {
        base + tail
    }
}

/// The text of some bytes, with each invalid UTF-8 sequence replaced by
/// U+FFFD (`String::from_utf8_lossy`).
pub uninterp spec fn utf8_lossy(bytes: Seq<u8>) -> Seq<char>;

/// `String::from_utf8_lossy`: the text of the bytes, which is exactly their
/// UTF-8 decoding when they are valid UTF-8.
#[verifier::external_body]
pub(crate) fn lossy_text(bytes: &[u8]) -> (s: String)
    ensures
        s@ == utf8_lossy(bytes@),
        valid_utf8(bytes@) ==> s@ == decode_utf8(bytes@),
{
    String::from_utf8_lossy(bytes).into_owned()
}

/// The path of a selected file or folder.
#[derive(Debug)]
pub struct ItemPath {
    pub bytes: Vec<u8>,
}

impl View for ItemPath {
    type V = Seq<u8>;

    open spec fn view(&self) -> Seq<u8> {
        self.bytes@
    }
}

impl Clone for ItemPath {
    fn clone(&self) -> (r: Self)
        ensures
            r@ == self@,
    {
        let bytes = self.bytes.clone();
        assert(bytes@ =~= self.bytes@);
        ItemPath { bytes }
    }
}

impl PartialEq for ItemPath {
    fn eq(&self, other: &Self) -> (r: bool) {
        self.same_as(other)
    }
}

impl vstd::std_specs::cmp::PartialEqSpecImpl for ItemPath {
    open spec fn obeys_eq_spec() -> bool {
        true
    }

    open spec fn eq_spec(&self, other: &Self) -> bool {
        same_path(self@, other@)
    }
}

impl Eq for ItemPath {}

fn bytes_equal(a: &Vec<u8>, b: &Vec<u8>) -> (r: bool)
    ensures
        r == (a@ == b@),
{
    if a.len() != b.len() {
        return false;
    }
    let mut i: usize = 0;
    while i < a.len()
        invariant
            a@.len() == b@.len(),
            i <= a@.len(),
            forall|j: int| 0 <= j < i ==> a@[j] == b@[j],
        decreases a@.len() - i,
    {
        if a[i] != b[i] {
            return false;
        }
        i = i + 1;
    }
    assert(a@ =~= b@);
    true
}

fn component_eq(x: &Component, y: &Component) -> (r: bool)
    ensures
        r == (x@ == y@),
{
    match (x, y) {
        (Component::RootDir, Component::RootDir) => true,
        (Component::CurDir, Component::CurDir) => true,
        (Component::ParentDir, Component::ParentDir) => true,
        (Component::Normal(p), Component::Normal(q)) => bytes_equal(p, q),
        _ => false,
    }
}

fn classify_segment(seg: Vec<u8>, first: bool) -> (r: Option<Component>)
    ensures
        match r {
            Some(c) => classify(seg@, first) == Some(c@),
            None => classify(seg@, first) is None,
        },
{
    if seg.len() == 0 {
        None
    } else if seg.len() == 1 && seg[0] == 46u8 {
        assert(seg@ =~= seq![dot()]);
        if first { Some(Component::CurDir) } else { None }
    } else if seg.len() == 2 && seg[0] == 46u8 && seg[1] == 46u8 {
        assert(seg@ =~= seq![dot(), dot()]);
        Some(Component::ParentDir)
    } else {
        assert(!(seg@ =~= seq![dot()]));
        assert(!(seg@ =~= seq![dot(), dot()]));
        Some(Component::Normal(seg))
    }
}

proof fn lemma_parts_push(segs: Seq<Seq<u8>>, seg: Seq<u8>)
    ensures
        parts_of(segs.push(seg)) == match classify(seg, segs.len() == 0) {
            Some(c) => parts_of(segs).push(c),
            None => parts_of(segs),
        },
{
    assert(segs.push(seg).drop_last() =~= segs);
}

impl ItemPath {
    /// The path whose bytes are the UTF-8 encoding of `s`.
    pub fn from_str(s: &str) -> (p: ItemPath)
        ensures
            p@ == encode_utf8(s@),
    {
        let b = s.as_bytes();
        let bytes = vstd::slice::slice_to_vec(b);
        ItemPath { bytes }
    }

    pub fn from_bytes(bytes: Vec<u8>) -> (p: ItemPath)
        ensures
            p@ == bytes@,
    {
        ItemPath { bytes }
    }

    pub fn as_bytes(&self) -> (b: &[u8])
        ensures
            b@ == self@,
    {
        self.bytes.as_slice()
    }

    /// The components of this path.
    pub fn components(&self) -> (r: Vec<Component>)
        ensures
            components_view(r@) == path_components(self@),
    {
        let s = &self.bytes;
        let n = s.len();
        let mut parts: Vec<Component> = Vec::new();
        if n > 0 && s[0] == 47u8 {
            parts.push(Component::RootDir);
        }
        let ghost root = components_view(parts@);
        let mut current: Vec<u8> = Vec::new();
        let mut first = true;
        let ghost mut done: Seq<Seq<u8>> = Seq::empty();
        let mut i: usize = 0;
        assert(s@.take(0) =~= Seq::<u8>::empty());
        while i < n
            invariant
                n == s@.len(),
                i <= n,
                root == (if s@.len() > 0 && s@[0] == slash() {
                    seq![ComponentView::RootDir]
                } else {
                    Seq::<ComponentView>::empty()
                }),
                split_segments(s@.take(i as int)) == done.push(current@),
                components_view(parts@) == root + parts_of(done),
                first == (done.len() == 0),
            decreases n - i,
        {
            let b = s[i];
            proof {
                assert(s@.take(i + 1).drop_last() =~= s@.take(i as int));
                assert(s@.take(i + 1).last() == b);
            }
            if b == 47u8 {
                let mut seg: Vec<u8> = Vec::new();
                std::mem::swap(&mut seg, &mut current);
                let c = classify_segment(seg, first);
                proof {
                    lemma_parts_push(done, seg@);
                }
                match c {
                    Some(c) => {
                        let ghost before = parts@;
                        parts.push(c);
                        proof {
                            assert(components_view(parts@) =~= components_view(before).push(c@));
                            assert(components_view(parts@) =~= root + parts_of(done.push(seg@)));
                        }
                    },
                    None => {},
                }
                proof {
                    done = done.push(seg@);
                    assert(split_segments(s@.take(i + 1)) =~= done.push(current@));
                }
                first = false;
            } else {
                let ghost old_cur = current@;
                current.push(b);
                proof {
                    assert(split_segments(s@.take(i + 1)) =~= done.push(current@));
                }
            }
            i = i + 1;
        }
        proof {
            assert(s@.take(n as int) =~= s@);
            lemma_parts_push(done, current@);
        }
        let ghost last = current@;
        let c = classify_segment(current, first);
        match c {
            Some(c) => {
                let ghost before = parts@;
                parts.push(c);
                proof {
                    assert(components_view(parts@) =~= components_view(before).push(c@));
                    assert(components_view(parts@) =~= root + parts_of(done.push(last)));
                }
            },
            None => {},
        }
        parts
    }

    /// Whether two paths name the same place, component by component.
    pub fn same_as(&self, other: &ItemPath) -> (r: bool)
        ensures
            r == same_path(self@, other@),
    {
        let a = self.components();
        let b = other.components();
        if a.len() != b.len() {
            assert(components_view(a@).len() != components_view(b@).len());
            return false;
        }
        let mut i: usize = 0;
        while i < a.len()
            invariant
                a@.len() == b@.len(),
                i <= a@.len(),
                forall|j: int| 0 <= j < i ==> a@[j]@ == b@[j]@,
                components_view(a@) == path_components(self@),
                components_view(b@) == path_components(other@),
            decreases a@.len() - i,
        {
            let same = component_eq(&a[i], &b[i]);
            if !same {
                assert(components_view(a@)[i as int] == a@[i as int]@);
                assert(components_view(b@)[i as int] == b@[i as int]@);
                assert(components_view(a@)[i as int] != components_view(b@)[i as int]);
                assert(components_view(a@) != components_view(b@));
                return false;
            }
            i = i + 1;
        }
        assert(components_view(a@) =~= components_view(b@));
        true
    }

    /// The final component of the path, when it is a normal name.
    pub fn file_name(&self) -> (r: Option<Vec<u8>>)
        ensures
            match r {
                Some(n) => file_name_of(self@) == Some(n@),
                None => file_name_of(self@) is None,
            },
    {
        let mut parts = self.components();
        let ghost v = components_view(parts@);
        match parts.pop() {
            Some(Component::Normal(n)) => {
                assert(v.last() == ComponentView::Normal(n@));
                Some(n)
            },
            Some(c) => {
                assert(v.last() == c@);
                None
            },
            None => None,
        }
    }

    /// The file name without its final extension.
    pub fn file_stem(&self) -> (r: Option<Vec<u8>>)
        ensures
            match r {
                Some(n) => file_stem_of(self@) == Some(n@),
                None => file_stem_of(self@) is None,
            },
    {
        match self.file_name() {
            Some(name) => Some(stem_bytes(name)),
            None => None,
        }
    }

    /// This path extended by `tail` (`PathBuf::join`).
    pub fn join(&self, tail: &ItemPath) -> (r: ItemPath)
        ensures
            r@ == joined(self@, tail@),
    {
        if tail.bytes.len() > 0 && tail.bytes[0] == 47u8 {
            return tail.clone();
        }
        let mut bytes = self.bytes.clone();
        assert(bytes@ =~= self@);
        if bytes.len() > 0 && bytes[bytes.len() - 1] != 47u8 {
            bytes.push(47u8);
        }
        let ghost base = bytes@;
        let mut i: usize = 0;
        while i < tail.bytes.len()
            invariant
                i <= tail@.len(),
                bytes@ == base + tail@.subrange(0, i as int),
            decreases tail@.len() - i,
        {
            bytes.push(tail.bytes[i]);
            assert(tail@.subrange(0, i + 1) =~= tail@.subrange(0, i as int).push(tail@[i as int]));
            i = i + 1;
        }
        assert(tail@.subrange(0, tail@.len() as int) =~= tail@);
        ItemPath { bytes }
    }

    /// The text of the whole path, as the path is displayed.
    pub fn display(&self) -> (s: String)
        ensures
            s@ == utf8_lossy(self@),
    {
        lossy_text(self.bytes.as_slice())
    }
}

fn stem_bytes(name: Vec<u8>) -> (r: Vec<u8>)
    ensures
        r@ == stem_of_name(name@),
{
    if name.len() == 2 && name[0] == 46u8 && name[1] == 46u8 {
        assert(name@ =~= seq![dot(), dot()]);
        return name;
    }
    assert(!(name@ =~= seq![dot(), dot()]));
    // Scan from the end for the last dot.
    let mut k: usize = name.len();
    assert(name@.subrange(0, k as int) =~= name@);
    while k > 0
        invariant
            k <= name@.len(),
            last_index_of(name@, dot()) == last_index_of(name@.subrange(0, k as int), dot()),
            !(name@ =~= seq![dot(), dot()]),
        decreases k,
    {
        let ghost pre = name@.subrange(0, k as int);
        assert(pre.drop_last() =~= name@.subrange(0, k - 1));
        if name[k - 1] == 46u8 {
            let d = k - 1;
            assert(pre.last() == dot());
            assert(last_index_of(name@, dot()) == d);
            if d == 0 {
                return name;
            }
            let mut out: Vec<u8> = Vec::new();
            let mut i: usize = 0;
            while i < d
                invariant
                    d < name@.len(),
                    i <= d,
                    d > 0,
                    last_index_of(name@, dot()) == d,
                    !(name@ =~= seq![dot(), dot()]),
                    out@ == name@.subrange(0, i as int),
                decreases d - i,
            {
                out.push(name[i]);
                assert(name@.subrange(0, i + 1) =~= name@.subrange(0, i as int).push(name@[i as int]));
                i = i + 1;
            }
            return out;
        }
        k = k - 1;
    }
    assert(name@.subrange(0, 0) =~= Seq::<u8>::empty());
    name
}

} // verus!
