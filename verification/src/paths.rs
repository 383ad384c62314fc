//! Paths: putting them together, as texts, and taking them apart, as the bytes that
//! the operating system knows them by.

use vstd::prelude::*;
use vstd::slice::slice_subrange;

verus! {

// ---- texts ------------------------------------------------------------------

/// `path` begins at the root.
pub open spec fn absolute(path: Seq<char>) -> bool {
    path.len() > 0 && path[0] == '/'
}

/// Whether `path` begins at the root.
pub fn is_absolute(path: &str) -> (result: bool)
    ensures
        result == absolute(path@),
{
    path.unicode_len() > 0 && path.get_char(0) == '/'
}

/// `leaf` below `base`. An absolute leaf stands for itself, and a base that is
/// empty or ends in a separator needs no other.
pub open spec fn path_joined(base: Seq<char>, leaf: Seq<char>) -> Seq<char> {
    if absolute(leaf) {
        leaf
    } else if base.len() == 0 || base.last() == '/' {
        base + leaf
    } else {
        base + "/"@ + leaf
    }
}

/// `leaf` below `base`.
pub fn join_path(base: &str, leaf: &str) -> (result: String)
    ensures
        result@ == path_joined(base@, leaf@),
{
    if is_absolute(leaf) {
        return leaf.to_string();
    }
    let mut result = base.to_string();
    let length: usize = base.unicode_len();
    if length > 0 && base.get_char(length - 1) != '/' {
        result.append("/");
    }
    result.append(leaf);
    result
}

// ---- bytes ------------------------------------------------------------------

/// The byte that parts the names in a path.
pub const SEPARATOR: u8 = 47;

/// The byte of a name that stands for the directory itself.
pub const DOT: u8 = 46;

/// A path that the operating system reported: the bytes that it is made of, and the
/// text that it is shown as.
#[derive(Debug)]
pub struct PathText {
    pub text: String,
    pub bytes: Vec<u8>,
}

impl PathText {
    /// The text is the path. Otherwise the path cannot be written as text, and the
    /// text only resembles it.
    pub open spec fn exact(self) -> bool {
        self.bytes@ == vstd::utf8::encode_utf8(self.text@)
    }

    /// The two are the same path.
    pub open spec fn same(self, other: PathText) -> bool {
        self.text == other.text && self.bytes@ == other.bytes@
    }

    /// The same path once more.
    pub fn copy(&self) -> (path: PathText)
        ensures
            path.same(*self),
    {
        let bytes = self.bytes.clone();
        assert(bytes@ =~= self.bytes@);
        PathText { text: self.text.clone(), bytes }
    }

    /// Whether the text is the path.
    pub fn is_exact(&self) -> (result: bool)
        ensures
            result == self.exact(),
    {
        same_bytes(self.bytes.as_slice(), self.text.as_str().as_bytes())
    }
}

fn same_bytes(left: &[u8], right: &[u8]) -> (result: bool)
    ensures
        result == (left@ == right@),
{
    if left.len() != right.len() {
        return false;
    }
    let mut i: usize = 0;
    while i < left.len()
        invariant
            i <= left@.len(),
            left@.len() == right@.len(),
            forall|j: int| 0 <= j < i ==> left@[j] == right@[j],
        decreases left@.len() - i,
    {
        if left[i] != right[i] {
            return false;
        }
        i += 1;
    }
    assert(left@ =~= right@);
    true
}

/// The path begins at the root.
pub open spec fn rooted(path: Seq<u8>) -> bool {
    path.len() > 0 && path[0] == SEPARATOR
}

/// Whether the path begins at the root.
pub fn is_rooted(path: &[u8]) -> (result: bool)
    ensures
        result == rooted(path@),
{
    path.len() > 0 && path[0] == SEPARATOR
}

/// The names in `path`, in order. A name that is empty, or that is a single dot,
/// says nothing; but `keep_dot` keeps a dot that comes first.
pub open spec fn names_in(path: Seq<u8>, keep_dot: bool) -> Seq<Seq<u8>>
    decreases path.len(),
{
    if path.len() == 0 {
        Seq::empty()
    } else {
        let end = crate::text::first_index(path, SEPARATOR);
        let name = path.take(end as int);
        let rest = if end < path.len() {
            names_in(path.skip((end + 1) as int), false)
        } else {
            Seq::empty()
        };
        if says_something(name, keep_dot) {
            seq![name] + rest
        } else {
            rest
        }
    }
}

/// A name that counts as a component.
pub open spec fn says_something(name: Seq<u8>, keep_dot: bool) -> bool {
    name.len() > 0 && (name != seq![DOT] || keep_dot)
}

/// The components of `path`: the root, where it begins there, and its names.
pub open spec fn components_of(path: Seq<u8>) -> Seq<Seq<u8>> {
    if rooted(path) {
        seq![seq![SEPARATOR]] + names_in(path, false)
    } else {
        names_in(path, true)
    }
}

/// `path` is `base` or stands below it, component by component.
pub open spec fn path_within(path: Seq<u8>, base: Seq<u8>) -> bool {
    components_of(base).is_prefix_of(components_of(path))
}

/// The bytes of each slice.
pub open spec fn slices_of(slices: Seq<&[u8]>) -> Seq<Seq<u8>> {
    Seq::new(slices.len(), |i: int| slices[i]@)
}

/// The components of `path`.
pub fn components<'a>(path: &'a [u8]) -> (result: Vec<&'a [u8]>)
    ensures
        slices_of(result@) == components_of(path@),
{
    let mut result: Vec<&'a [u8]> = Vec::new();
    let mut keep_dot: bool = true;
    if is_rooted(path) {
        let root = slice_subrange(path, 0, 1);
        assert(root@ =~= seq![SEPARATOR]);
        result.push(root);
        keep_dot = false;
    }
    let mut start: usize = 0;
    assert(path@.skip(0) =~= path@);
    assert(components_of(path@) =~= slices_of(result@) + names_in(path@, keep_dot));
    while start < path.len()
        invariant
            start <= path@.len(),
            components_of(path@) =~= slices_of(result@) + names_in(
                path@.skip(start as int),
                keep_dot,
            ),
        decreases path@.len() - start,
    {
        let ghost rest = path@.skip(start as int);
        let ghost before = slices_of(result@);
        let mut end: usize = start;
        while end < path.len() && path[end] != SEPARATOR
            invariant
                start <= end <= path@.len(),
                forall|i: int| start <= i < end ==> path@[i] != SEPARATOR,
            decreases path@.len() - end,
        {
            end += 1;
        }
        proof {
            crate::text::lemma_first_index_is(rest, SEPARATOR, end - start);
        }
        let name = slice_subrange(path, start, end);
        assert(name@ =~= rest.take(end - start));
        let dot: bool = end == start + 1 && path[start] == DOT;
        assert(dot == (name@ =~= seq![DOT]));
        if end > start && (!dot || keep_dot) {
            result.push(name);
            assert(slices_of(result@) =~= before + seq![name@]);
        }
        if end < path.len() {
            assert(rest.skip(end - start + 1) =~= path@.skip(end + 1));
            start = end + 1;
        } else {
            start = end;
        }
        keep_dot = false;
        assert(path@.skip(path@.len() as int) =~= Seq::<u8>::empty());
    }
    assert(path@.skip(start as int) =~= Seq::<u8>::empty());
    result
}

/// Whether `path` is `base` or stands below it.
pub fn is_within(path: &[u8], base: &[u8]) -> (result: bool)
    ensures
        result == path_within(path@, base@),
{
    let whole = components(path);
    let front = components(base);
    if front.len() > whole.len() {
        return false;
    }
    let mut i: usize = 0;
    while i < front.len()
        invariant
            i <= front@.len() <= whole@.len(),
            slices_of(whole@) == components_of(path@),
            slices_of(front@) == components_of(base@),
            forall|j: int| 0 <= j < i ==> slices_of(front@)[j] == slices_of(whole@)[j],
        decreases front@.len() - i,
    {
        if !same_bytes(front[i], whole[i]) {
            assert(components_of(base@)[i as int] != components_of(path@)[i as int]);
            return false;
        }
        i += 1;
    }
    true
}

// ---- what stands below what -------------------------------------------------

/// A separator parts a path: the names before it come first, and then those behind it.
proof fn lemma_names_in_parts(front: Seq<u8>, back: Seq<u8>, keep_dot: bool)
    ensures
        names_in(front + seq![SEPARATOR] + back, keep_dot) == names_in(front, keep_dot) + names_in(
            back,
            false,
        ),
    decreases front.len(),
{
    let path = front + seq![SEPARATOR] + back;
    let end = crate::text::first_index(front, SEPARATOR) as int;
    crate::text::lemma_first_index(front, SEPARATOR);
    assert(path[front.len() as int] == SEPARATOR);
    assert forall|i: int| 0 <= i < end implies path[i] != SEPARATOR by {
        assert(path[i] == front[i]);
    }
    if end < front.len() {
        assert(path[end] == front[end]);
        crate::text::lemma_first_index_is(path, SEPARATOR, end);
        assert(path.take(end) =~= front.take(end));
        assert(path.skip(end + 1) =~= front.skip(end + 1) + seq![SEPARATOR] + back);
        lemma_names_in_parts(front.skip(end + 1), back, false);
        assert(names_in(path, keep_dot) =~= names_in(front, keep_dot) + names_in(back, false));
    } else {
        crate::text::lemma_first_index_is(path, SEPARATOR, end);
        assert(path.take(end) =~= front);
        assert(front.take(end) =~= front);
        assert(path.skip(end + 1) =~= back);
        assert(names_in(path, keep_dot) =~= names_in(front, keep_dot) + names_in(back, false));
    }
}

/// What stands below a directory that begins at the root is within it, at any depth;
/// and so is the directory itself.
pub proof fn below_is_within(base: Seq<u8>, leaf: Seq<u8>)
    requires
        rooted(base),
    ensures
        path_within(base + seq![SEPARATOR] + leaf, base),
        path_within(base, base),
{
    let path = base + seq![SEPARATOR] + leaf;
    lemma_names_in_parts(base, leaf, false);
    assert(path[0] == base[0]);
    let whole = components_of(path);
    let front = components_of(base);
    assert(whole =~= front + names_in(leaf, false));
    assert(whole.subrange(0, front.len() as int) =~= front);
    assert(front.subrange(0, front.len() as int) =~= front);
}

/// A neighbour whose name only begins like the directory's is not within it.
pub proof fn neighbours_are_not_within(parent: Seq<u8>, name: Seq<u8>, more: Seq<u8>)
    requires
        parent.len() > 0 ==> rooted(parent),
        name.len() > 0,
        !name.contains(SEPARATOR),
        name != seq![DOT],
        more.len() > 0,
        more[0] != SEPARATOR,
    ensures
        !path_within(
            parent + seq![SEPARATOR] + (name + more),
            parent + seq![SEPARATOR] + name,
        ),
{
    let base = parent + seq![SEPARATOR] + name;
    let path = parent + seq![SEPARATOR] + (name + more);
    let longer = name + more;
    lemma_names_in_parts(parent, name, false);
    lemma_names_in_parts(parent, longer, false);
    assert(rooted(base) && rooted(path)) by {
        if parent.len() > 0 {
            assert(base[0] == parent[0]);
            assert(path[0] == parent[0]);
        } else {
            assert(base[0] == SEPARATOR);
            assert(path[0] == SEPARATOR);
        }
    }
    assert forall|i: int| 0 <= i < name.len() implies name[i] != SEPARATOR by {
        assert(name.contains(name[i]));
    }
    crate::text::lemma_first_index_is(name, SEPARATOR, name.len() as int);
    assert(name.take(name.len() as int) =~= name);
    assert(names_in(name, false) =~= seq![name]);
    let end = crate::text::first_index(longer, SEPARATOR) as int;
    crate::text::lemma_first_index(longer, SEPARATOR);
    assert(end > name.len()) by {
        if end < name.len() {
            assert(longer[end] == name[end]);
        } else if end == name.len() && end < longer.len() {
            assert(longer[end] == more[0]);
        }
    }
    let first = longer.take(end);
    assert(first.len() > 1);
    assert(says_something(first, false)) by {
        assert(first.len() != seq![DOT].len());
    }
    let root = seq![seq![SEPARATOR]];
    let above = names_in(parent, false);
    let at = (1 + above.len()) as int;
    assert(components_of(base) =~= root + (above + seq![name]));
    assert(components_of(base)[at] == name);
    assert(names_in(longer, false)[0] == first);
    assert(components_of(path)[at] == first);
    assert(first.len() != name.len());
    if path_within(path, base) {
        let shared = components_of(path).subrange(0, components_of(base).len() as int);
        assert(shared[at] == components_of(path)[at]);
    }
}

} // verus!
