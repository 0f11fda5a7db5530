//! Unix paths: byte strings that are read as sequences of components.
use crate::order;
use crate::text;
use vstd::prelude::*;
use vstd::utf8::*;

verus! {

/// The byte that separates the components of a path.
pub const SLASH: u8 = 0x2f;

/// The byte that starts an extension.
pub const DOT: u8 = 0x2e;

/// A path as the operating system holds it: bytes that need not be UTF-8.
#[derive(Debug, PartialEq, Eq)]
pub struct UnixPath {
    pub bytes: Vec<u8>,
}

impl View for UnixPath {
    type V = Seq<u8>;

    open spec fn view(&self) -> Seq<u8> {
        self.bytes@
    }
}

/// The byte strings of a list of paths.
pub open spec fn path_bytes(paths: Seq<UnixPath>) -> Seq<Seq<u8>> {
    Seq::new(paths.len(), |i: int| paths[i]@)
}

/// One component of a path.
pub enum Component {
    RootDir,
    CurDir,
    ParentDir,
    Normal(Seq<u8>),
}

/// The pieces between the separators of a path.
pub open spec fn pieces(path: Seq<u8>) -> Seq<Seq<u8>>
    decreases path.len(),
{
    if path.len() == 0 {
        seq![Seq::empty()]
    } else {
        let before = pieces(path.drop_last());
        if path.last() == SLASH {
            before.push(Seq::empty())
        } else {
            before.drop_last().push(before.last().push(path.last()))
        }
    }
}

/// The components that pieces stand for: empty pieces and `.` stand for none.
pub open spec fn named_parts(pieces: Seq<Seq<u8>>) -> Seq<Component>
    decreases pieces.len(),
{
    if pieces.len() == 0 {
        Seq::empty()
    } else {
        named_parts(pieces.drop_last()) + named_part(pieces.last())
    }
}

/// The component that one piece stands for, if any.
pub open spec fn named_part(piece: Seq<u8>) -> Seq<Component> {
    if piece.len() == 0 || piece == seq![DOT] {
        Seq::empty()
    } else if piece == seq![DOT, DOT] {
        seq![Component::ParentDir]
    } else {
        seq![Component::Normal(piece)]
    }
}

/// The component that the beginning of a path stands for: its root, or an explicit `.`.
pub open spec fn leading_part(path: Seq<u8>) -> Seq<Component> {
    if path.len() > 0 && path[0] == SLASH {
        seq![Component::RootDir]
    } else if path.len() > 0 && path[0] == DOT && (path.len() == 1 || path[1] == SLASH) {
        seq![Component::CurDir]
    } else {
        Seq::empty()
    }
}

/// The components of a path.
pub open spec fn components(path: Seq<u8>) -> Seq<Component> {
    leading_part(path) + named_parts(pieces(path))
}

/// The last component of a path, where that is a name.
pub open spec fn file_name(path: Seq<u8>) -> Option<Seq<u8>> {
    let parts = components(path);
    if parts.len() > 0 {
        match parts.last() {
            Component::Normal(name) => Some(name),
            _ => None,
        }
    } else {
        None
    }
}

/// The place of the last dot in a name, or -1.
pub open spec fn last_dot(name: Seq<u8>) -> int
    decreases name.len(),
{
    if name.len() == 0 {
        -1
    } else if name.last() == DOT {
        name.len() - 1
    } else {
        last_dot(name.drop_last())
    }
}

/// What follows the last dot of the file name; a dot that begins the name starts no extension.
pub open spec fn extension(path: Seq<u8>) -> Option<Seq<u8>> {
    match file_name(path) {
        Some(name) => if last_dot(name) > 0 {
            Some(name.skip(last_dot(name) + 1))
        } else {
            None
        },
        None => None,
    }
}

/// `name` below `dir`: an absolute `name` replaces `dir`.
pub open spec fn join(dir: Seq<u8>, name: Seq<u8>) -> Seq<u8> {
    if name.len() > 0 && name[0] == SLASH {
        name
    } else if dir.len() == 0 || dir.last() == SLASH {
        dir + name
    } else {
        dir.push(SLASH) + name
    }
}

/// The rank of a kind of component in the order of paths.
pub open spec fn part_rank(part: Component) -> int {
    match part {
        Component::RootDir => 0,
        Component::CurDir => 1,
        Component::ParentDir => 2,
        Component::Normal(_) => 3,
    }
}

/// Components are ordered by their kind, and names among themselves by their bytes.
pub open spec fn part_less(a: Component, b: Component) -> bool {
    match (a, b) {
        (Component::Normal(x), Component::Normal(y)) => order::bytes_less(x, y),
        _ => part_rank(a) < part_rank(b),
    }
}

/// Lexicographic order of sequences of components.
pub open spec fn parts_less(a: Seq<Component>, b: Seq<Component>) -> bool
    decreases b.len(),
{
    b.len() > 0 && (a.len() == 0 || part_less(a[0], b[0]) || (a[0] == b[0] && parts_less(
        a.drop_first(),
        b.drop_first(),
    )))
}

/// Paths are ordered component by component.
pub open spec fn path_less(a: Seq<u8>, b: Seq<u8>) -> bool {
    parts_less(components(a), components(b))
}

/// Whether a path spells a name that stands for itself: one component, with no separator.
pub open spec fn is_plain_name(name: Seq<u8>) -> bool {
    name.len() > 0 && !name.contains(SLASH) && name != seq![DOT] && name != seq![DOT, DOT]
}

/// An owned component of a path.
pub enum PathPart {
    RootDir,
    CurDir,
    ParentDir,
    Normal(Vec<u8>),
}

impl View for PathPart {
    type V = Component;

    open spec fn view(&self) -> Component {
        match self {
            PathPart::RootDir => Component::RootDir,
            PathPart::CurDir => Component::CurDir,
            PathPart::ParentDir => Component::ParentDir,
            PathPart::Normal(name) => Component::Normal(name@),
        }
    }
}

/// The components that owned parts stand for.
pub open spec fn part_views(parts: Seq<PathPart>) -> Seq<Component> {
    Seq::new(parts.len(), |i: int| parts[i]@)
}

proof fn part_views_push(parts: Seq<PathPart>, part: PathPart)
    ensures
        part_views(parts.push(part)) == part_views(parts).push(part@),
{
    assert(part_views(parts.push(part)) =~= part_views(parts).push(part@));
}

/// Every path has a piece.
proof fn pieces_nonempty(path: Seq<u8>)
    ensures
        pieces(path).len() > 0,
    decreases path.len(),
{
    if path.len() > 0 {
        pieces_nonempty(path.drop_last());
    }
}

/// No component comes before itself.
pub proof fn part_less_irreflexive(a: Component)
    ensures
        !part_less(a, a),
{
    if let Component::Normal(x) = a {
        order::bytes_less_irreflexive(x);
    }
}

/// The order of components is transitive.
pub proof fn part_less_transitive(a: Component, b: Component, c: Component)
    requires
        part_less(a, b),
        part_less(b, c),
    ensures
        part_less(a, c),
{
    match (a, b, c) {
        (Component::Normal(x), Component::Normal(y), Component::Normal(z)) => {
            order::bytes_less_transitive(x, y, z);
        },
        _ => {},
    }
}

/// Two different components always come one before the other.
pub proof fn part_less_total(a: Component, b: Component)
    ensures
        part_less(a, b) || part_less(b, a) || a == b,
{
    match (a, b) {
        (Component::Normal(x), Component::Normal(y)) => {
            order::bytes_less_total(x, y);
        },
        _ => {},
    }
}

/// No sequence of components comes before itself.
pub proof fn parts_less_irreflexive(a: Seq<Component>)
    ensures
        !parts_less(a, a),
    decreases a.len(),
{
    if a.len() > 0 {
        part_less_irreflexive(a[0]);
        parts_less_irreflexive(a.drop_first());
    }
}

/// The order of sequences of components is transitive.
pub proof fn parts_less_transitive(a: Seq<Component>, b: Seq<Component>, c: Seq<Component>)
    requires
        parts_less(a, b),
        parts_less(b, c),
    ensures
        parts_less(a, c),
    decreases a.len(),
{
    if a.len() > 0 {
        if part_less(a[0], b[0]) && part_less(b[0], c[0]) {
            part_less_transitive(a[0], b[0], c[0]);
        } else if a[0] == b[0] && b[0] == c[0] && !part_less(a[0], b[0]) && !part_less(b[0], c[0]) {
            parts_less_transitive(a.drop_first(), b.drop_first(), c.drop_first());
        }
    }
}

/// Two different sequences of components always come one before the other.
pub proof fn parts_less_total(a: Seq<Component>, b: Seq<Component>)
    ensures
        parts_less(a, b) || parts_less(b, a) || a == b,
    decreases a.len(),
{
    if a.len() == 0 {
        assert(b.len() == 0 ==> a =~= b);
    } else if b.len() > 0 {
        part_less_total(a[0], b[0]);
        if a[0] == b[0] {
            parts_less_total(a.drop_first(), b.drop_first());
            if a.drop_first() == b.drop_first() {
                assert(a =~= seq![a[0]] + a.drop_first());
                assert(b =~= seq![b[0]] + b.drop_first());
            }
        }
    }
}

/// Files of one directory are ordered by their names.
pub proof fn siblings_are_ordered_by_name(dir: Seq<u8>, a: Seq<u8>, b: Seq<u8>)
    requires
        is_plain_name(a),
        is_plain_name(b),
    ensures
        path_less(join(dir, a), join(dir, b)) <==> order::bytes_less(a, b),
{
    join_appends_component(dir, a);
    join_appends_component(dir, b);
    last_part_decides(components(dir), Component::Normal(a), Component::Normal(b));
}

proof fn last_part_decides(parts: Seq<Component>, a: Component, b: Component)
    ensures
        parts_less(parts.push(a), parts.push(b)) <==> part_less(a, b),
    decreases parts.len(),
{
    let (x, y) = (parts.push(a), parts.push(b));
    if parts.len() == 0 {
        assert(x[0] == a && y[0] == b);
        assert(!parts_less(x.drop_first(), y.drop_first()));
    } else {
        assert(x[0] == parts[0] && y[0] == parts[0]);
        part_less_irreflexive(parts[0]);
        last_part_decides(parts.drop_first(), a, b);
        assert(x.drop_first() =~= parts.drop_first().push(a));
        assert(y.drop_first() =~= parts.drop_first().push(b));
    }
}

/// Appending to a path text that holds no separator extends the last piece.
proof fn pieces_append(path: Seq<u8>, name: Seq<u8>)
    requires
        !name.contains(SLASH),
    ensures
        pieces(path + name) == pieces(path).drop_last().push(pieces(path).last() + name),
    decreases name.len(),
{
    pieces_nonempty(path);
    if name.len() == 0 {
        assert(path + name =~= path);
        assert(pieces(path).last() + name =~= pieces(path).last());
        assert(pieces(path) =~= pieces(path).drop_last().push(pieces(path).last()));
    } else {
        assert(name.contains(name.last()));
        assert forall|x: u8| name.drop_last().contains(x) implies name.contains(x) by {
            let i = choose|i: int| 0 <= i < name.drop_last().len() && name.drop_last()[i] == x;
            assert(name[i] == x);
        }
        pieces_append(path, name.drop_last());
        assert((path + name).drop_last() =~= path + name.drop_last());
        let before = pieces(path + name.drop_last());
        assert(before.drop_last() =~= pieces(path).drop_last());
        assert(before.last().push(name.last()) =~= pieces(path).last() + name);
    }
}

/// A plain name below a directory is the file name of the joined path, and the directory's
/// components stand before it.
pub proof fn join_appends_component(dir: Seq<u8>, name: Seq<u8>)
    requires
        is_plain_name(name),
    ensures
        components(join(dir, name)) == components(dir).push(Component::Normal(name)),
        file_name(join(dir, name)) == Some(name),
{
    assert(name.contains(name[0]));
    let path = join(dir, name);
    let base = if dir.len() == 0 || dir.last() == SLASH {
        dir
    } else {
        dir.push(SLASH)
    };
    assert(path == base + name);
    pieces_nonempty(dir);
    pieces_nonempty(base);
    assert(named_parts(pieces(base)) == named_parts(pieces(dir)) && pieces(base).last().len() == 0
        && named_parts(pieces(base).drop_last()) == named_parts(pieces(dir))) by {
        if dir.len() == 0 {
            assert(pieces(base).drop_last() =~= Seq::<Seq<u8>>::empty());
            assert(named_parts(pieces(base).drop_last()) =~= Seq::<Component>::empty());
            assert(pieces(base) =~= pieces(base).drop_last().push(Seq::empty()));
            assert(named_parts(pieces(base)) =~= Seq::<Component>::empty());
        } else if dir.last() == SLASH {
            assert(pieces(base).drop_last() =~= pieces(dir.drop_last()));
            assert(named_parts(pieces(base)) =~= named_parts(pieces(dir.drop_last())));
        } else {
            assert(base.drop_last() =~= dir);
            assert(pieces(base).drop_last() =~= pieces(dir));
            assert(named_parts(pieces(base)) =~= named_parts(pieces(dir)));
        }
    }
    pieces_append(base, name);
    assert(pieces(base).last() + name =~= name);
    let all = pieces(path);
    assert(all.drop_last() =~= pieces(base).drop_last());
    assert(named_parts(all) =~= named_parts(pieces(dir)).push(Component::Normal(name)));
    assert(leading_part(path) =~= leading_part(dir)) by {
        if dir.len() == 0 {
            assert(path =~= name);
            if name[0] == DOT && name.len() > 1 {
                assert(name.contains(name[1]));
            }
            if name.len() == 1 && name[0] == DOT {
                assert(name =~= seq![DOT]);
            }
        } else {
            assert(path[0] == dir[0]);
            if dir.len() > 1 {
                assert(path[1] == dir[1]);
            }
        }
    }
    assert(components(path) =~= components(dir).push(Component::Normal(name)));
}

/// A file name is never empty, holds no separator and is neither `.` nor `..`.
pub proof fn file_name_is_plain(path: Seq<u8>)
    ensures
        file_name(path) matches Some(name) ==> is_plain_name(name),
{
    let parts = components(path);
    let named = named_parts(pieces(path));
    if parts.len() > 0 {
        if named.len() > 0 {
            assert(parts.last() == named.last());
            pieces_hold_no_slash(path);
            names_are_plain(pieces(path));
        } else {
            assert(parts =~= leading_part(path));
        }
    }
}

proof fn pieces_hold_no_slash(path: Seq<u8>)
    ensures
        forall|i: int| 0 <= i < pieces(path).len() ==> !#[trigger] pieces(path)[i].contains(SLASH),
    decreases path.len(),
{
    if path.len() > 0 {
        pieces_hold_no_slash(path.drop_last());
        pieces_nonempty(path.drop_last());
        let before = pieces(path.drop_last());
        assert forall|i: int| 0 <= i < pieces(path).len() implies !#[trigger] pieces(
            path,
        )[i].contains(SLASH) by {
            if path.last() != SLASH && i == pieces(path).len() - 1 {
                let piece = before.last().push(path.last());
                assert(!before[before.len() - 1].contains(SLASH));
                if piece.contains(SLASH) {
                    let k = choose|k: int| 0 <= k < piece.len() && piece[k] == SLASH;
                    assert(before.last()[k] == SLASH);
                }
            } else if i < before.len() {
                assert(pieces(path)[i] == before[i]);
            }
        }
    }
}

proof fn names_are_plain(pieces: Seq<Seq<u8>>)
    requires
        forall|i: int| 0 <= i < pieces.len() ==> !#[trigger] pieces[i].contains(SLASH),
    ensures
        forall|i: int|
            0 <= i < named_parts(pieces).len() ==> (#[trigger] named_parts(
                pieces,
            )[i] matches Component::Normal(name) ==> is_plain_name(name)),
    decreases pieces.len(),
{
    if pieces.len() > 0 {
        assert forall|i: int| 0 <= i < pieces.drop_last().len() implies !#[trigger] pieces.drop_last()[i].contains(SLASH) by {
            assert(pieces.drop_last()[i] == pieces[i]);
        }
        names_are_plain(pieces.drop_last());
        assert(!pieces[pieces.len() - 1].contains(SLASH));
        let before = named_parts(pieces.drop_last());
        assert forall|i: int| 0 <= i < named_parts(pieces).len() implies (#[trigger] named_parts(
            pieces,
        )[i] matches Component::Normal(name) ==> is_plain_name(name)) by {
            if i < before.len() {
                assert(named_parts(pieces)[i] == before[i]);
            }
        }
    }
}

/// Appends the component that `piece` stands for.
fn push_part(parts: &mut Vec<PathPart>, piece: Vec<u8>)
    ensures
        part_views(final(parts)@) == part_views(old(parts)@) + named_part(piece@),
{
    if piece.len() == 0 || (piece.len() == 1 && piece[0] == DOT) {
        proof {
            assert(piece.len() == 1 ==> piece@ =~= seq![DOT]);
            assert(part_views(parts@) =~= part_views(parts@) + Seq::<Component>::empty());
        }
    } else if piece.len() == 2 && piece[0] == DOT && piece[1] == DOT {
        proof {
            assert(piece@ =~= seq![DOT, DOT]);
            part_views_push(parts@, PathPart::ParentDir);
        }
        parts.push(PathPart::ParentDir);
        assert(part_views(parts@) =~= part_views(old(parts)@) + seq![Component::ParentDir]);
    } else {
        proof {
            part_views_push(parts@, PathPart::Normal(piece));
        }
        let ghost name = piece@;
        parts.push(PathPart::Normal(piece));
        assert(part_views(parts@) =~= part_views(old(parts)@) + seq![Component::Normal(name)]);
    }
}

impl UnixPath {
    /// The path that a text spells.
    pub fn from_text(text: &str) -> (path: UnixPath)
        ensures
            path@ == encode_utf8(text@),
    {
        UnixPath { bytes: text.as_bytes_vec() }
    }

    /// The components of the path: repeated and trailing separators do not count, nor does `.`
    /// anywhere but at the beginning.
    pub fn parts(&self) -> (parts: Vec<PathPart>)
        ensures
            part_views(parts@) == components(self@),
    {
        let n = self.bytes.len();
        let ghost b = self.bytes@;
        let mut parts: Vec<PathPart> = Vec::new();
        if n > 0 && self.bytes[0] == SLASH {
            parts.push(PathPart::RootDir);
        } else if n > 0 && self.bytes[0] == DOT && (n == 1 || self.bytes[1] == SLASH) {
            parts.push(PathPart::CurDir);
        }
        proof {
            assert(part_views(parts@) =~= leading_part(b));
            assert(b.take(0) =~= Seq::<u8>::empty());
            assert(pieces(b.take(0)).drop_last() =~= Seq::<Seq<u8>>::empty());
            assert(part_views(parts@) =~= leading_part(b) + named_parts(
                pieces(b.take(0)).drop_last(),
            ));
        }
        let mut piece: Vec<u8> = Vec::new();
        let mut i: usize = 0;
        while i < n
            invariant
                b == self.bytes@,
                n == b.len(),
                i <= n,
                piece@ == pieces(b.take(i as int)).last(),
                part_views(parts@) == leading_part(b) + named_parts(
                    pieces(b.take(i as int)).drop_last(),
                ),
            decreases n - i,
        {
            proof {
                assert(b.take(i + 1).drop_last() =~= b.take(i as int));
                pieces_nonempty(b.take(i as int));
            }
            let ghost before = pieces(b.take(i as int));
            if self.bytes[i] == SLASH {
                proof {
                    assert(before.push(Seq::empty()).drop_last() =~= before);
                }
                push_part(&mut parts, piece);
                piece = Vec::new();
                assert(part_views(parts@) =~= leading_part(b) + named_parts(before));
            } else {
                piece.push(self.bytes[i]);
                assert(pieces(b.take(i + 1)).drop_last() =~= before.drop_last());
            }
            i = i + 1;
        }
        proof {
            assert(b.take(n as int) =~= b);
            pieces_nonempty(b);
        }
        push_part(&mut parts, piece);
        assert(part_views(parts@) =~= components(b));
        parts
    }

    /// The last component of the path, where that is a name.
    pub fn file_name(&self) -> (name: Option<Vec<u8>>)
        ensures
            match name {
                Some(bytes) => file_name(self@) == Some(bytes@),
                None => file_name(self@) is None,
            },
    {
        let mut parts = self.parts();
        let ghost all = parts@;
        match parts.pop() {
            Some(PathPart::Normal(name)) => {
                assert(part_views(all).last() == Component::Normal(name@));
                Some(name)
            },
            Some(other) => {
                assert(part_views(all).last() == other@);
                None
            },
            None => None,
        }
    }

    /// What follows the last dot of the file name; a dot that begins the name starts no
    /// extension.
    pub fn extension(&self) -> (ext: Option<Vec<u8>>)
        ensures
            match ext {
                Some(bytes) => extension(self@) == Some(bytes@),
                None => extension(self@) is None,
            },
    {
        let name = match self.file_name() {
            Some(name) => name,
            None => {
                return None;
            },
        };
        let mut end: usize = name.len();
        assert(name@.take(end as int) =~= name@);
        while end > 0 && name[end - 1] != DOT
            invariant
                end <= name@.len(),
                last_dot(name@.take(end as int)) == last_dot(name@),
            decreases end,
        {
            assert(name@.take(end as int).drop_last() =~= name@.take(end - 1));
            end = end - 1;
        }
        if end <= 1 {
            return None;
        }
        let mut ext: Vec<u8> = Vec::new();
        let mut i: usize = end;
        while i < name.len()
            invariant
                end <= i <= name@.len(),
                ext@ == name@.subrange(end as int, i as int),
            decreases name@.len() - i,
        {
            ext.push(name[i]);
            assert(ext@ =~= name@.subrange(end as int, i + 1));
            i = i + 1;
        }
        assert(name@.skip(end as int) =~= ext@);
        Some(ext)
    }

    /// The path of `name` below this directory.
    pub fn join(&self, name: &[u8]) -> (path: UnixPath)
        ensures
            path@ == join(self@, name@),
    {
        let mut bytes: Vec<u8> = Vec::new();
        if name.len() == 0 || name[0] != SLASH {
            bytes.extend_from_slice(self.bytes.as_slice());
            assert(bytes@ =~= self@);
            if bytes.len() > 0 && bytes[bytes.len() - 1] != SLASH {
                bytes.push(SLASH);
            }
        }
        bytes.extend_from_slice(name);
        assert(bytes@ =~= join(self@, name@));
        UnixPath { bytes }
    }

    /// The text of the path, where its bytes are UTF-8.
    pub fn to_text(&self) -> (text: Option<String>)
        ensures
            match text {
                Some(t) => valid_utf8(self@) && t@ == decode_utf8(self@),
                None => !valid_utf8(self@),
            },
    {
        match text::decode_strict(self.bytes.as_slice()) {
            Some(t) => Some(t.to_owned()),
            None => None,
        }
    }

    /// The text that shows the path to a reader.
    pub fn display(&self) -> (text: String)
        ensures
            text@ == text::lossy_text(self@),
            valid_utf8(self@) ==> text@ == decode_utf8(self@),
    {
        text::decode_lossy(self.bytes.as_slice())
    }

    /// Whether two paths hold the same bytes.
    pub fn same(&self, other: &UnixPath) -> (equal: bool)
        ensures
            equal == (self@ == other@),
    {
        if self.bytes.len() != other.bytes.len() {
            return false;
        }
        let mut i: usize = 0;
        while i < self.bytes.len()
            invariant
                i <= self@.len(),
                self@.len() == other@.len(),
                forall|k: int| 0 <= k < i ==> self@[k] == other@[k],
            decreases self@.len() - i,
        {
            if self.bytes[i] != other.bytes[i] {
                return false;
            }
            i = i + 1;
        }
        assert(self@ =~= other@);
        true
    }

    /// Another path of the same bytes.
    pub fn duplicate(&self) -> (path: UnixPath)
        ensures
            path@ == self@,
    {
        let bytes = self.bytes.clone();
        assert(bytes@ =~= self.bytes@);
        UnixPath { bytes }
    }

    /// Whether this path comes strictly before the other.
    pub fn before(&self, other: &UnixPath) -> (before: bool)
        ensures
            before == path_less(self@, other@),
    {
        let a = self.parts();
        let b = other.parts();
        parts_before(&a, &b)
    }
}

/// Whether one component comes strictly before another.
fn part_before(a: &PathPart, b: &PathPart) -> (before: bool)
    ensures
        before == part_less(a@, b@),
{
    match (a, b) {
        (PathPart::Normal(x), PathPart::Normal(y)) => order::bytes_before(
            x.as_slice(),
            y.as_slice(),
        ),
        (PathPart::Normal(_), _) => false,
        (_, PathPart::Normal(_)) => true,
        (PathPart::ParentDir, _) => false,
        (_, PathPart::ParentDir) => true,
        (PathPart::CurDir, _) => false,
        (_, PathPart::CurDir) => true,
        (PathPart::RootDir, PathPart::RootDir) => false,
    }
}

/// Other paths of the same bytes.
pub(crate) fn duplicate_all(paths: &[UnixPath]) -> (copies: Vec<UnixPath>)
    ensures
        path_bytes(copies@) == path_bytes(paths@),
{
    let mut copies: Vec<UnixPath> = Vec::new();
    let mut i: usize = 0;
    while i < paths.len()
        invariant
            i <= paths@.len(),
            path_bytes(copies@) == path_bytes(paths@).take(i as int),
        decreases paths@.len() - i,
    {
        let ghost before = copies@;
        copies.push(paths[i].duplicate());
        assert(path_bytes(copies@) =~= path_bytes(before).push(paths@[i as int]@));
        assert(path_bytes(copies@) =~= path_bytes(paths@).take(i + 1));
        i = i + 1;
    }
    assert(path_bytes(copies@) =~= path_bytes(paths@));
    copies
}

/// Whether one sequence of components comes strictly before another.
fn parts_before(a: &Vec<PathPart>, b: &Vec<PathPart>) -> (before: bool)
    ensures
        before == parts_less(part_views(a@), part_views(b@)),
{
    let ghost x = part_views(a@);
    let ghost y = part_views(b@);
    let mut i: usize = 0;
    assert(x.skip(0) =~= x);
    assert(y.skip(0) =~= y);
    while i < a.len() && i < b.len()
        invariant
            i <= a@.len(),
            i <= b@.len(),
            x == part_views(a@),
            y == part_views(b@),
            parts_less(x, y) == parts_less(x.skip(i as int), y.skip(i as int)),
        decreases a@.len() - i,
    {
        proof {
            part_less_irreflexive(x[i as int]);
            assert(part_less(x[i as int], y[i as int]) && part_less(y[i as int], x[i as int])
                ==> false) by {
                if part_less(x[i as int], y[i as int]) && part_less(y[i as int], x[i as int]) {
                    part_less_transitive(x[i as int], y[i as int], x[i as int]);
                }
            }
            part_less_total(x[i as int], y[i as int]);
            assert(x.skip(i as int).drop_first() =~= x.skip(i + 1));
            assert(y.skip(i as int).drop_first() =~= y.skip(i + 1));
        }
        if part_before(&a[i], &b[i]) {
            return true;
        }
        if part_before(&b[i], &a[i]) {
            return false;
        }
        i = i + 1;
    }
    i < b.len()
}

/// A separator ends one component and begins the next: behind it an empty piece and `.` count for
/// nothing, `..` for the parent, and any other piece for itself. One that nothing stands before is
/// the root.
pub proof fn slashes_separate_components(path: Seq<u8>, piece: Seq<u8>)
    requires
        !piece.contains(0x2f),
    ensures
        components(path.push(0x2f) + piece) == (if path.len() == 0 {
            seq![Component::RootDir]
        } else {
            components(path)
        }) + (if piece.len() == 0 || piece == seq![0x2eu8] {
            Seq::empty()
        } else if piece == seq![0x2eu8, 0x2e] {
            seq![Component::ParentDir]
        } else {
            seq![Component::Normal(piece)]
        }),
{
    let base = path.push(SLASH);
    let whole = base + piece;
    pieces_nonempty(path);
    assert(base.drop_last() =~= path);
    assert(pieces(base) == pieces(path).push(Seq::empty()));
    pieces_append(base, piece);
    assert(pieces(base).drop_last() =~= pieces(path));
    assert(pieces(base).last() + piece =~= piece);
    let all = pieces(path).push(piece);
    assert(pieces(whole) =~= all);
    assert(all.drop_last() =~= pieces(path));
    assert(named_parts(all) == named_parts(pieces(path)) + named_part(piece));
    if path.len() == 0 {
        assert(pieces(path) =~= seq![Seq::<u8>::empty()]);
        assert(pieces(path).drop_last() =~= Seq::<Seq<u8>>::empty());
        assert(named_parts(pieces(path).drop_last()) =~= Seq::<Component>::empty());
        assert(named_parts(pieces(path)) =~= Seq::<Component>::empty());
        assert(whole[0] == SLASH);
        assert(components(whole) =~= seq![Component::RootDir] + named_part(piece));
    } else {
        assert(whole[0] == path[0]);
        if path.len() > 1 {
            assert(whole[1] == path[1]);
        } else {
            assert(whole[1] == SLASH);
        }
        assert(leading_part(whole) =~= leading_part(path));
        assert(components(whole) =~= components(path) + named_part(piece));
    }
}

/// A path without a separator is a single component, or none where it is empty.
pub proof fn single_pieces_are_components(piece: Seq<u8>)
    requires
        !piece.contains(0x2f),
    ensures
        components(piece) == if piece.len() == 0 {
            Seq::empty()
        } else if piece == seq![0x2eu8] {
            seq![Component::CurDir]
        } else if piece == seq![0x2eu8, 0x2e] {
            seq![Component::ParentDir]
        } else {
            seq![Component::Normal(piece)]
        },
{
    let none = Seq::<u8>::empty();
    pieces_append(none, piece);
    assert(none + piece =~= piece);
    assert(pieces(none).drop_last() =~= Seq::<Seq<u8>>::empty());
    assert(pieces(none).last() + piece =~= piece);
    let all = Seq::<Seq<u8>>::empty().push(piece);
    assert(pieces(piece) =~= all);
    assert(all.drop_last() =~= Seq::<Seq<u8>>::empty());
    assert(named_parts(all.drop_last()) =~= Seq::<Component>::empty());
    assert(named_parts(all) =~= named_part(piece));
    if piece.len() > 0 {
        assert(piece.contains(piece[0]));
        if piece.len() == 1 {
            assert(piece[0] == DOT ==> piece =~= seq![DOT]);
        } else {
            assert(piece.contains(piece[1]));
            assert(piece != seq![DOT]) by {
                assert(piece.len() != seq![DOT].len());
            }
        }
        if piece == seq![DOT] {
            assert(piece[0] == DOT && piece.len() == 1);
        }
    }
    assert(components(piece) =~= if piece.len() == 0 {
        Seq::empty()
    } else if piece == seq![DOT] {
        seq![Component::CurDir]
    } else if piece == seq![DOT, DOT] {
        seq![Component::ParentDir]
    } else {
        seq![Component::Normal(piece)]
    });
}

/// The file name of a path is its last piece that counts, where that is a name of its own.
pub proof fn file_names_are_last_pieces(path: Seq<u8>, piece: Seq<u8>)
    requires
        !piece.contains(0x2f),
    ensures
        ({
            let below = path.push(0x2f) + piece;
            if piece.len() == 0 || piece == seq![0x2eu8] {
                &&& file_name(piece) is None
                &&& file_name(below) == if path.len() == 0 {
                    None
                } else {
                    file_name(path)
                }
            } else if piece == seq![0x2eu8, 0x2e] {
                file_name(piece) is None && file_name(below) is None
            } else {
                file_name(piece) == Some(piece) && file_name(below) == Some(piece)
            }
        }),
{
    slashes_separate_components(path, piece);
    single_pieces_are_components(piece);
    assert(components(path) + Seq::<Component>::empty() =~= components(path));
}

/// A dot is the last one of a name exactly where no other follows it.
pub proof fn last_dots_are_followed_by_none(name: Seq<u8>, k: int)
    ensures
        0 <= k < name.len() && name[k] == 0x2e && !name.skip(k + 1).contains(0x2e) ==> last_dot(name)
            == k,
        -1 <= last_dot(name) < name.len(),
        last_dot(name) >= 0 ==> name[last_dot(name)] == 0x2e && !name.skip(
            last_dot(name) + 1,
        ).contains(0x2e),
        last_dot(name) == -1 <==> !name.contains(0x2e),
    decreases name.len(),
{
    if name.len() > 0 {
        let init = name.drop_last();
        last_dots_are_followed_by_none(init, k);
        if name.last() == DOT {
            assert(name[name.len() - 1] == DOT);
            assert(name.contains(DOT));
            assert(name.skip(name.len() as int) =~= Seq::<u8>::empty());
            if 0 <= k < name.len() - 1 {
                assert(name.skip(k + 1)[name.len() - 2 - k] == DOT);
            }
        } else {
            let d = last_dot(init);
            if name.contains(DOT) {
                let i = choose|i: int| 0 <= i < name.len() && name[i] == DOT;
                assert(init[i] == DOT);
            }
            if init.contains(DOT) {
                let i = choose|i: int| 0 <= i < init.len() && init[i] == DOT;
                assert(name[i] == DOT);
            }
            if d >= 0 {
                let tail = name.skip(d + 1);
                if tail.contains(DOT) {
                    let i = choose|i: int| 0 <= i < tail.len() && tail[i] == DOT;
                    assert(init.skip(d + 1)[i] == DOT);
                }
            }
            if 0 <= k < init.len() && name[k] == DOT && !name.skip(k + 1).contains(DOT) {
                let tail = init.skip(k + 1);
                if tail.contains(DOT) {
                    let i = choose|i: int| 0 <= i < tail.len() && tail[i] == DOT;
                    assert(name.skip(k + 1)[i] == DOT);
                }
            }
        }
    }
}

/// The extension of a path is what follows the last dot of its file name, where something stands
/// before that dot; a name without such a dot has none.
pub proof fn extensions_follow_the_last_dot(path: Seq<u8>, stem: Seq<u8>, ext: Seq<u8>)
    requires
        !ext.contains(0x2e),
    ensures
        file_name(path) == Some(stem + seq![0x2eu8] + ext) ==> extension(path) == if stem.len() > 0 {
            Some(ext)
        } else {
            None
        },
        file_name(path) == Some(ext) ==> extension(path) is None,
        file_name(path) is None ==> extension(path) is None,
{
    let name = stem + seq![DOT] + ext;
    let k = stem.len() as int;
    assert(name.skip(k + 1) =~= ext);
    last_dots_are_followed_by_none(name, k);
    last_dots_are_followed_by_none(ext, 0);
}

/// A name below a directory is the directory, a separator where it does not end in one, and the
/// name; an absolute path below a directory stays as it is.
pub proof fn joined_paths_hold_both(dir: Seq<u8>, name: Seq<u8>)
    ensures
        name.len() > 0 && name[0] == 0x2f ==> join(dir, name) == name,
        !(name.len() > 0 && name[0] == 0x2f) ==> {
            &&& join(Seq::empty(), name) == name
            &&& join(dir.push(0x2f), name) == dir + seq![0x2fu8] + name
            &&& dir.len() > 0 && dir.last() != 0x2f ==> join(dir, name) == dir + seq![0x2fu8] + name
        },
{
    assert(Seq::<u8>::empty() + name =~= name);
    assert(dir.push(SLASH) + name =~= dir + seq![SLASH] + name);
}

/// Whether the first components in which two paths differ put the one before the other: there the
/// one has ended, or its component comes first.
pub open spec fn comes_first_at(a: Seq<Component>, b: Seq<Component>, i: int) -> bool {
    &&& 0 <= i <= a.len()
    &&& i < b.len()
    &&& a.take(i) == b.take(i)
    &&& i == a.len() || part_less(a[i], b[i])
}

/// One path comes before another exactly where the first component in which they differ says so.
pub proof fn first_different_component_decides(a: Seq<u8>, b: Seq<u8>)
    ensures
        path_less(a, b) <==> exists|i: int| comes_first_at(components(a), components(b), i),
{
    first_different_part_decides(components(a), components(b));
}

proof fn first_different_part_decides(a: Seq<Component>, b: Seq<Component>)
    ensures
        parts_less(a, b) <==> exists|i: int| comes_first_at(a, b, i),
    decreases b.len(),
{
    if b.len() > 0 && a.len() > 0 {
        let (p, q) = (a.drop_first(), b.drop_first());
        first_different_part_decides(p, q);
        if parts_less(a, b) {
            if part_less(a[0], b[0]) {
                assert(a.take(0) =~= b.take(0));
                assert(comes_first_at(a, b, 0));
            } else {
                let i = choose|i: int| comes_first_at(p, q, i);
                assert(a.take(i + 1) =~= seq![a[0]] + p.take(i));
                assert(b.take(i + 1) =~= seq![b[0]] + q.take(i));
                assert(comes_first_at(a, b, i + 1));
            }
        }
        if exists|i: int| comes_first_at(a, b, i) {
            let i = choose|i: int| comes_first_at(a, b, i);
            if i > 0 {
                assert(a.take(i)[0] == b.take(i)[0]);
                assert(p.take(i - 1) =~= a.take(i).drop_first());
                assert(q.take(i - 1) =~= b.take(i).drop_first());
                assert(comes_first_at(p, q, i - 1));
            }
        }
    } else if b.len() > 0 {
        assert(a.take(0) =~= b.take(0));
        assert(comes_first_at(a, b, 0));
    }
}

/// The root comes before `.`, `.` before `..`, and `..` before every name; names are ordered by
/// their bytes.
pub proof fn names_come_last(a: Seq<u8>, b: Seq<u8>)
    ensures
        part_less(Component::RootDir, Component::CurDir),
        part_less(Component::RootDir, Component::ParentDir),
        part_less(Component::RootDir, Component::Normal(a)),
        part_less(Component::CurDir, Component::ParentDir),
        part_less(Component::CurDir, Component::Normal(a)),
        part_less(Component::ParentDir, Component::Normal(a)),
        part_less(Component::Normal(a), Component::Normal(b)) <==> order::bytes_less(a, b),
        !part_less(Component::Normal(a), Component::RootDir),
        !part_less(Component::Normal(a), Component::CurDir),
        !part_less(Component::Normal(a), Component::ParentDir),
        !part_less(Component::ParentDir, Component::CurDir),
        !part_less(Component::ParentDir, Component::RootDir),
        !part_less(Component::CurDir, Component::RootDir),
{
}

/// The views of paths and of their components hold what they are views of.
pub proof fn path_views_are_faithful(
    path: UnixPath,
    part: PathPart,
    list: Seq<UnixPath>,
    parts: Seq<PathPart>,
    i: int,
)
    ensures
        path@ == path.bytes@,
        path_bytes(list).len() == list.len(),
        0 <= i < list.len() ==> path_bytes(list)[i] == list[i].bytes@,
        part_views(parts).len() == parts.len(),
        0 <= i < parts.len() ==> part_views(parts)[i] == parts[i]@,
        match part {
            PathPart::RootDir => part@ == Component::RootDir,
            PathPart::CurDir => part@ == Component::CurDir,
            PathPart::ParentDir => part@ == Component::ParentDir,
            PathPart::Normal(name) => part@ == Component::Normal(name@),
        },
{
}

} // verus!
