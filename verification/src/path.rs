//! Unix paths as text: what they are made of, when two of them name the same
//! place, which of two comes first, and how one is appended to another.

use vstd::prelude::*;
use vstd::string::StringExecFns;

use crate::text::{chars_of, chars_order, TextOrder};

verus! {

/// Whether a piece between two slashes says anything: an empty one and `.` do not.
pub open spec fn is_significant(piece: Seq<char>) -> bool {
    piece.len() > 0 && piece != seq!['.']
}

/// The significant pieces of a path, in their order. `..` is one of them.
pub open spec fn segments(path: Seq<char>) -> Seq<Seq<char>>
    decreases path.len(),
{
    let n = crate::text::position(path, '/');
    let head = path.take(n);
    let first = if is_significant(head) {
        seq![head]
    } else {
        Seq::<Seq<char>>::empty()
    };
    if n < 0 || n >= path.len() {
        first
    } else {
        first + segments(path.skip(n + 1))
    }
}

/// What a path names: two paths name the same place when they agree in this.
#[verifier::ext_equal]
pub struct PathKey {
    /// It starts at the root.
    pub absolute: bool,
    /// It is relative and its first piece is `.`.
    pub leading_dot: bool,
    /// Its significant pieces.
    pub segments: Seq<Seq<char>>,
}

/// Whether a path starts at the root.
pub open spec fn is_absolute(path: Seq<char>) -> bool {
    path.len() > 0 && path[0] == '/'
}

/// Whether a path is `.` or starts with `./`.
pub open spec fn has_leading_dot(path: Seq<char>) -> bool {
    path.len() > 0 && path[0] == '.' && (path.len() == 1 || path[1] == '/')
}

/// What `path` names. Repeated slashes, a slash at the end and any `.` but a
/// leading one make no difference.
pub open spec fn path_key(path: Seq<char>) -> PathKey {
    PathKey {
        absolute: is_absolute(path),
        leading_dot: has_leading_dot(path),
        segments: segments(path),
    }
}

/// What a path is made of, piece by piece.
pub enum Component {
    /// The root, at the start.
    RootDir,
    /// A `.` at the start.
    CurDir,
    /// A `..`.
    ParentDir,
    /// Any other piece.
    Normal(Seq<char>),
}

/// What a significant piece stands for.
pub open spec fn component(piece: Seq<char>) -> Component {
    if piece == seq!['.', '.'] {
        Component::ParentDir
    } else {
        Component::Normal(piece)
    }
}

/// What the path with the key `key` is made of.
pub open spec fn components(key: PathKey) -> Seq<Component> {
    let start = if key.absolute {
        seq![Component::RootDir]
    } else if key.leading_dot {
        seq![Component::CurDir]
    } else {
        Seq::<Component>::empty()
    };
    start + key.segments.map_values(|piece: Seq<char>| component(piece))
}

/// The place of a kind of component among the kinds.
pub open spec fn component_rank(c: Component) -> int {
    match c {
        Component::RootDir => 0,
        Component::CurDir => 1,
        Component::ParentDir => 2,
        Component::Normal(_) => 3,
    }
}

/// Whether the component `a` comes before `b`.
pub open spec fn component_lt(a: Component, b: Component) -> bool {
    match (a, b) {
        (Component::Normal(x), Component::Normal(y)) => crate::text::text_lt(x, y),
        _ => component_rank(a) < component_rank(b),
    }
}

/// Whether `a` comes before `b`: the first difference decides, and a proper
/// prefix comes first.
#[verifier::opaque]
pub open spec fn components_lt(a: Seq<Component>, b: Seq<Component>) -> bool
    decreases b.len(),
{
    if b.len() == 0 {
        false
    } else if a.len() == 0 {
        true
    } else if a[0] == b[0] {
        components_lt(a.skip(1), b.skip(1))
    } else {
        component_lt(a[0], b[0])
    }
}

/// Whether paths with the key `a` come before those with the key `b`: piece by
/// piece, which is the order of `std::path::Path`.
pub open spec fn path_lt(a: PathKey, b: PathKey) -> bool {
    components_lt(components(a), components(b))
}

/// The last piece of a path, if it has one and it is not `..`.
pub open spec fn file_name(path: Seq<char>) -> Option<Seq<char>> {
    let s = segments(path);
    if s.len() == 0 || s.last() == seq!['.', '.'] {
        None
    } else {
        Some(s.last())
    }
}

/// `path` seen from the directory `base`.
pub open spec fn joined(base: Seq<char>, path: Seq<char>) -> Seq<char> {
    if is_absolute(path) {
        path
    } else if base.len() == 0 || base.last() == '/' {
        base + path
    } else {
        base + seq!['/'] + path
    }
}

/// The texts that a list of character vectors holds.
pub open spec fn texts(v: Seq<Vec<char>>) -> Seq<Seq<char>> {
    v.map_values(|w: Vec<char>| w@)
}

/// A copy of a part of `v`.
fn copy_range(v: &Vec<char>, from: usize, to: usize) -> (r: Vec<char>)
    requires
        from <= to <= v.len(),
    ensures
        r@ == v@.subrange(from as int, to as int),
{
    let mut r: Vec<char> = Vec::new();
    let mut i: usize = from;
    while i < to
        invariant
            from <= i <= to <= v.len(),
            r@ == v@.subrange(from as int, i as int),
        decreases to - i,
    {
        r.push(v[i]);
        i = i + 1;
    }
    r
}

/// Whether two vectors hold the same characters.
pub(crate) fn same_chars(a: &Vec<char>, b: &Vec<char>) -> (r: bool)
    ensures
        r == (a@ == b@),
{
    if a.len() != b.len() {
        return false;
    }
    let mut i: usize = 0;
    while i < a.len()
        invariant
            a.len() == b.len(),
            i <= a.len(),
            forall|j: int| 0 <= j < i ==> a@[j] == b@[j],
        decreases a.len() - i,
    {
        if a[i] != b[i] {
            return false;
        }
        i = i + 1;
    }
    assert(a@ =~= b@);
    true
}

/// The significant pieces of `path`.
pub fn segments_of(path: &Vec<char>) -> (r: Vec<Vec<char>>)
    ensures
        texts(r@) == segments(path@),
{
    let mut r: Vec<Vec<char>> = Vec::new();
    let mut start: usize = 0;
    let mut i: usize = 0;
    assert(path@.skip(0) == path@);
    assert(texts(r@) + segments(path@) =~= segments(path@));
    loop
        invariant_except_break
            start <= i <= path.len(),
            forall|j: int| start <= j < i ==> path@[j] != '/',
            texts(r@) + segments(path@.skip(start as int)) == segments(path@),
        ensures
            texts(r@) == segments(path@),
        decreases path.len() + 1 - i,
    {
        if i < path.len() && path[i] != '/' {
            i = i + 1;
            continue;
        }
        let piece = copy_range(path, start, i);
        let ghost rest = path@.skip(start as int);
        let ghost before = texts(r@);
        proof {
            crate::text::lemma_position(rest, '/', i - start);
            assert(piece@ =~= rest.take(i - start));
        }
        let dot = piece.len() == 1 && piece[0] == '.';
        assert(dot <==> piece@ =~= seq!['.']);
        if piece.len() > 0 && !dot {
            r.push(piece);
            assert(texts(r@) =~= before.push(rest.take(i - start)));
            assert(before + seq![rest.take(i - start)] =~= texts(r@));
        } else {
            assert(before + Seq::<Seq<char>>::empty() =~= before);
        }
        if i == path.len() {
            break;
        }
        proof {
            assert(rest.skip(i - start + 1) =~= path@.skip(i + 1));
            let first = if is_significant(rest.take(i - start)) {
                seq![rest.take(i - start)]
            } else {
                Seq::<Seq<char>>::empty()
            };
            assert(before + (first + segments(path@.skip(i + 1))) =~= (before + first) + segments(
                path@.skip(i + 1),
            ));
        }
        start = i + 1;
        i = start;
    }
    r
}

/// The last piece of `path`, if it has one and it is not `..`.
pub fn file_name_of(path: &str) -> (r: Option<Vec<char>>)
    ensures
        match r {
            Some(name) => file_name(path@) == Some(name@),
            None => file_name(path@) is None,
        },
{
    let chars = chars_of(path);
    let mut s = segments_of(&chars);
    let ghost all = s@;
    match s.pop() {
        None => None,
        Some(name) => {
            assert(texts(all).last() == name@);
            let up = name.len() == 2 && name[0] == '.' && name[1] == '.';
            assert(up <==> name@ =~= seq!['.', '.']);
            if up {
                None
            } else {
                Some(name)
            }
        },
    }
}

/// Whether two lists hold the same texts.
fn same_texts(a: &Vec<Vec<char>>, b: &Vec<Vec<char>>) -> (r: bool)
    ensures
        r == (texts(a@) == texts(b@)),
{
    if a.len() != b.len() {
        assert(texts(a@).len() != texts(b@).len());
        return false;
    }
    let mut i: usize = 0;
    while i < a.len()
        invariant
            a.len() == b.len(),
            i <= a.len(),
            forall|j: int| 0 <= j < i ==> texts(a@)[j] == texts(b@)[j],
        decreases a.len() - i,
    {
        if !same_chars(&a[i], &b[i]) {
            assert(texts(a@)[i as int] != texts(b@)[i as int]);
            return false;
        }
        assert(texts(a@)[i as int] == texts(b@)[i as int]);
        i = i + 1;
    }
    assert(texts(a@) =~= texts(b@));
    true
}

/// Whether two paths name the same place.
pub fn same_path(a: &str, b: &str) -> (r: bool)
    ensures
        r == (path_key(a@) == path_key(b@)),
{
    let u = chars_of(a);
    let v = chars_of(b);
    let abs_u = u.len() > 0 && u[0] == '/';
    let abs_v = v.len() > 0 && v[0] == '/';
    let dot_u = u.len() > 0 && u[0] == '.' && (u.len() == 1 || u[1] == '/');
    let dot_v = v.len() > 0 && v[0] == '.' && (v.len() == 1 || v[1] == '/');
    abs_u == abs_v && dot_u == dot_v && same_texts(&segments_of(&u), &segments_of(&v))
}

/// Of two components exactly one comes first, unless they are equal.
proof fn lemma_component_lt_total(a: Component, b: Component)
    ensures
        a == b ==> !component_lt(a, b),
        a != b ==> component_lt(a, b) != component_lt(b, a),
{
    if let (Component::Normal(x), Component::Normal(y)) = (a, b) {
        crate::text::lemma_text_lt_total(x, y);
    }
}

/// Of two lists of components exactly one comes first, unless they are equal.
proof fn lemma_components_lt_total(a: Seq<Component>, b: Seq<Component>)
    ensures
        a == b ==> !components_lt(a, b),
        a != b ==> components_lt(a, b) != components_lt(b, a),
    decreases b.len(),
{
    reveal(components_lt);
    if a.len() > 0 && b.len() > 0 {
        lemma_component_lt_total(a[0], b[0]);
        if a[0] == b[0] {
            lemma_components_lt_total(a.skip(1), b.skip(1));
            if a.skip(1) == b.skip(1) {
                assert(a =~= seq![a[0]] + a.skip(1));
                assert(b =~= seq![b[0]] + b.skip(1));
            }
        }
    } else if a.len() == 0 && b.len() == 0 {
        assert(a =~= b);
    }
}

/// The order of lists of components is transitive.
proof fn lemma_components_lt_transitive(
    a: Seq<Component>,
    b: Seq<Component>,
    c: Seq<Component>,
)
    requires
        components_lt(a, b),
        components_lt(b, c),
    ensures
        components_lt(a, c),
    decreases c.len(),
{
    reveal(components_lt);
    if a.len() > 0 {
        if a[0] == b[0] && b[0] == c[0] {
            lemma_components_lt_transitive(a.skip(1), b.skip(1), c.skip(1));
        } else if a[0] != b[0] && b[0] != c[0] {
            if let (Component::Normal(x), Component::Normal(y), Component::Normal(z)) = (
                a[0],
                b[0],
                c[0],
            ) {
                crate::text::lemma_text_lt_transitive(x, y, z);
            }
            lemma_component_lt_total(a[0], c[0]);
        }
    }
}

/// A common prefix does not decide which of two lists of components comes first.
proof fn lemma_components_lt_common_prefix(a: Seq<Component>, b: Seq<Component>, n: int)
    requires
        0 <= n <= a.len(),
        n <= b.len(),
        forall|i: int| 0 <= i < n ==> a[i] == b[i],
    ensures
        components_lt(a, b) == components_lt(a.skip(n), b.skip(n)),
    decreases n,
{
    reveal(components_lt);
    if n == 0 {
        assert(a.skip(0) == a);
        assert(b.skip(0) == b);
    } else {
        let x = a.skip(1);
        let y = b.skip(1);
        assert forall|i: int| 0 <= i < n - 1 implies x[i] == y[i] by {
            assert(x[i] == a[i + 1]);
            assert(y[i] == b[i + 1]);
        }
        lemma_components_lt_common_prefix(x, y, n - 1);
        assert(x.skip(n - 1) == a.skip(n));
        assert(y.skip(n - 1) == b.skip(n));
    }
}

/// Paths that are made of the same components have the same key.
proof fn lemma_components_tell_keys(a: Seq<char>, b: Seq<char>)
    requires
        components(path_key(a)) == components(path_key(b)),
    ensures
        path_key(a) == path_key(b),
{
    let (j, k) = (path_key(a), path_key(b));
    let (x, y) = (components(j), components(k));
    let m: int = x.len() - j.segments.len();
    let n: int = y.len() - k.segments.len();
    if x.len() > 0 {
        assert(m == 0 ==> x[0] == component(j.segments[0]));
        assert(n == 0 ==> y[0] == component(k.segments[0]));
    }
    assert(m == n);
    assert forall|i: int| 0 <= i < j.segments.len() implies j.segments[i] == k.segments[i] by {
        assert(x[m + i] == component(j.segments[i]));
        assert(y[n + i] == component(k.segments[i]));
    }
    assert(j.segments =~= k.segments);
}

/// The order of paths is one: of two that name different places exactly one comes
/// first, and what comes before another comes before all that come after that.
pub proof fn law_paths_are_ordered(a: Seq<char>, b: Seq<char>, c: Seq<char>)
    ensures
        path_key(a) == path_key(b) ==> !path_lt(path_key(a), path_key(b)),
        path_key(a) != path_key(b) ==> path_lt(path_key(a), path_key(b)) != path_lt(
            path_key(b),
            path_key(a),
        ),
        path_lt(path_key(a), path_key(b)) && path_lt(path_key(b), path_key(c)) ==> path_lt(
            path_key(a),
            path_key(c),
        ),
{
    let (x, y, z) = (components(path_key(a)), components(path_key(b)), components(path_key(c)));
    lemma_components_lt_total(x, y);
    if x == y {
        lemma_components_tell_keys(a, b);
    }
    if components_lt(x, y) && components_lt(y, z) {
        lemma_components_lt_transitive(x, y, z);
    }
}

/// A component of a path that is being compared.
enum Piece {
    RootDir,
    CurDir,
    ParentDir,
    Normal(Vec<char>),
}

impl Piece {
    spec fn component(self) -> Component {
        match self {
            Piece::RootDir => Component::RootDir,
            Piece::CurDir => Component::CurDir,
            Piece::ParentDir => Component::ParentDir,
            Piece::Normal(chars) => Component::Normal(chars@),
        }
    }

    fn rank(&self) -> (r: u8)
        ensures
            r == component_rank(self.component()),
    {
        match self {
            Piece::RootDir => 0,
            Piece::CurDir => 1,
            Piece::ParentDir => 2,
            Piece::Normal(_) => 3,
        }
    }

    fn order(&self, other: &Piece) -> (r: TextOrder)
        ensures
            r == TextOrder::Before <==> component_lt(self.component(), other.component()),
            r == TextOrder::Same <==> self.component() == other.component(),
            r == TextOrder::After <==> component_lt(other.component(), self.component()),
    {
        if let (Piece::Normal(u), Piece::Normal(v)) = (self, other) {
            return chars_order(u, v);
        }
        let (m, n): (u8, u8) = (self.rank(), other.rank());
        if m < n {
            TextOrder::Before
        } else if m == n {
            TextOrder::Same
        } else {
            TextOrder::After
        }
    }
}

spec fn components_of(v: Seq<Piece>) -> Seq<Component> {
    v.map_values(|p: Piece| p.component())
}

/// What `path` is made of.
fn pieces_of(path: &str) -> (r: Vec<Piece>)
    ensures
        components_of(r@) == components(path_key(path@)),
{
    let chars = chars_of(path);
    let mut r: Vec<Piece> = Vec::new();
    if chars.len() > 0 && chars[0] == '/' {
        r.push(Piece::RootDir);
    } else if chars.len() > 0 && chars[0] == '.' && (chars.len() == 1 || chars[1] == '/') {
        r.push(Piece::CurDir);
    }
    let ghost start = components_of(r@);
    let segments = segments_of(&chars);
    let ghost all = segments@;
    for piece in it: segments
        invariant
            it.seq() == all,
            components_of(r@) == start + texts(all.take(it.index() as int)).map_values(
                |piece: Seq<char>| component(piece),
            ),
    {
        let ghost n = it.index() as int;
        let ghost before = components_of(r@);
        let up = piece.len() == 2 && piece[0] == '.' && piece[1] == '.';
        assert(up <==> piece@ =~= seq!['.', '.']);
        if up {
            r.push(Piece::ParentDir);
        } else {
            r.push(Piece::Normal(piece));
        }
        assert(r@.last().component() == component(all[n]@));
        assert(components_of(r@) =~= before.push(component(all[n]@)));
        assert(texts(all.take(n + 1)) =~= texts(all.take(n)).push(all[n]@));
        assert(components_of(r@) =~= start + texts(all.take(n + 1)).map_values(
            |piece: Seq<char>| component(piece),
        ));
    }
    assert(all.take(all.len() as int) == all);
    assert(components_of(r@) =~= components(path_key(path@)));
    r
}

/// Compares two paths.
pub fn path_order(a: &str, b: &str) -> (r: TextOrder)
    ensures
        r == TextOrder::Before <==> path_lt(path_key(a@), path_key(b@)),
        r == TextOrder::Same <==> path_key(a@) == path_key(b@),
        r == TextOrder::After <==> path_lt(path_key(b@), path_key(a@)),
{
    let u = pieces_of(a);
    let v = pieces_of(b);
    let ghost x = components_of(u@);
    let ghost y = components_of(v@);
    proof {
        law_paths_are_ordered(a@, b@, a@);
    }
    let mut n: usize = 0;
    while n < u.len() && n < v.len()
        invariant
            n <= u.len(),
            n <= v.len(),
            x == components_of(u@),
            y == components_of(v@),
            x == components(path_key(a@)),
            y == components(path_key(b@)),
            forall|i: int| 0 <= i < n ==> x[i] == y[i],
            path_key(a@) == path_key(b@) ==> !path_lt(path_key(a@), path_key(b@)),
            path_key(a@) != path_key(b@) ==> path_lt(path_key(a@), path_key(b@)) != path_lt(
                path_key(b@),
                path_key(a@),
            ),
        decreases u.len() - n,
    {
        let order = u[n].order(&v[n]);
        assert(x[n as int] == u@[n as int].component());
        assert(y[n as int] == v@[n as int].component());
        if order != TextOrder::Same {
            proof {
                reveal(components_lt);
                lemma_components_lt_common_prefix(x, y, n as int);
                lemma_components_lt_common_prefix(y, x, n as int);
            }
            return order;
        }
        n = n + 1;
    }
    proof {
        reveal(components_lt);
        lemma_components_lt_common_prefix(x, y, n as int);
        lemma_components_lt_common_prefix(y, x, n as int);
        if n == u.len() && n == v.len() {
            assert(x =~= y);
            lemma_components_tell_keys(a@, b@);
        }
    }
    if n < v.len() {
        TextOrder::Before
    } else if n < u.len() {
        TextOrder::After
    } else {
        TextOrder::Same
    }
}

/// `path` seen from the directory `base`.
pub fn join(base: &str, path: &str) -> (r: String)
    ensures
        r@ == joined(base@, path@),
{
    let b = chars_of(base);
    let p = chars_of(path);
    if p.len() > 0 && p[0] == '/' {
        path.to_owned()
    } else if b.len() == 0 || b[b.len() - 1] == '/' {
        base.to_owned().concat(path)
    } else {
        proof {
            reveal_strlit("/");
            assert("/"@ =~= seq!['/']);
        }
        base.to_owned().concat("/").concat(path)
    }
}

/// A piece without a slash is its own only segment.
pub proof fn lemma_segments_of_piece(piece: Seq<char>)
    requires
        !piece.contains('/'),
        is_significant(piece),
    ensures
        segments(piece) == seq![piece],
{
    crate::text::lemma_position(piece, '/', piece.len() as int);
    assert(piece.take(piece.len() as int) == piece);
}

/// The segments of two paths with a slash between them are those of the first,
/// then those of the second.
pub proof fn lemma_segments_append(dir: Seq<char>, path: Seq<char>)
    ensures
        segments(dir + seq!['/'] + path) == segments(dir) + segments(path),
    decreases dir.len(),
{
    let whole = dir + seq!['/'] + path;
    let n = crate::text::position(dir, '/');
    crate::text::lemma_position_first(dir, '/');
    assert forall|i: int| 0 <= i < n implies whole[i] != '/' by {
        assert(whole[i] == dir[i]);
    }
    assert(whole[n] == '/');
    crate::text::lemma_position(whole, '/', n);
    assert(whole.take(n) =~= dir.take(n));
    let first = if is_significant(dir.take(n)) {
        seq![dir.take(n)]
    } else {
        Seq::<Seq<char>>::empty()
    };
    if n < dir.len() {
        let tail = dir.skip(n + 1);
        lemma_segments_append(tail, path);
        assert(whole.skip(n + 1) =~= tail + seq!['/'] + path);
        assert(first + (segments(tail) + segments(path)) =~= (first + segments(tail)) + segments(
            path,
        ));
    } else {
        assert(whole.skip(n + 1) =~= path);
    }
}

/// What a path is made of: of a text without slashes that text, unless it is empty
/// or `.`; and of two texts with a slash between them the pieces of both.
pub proof fn law_pieces_stand_between_slashes(piece: Seq<char>, a: Seq<char>, b: Seq<char>)
    requires
        !piece.contains('/'),
    ensures
        segments(piece) == if piece.len() == 0 || piece == seq!['.'] {
            Seq::<Seq<char>>::empty()
        } else {
            seq![piece]
        },
        segments(a + seq!['/'] + b) == segments(a) + segments(b),
{
    crate::text::lemma_position(piece, '/', piece.len() as int);
    assert(piece.take(piece.len() as int) == piece);
    lemma_segments_append(a, b);
}

/// What a path names is told by its pieces, by a slash at its start and, where there
/// is none, by a `.` that is its first piece; and by nothing else.
pub proof fn law_places_are_told_by_pieces(a: &str, b: &str, r: bool)
    requires
        call_ensures(same_path, (a, b), r),
    ensures
        r == ({
            &&& (a@.len() > 0 && a@[0] == '/') == (b@.len() > 0 && b@[0] == '/')
            &&& (a@ == seq!['.'] || seq!['.', '/'].is_prefix_of(a@)) == (b@ == seq!['.'] || seq![
                '.',
                '/',
            ].is_prefix_of(b@))
            &&& segments(a@) == segments(b@)
        }),
        r == (path_key(a@) == path_key(b@)),
{
    assert forall|p: Seq<char>| #[trigger] has_leading_dot(p) == (p == seq!['.'] || seq![
        '.',
        '/',
    ].is_prefix_of(p)) by {
        if p.len() == 1 && p[0] == '.' {
            assert(p =~= seq!['.']);
        }
        if has_leading_dot(p) && p.len() > 1 {
            assert(seq!['.', '/'] =~= p.subrange(0, 2));
        }
        if seq!['.', '/'].is_prefix_of(p) {
            let q = p.subrange(0, 2);
            assert(q[0] == '.' && q[1] == '/');
            assert(q[0] == p[0] && q[1] == p[1]);
        }
    }
    assert(has_leading_dot(a@) == has_leading_dot(a@));
    assert(has_leading_dot(b@) == has_leading_dot(b@));
    if segments(a@) == segments(b@) && is_absolute(a@) == is_absolute(b@) && has_leading_dot(a@)
        == has_leading_dot(b@) {
        assert(path_key(a@) =~= path_key(b@));
    }
}

/// The file name of a path is what comes after its last slash, or all of it where it
/// has none; an empty piece or a `.` there counts for nothing, and `..` is no name.
pub proof fn law_file_name_is_the_last_piece(
    path: &str,
    dir: Option<Seq<char>>,
    name: Seq<char>,
    r: Option<Vec<char>>,
)
    requires
        call_ensures(file_name_of, (path,), r),
        !name.contains('/'),
        path@ == match dir {
            Some(dir) => dir + seq!['/'] + name,
            None => name,
        },
    ensures
        name == seq!['.', '.'] ==> r is None,
        name.len() > 0 && name != seq!['.'] && name != seq!['.', '.'] ==> (r matches Some(found)
            && found@ == name),
        name.len() == 0 || name == seq!['.'] ==> match dir {
            Some(dir) => match r {
                Some(found) => file_name(dir) == Some(found@),
                None => file_name(dir) is None,
            },
            None => r is None,
        },
{
    match dir {
        Some(dir) => {
            law_pieces_stand_between_slashes(name, dir, name);
            let s = segments(path@);
            assert(s == segments(dir) + segments(name));
            if is_significant(name) {
                assert(s.last() == name);
            } else {
                assert(s =~= segments(dir));
            }
        },
        None => {
            law_pieces_stand_between_slashes(name, name, name);
        },
    }
}

/// Joining keeps a path that starts at the root as it is, and appends any other one
/// with one slash between, unless the directory is empty or ends in one.
pub proof fn law_join_appends(base: &str, path: &str, r: String)
    requires
        call_ensures(join, (base, path), r),
    ensures
        r@ == if path@.len() > 0 && path@[0] == '/' {
            path@
        } else if base@.len() == 0 || base@.last() == '/' {
            base@ + path@
        } else {
            base@ + seq!['/'] + path@
        },
{
}

/// Paths that start alike are ordered by the first piece in which they differ, `..`
/// coming before all others; a path comes before those that go on from it.
pub proof fn law_first_piece_decides(a: Seq<char>, b: Seq<char>, n: int)
    requires
        is_absolute(a) == is_absolute(b),
        has_leading_dot(a) == has_leading_dot(b),
        0 <= n <= segments(a).len(),
        n <= segments(b).len(),
        forall|i: int| 0 <= i < n ==> segments(a)[i] == segments(b)[i],
    ensures
        ({
            let (x, y) = (segments(a), segments(b));
            let lt = path_lt(path_key(a), path_key(b));
            &&& n == y.len() ==> !lt
            &&& n == x.len() && n < y.len() ==> lt
            &&& n < x.len() && n < y.len() && x[n] != y[n] ==> lt == (x[n] == seq!['.', '.'] || (y[n]
                != seq!['.', '.'] && crate::text::text_lt(x[n], y[n])))
        }),
{
    let (x, y) = (components(path_key(a)), components(path_key(b)));
    let m: int = x.len() - segments(a).len();
    assert(m == y.len() - segments(b).len());
    assert forall|i: int| 0 <= i < m + n implies x[i] == y[i] by {
        if i >= m {
            assert(x[i] == component(segments(a)[i - m]));
            assert(y[i] == component(segments(b)[i - m]));
        }
    }
    reveal(components_lt);
    lemma_components_lt_common_prefix(x, y, m + n);
    if n < segments(a).len() {
        assert(x.skip(m + n)[0] == component(segments(a)[n]));
    }
    if n < segments(b).len() {
        assert(y.skip(m + n)[0] == component(segments(b)[n]));
    }
}

/// The empty path comes first, then those that start at the root, then those that
/// start with `.`, then the others.
pub proof fn law_start_decides_first(a: Seq<char>, b: Seq<char>)
    ensures
        !is_absolute(a) && !has_leading_dot(a) && segments(a).len() == 0 && (is_absolute(b)
            || has_leading_dot(b) || segments(b).len() > 0) ==> path_lt(path_key(a), path_key(b)),
        is_absolute(a) && !is_absolute(b) && (has_leading_dot(b) || segments(b).len() > 0)
            ==> path_lt(path_key(a), path_key(b)),
        has_leading_dot(a) && !is_absolute(b) && !has_leading_dot(b) && segments(b).len() > 0
            ==> path_lt(path_key(a), path_key(b)),
{
    reveal(components_lt);
    let (x, y) = (components(path_key(a)), components(path_key(b)));
    if !is_absolute(b) && !has_leading_dot(b) && segments(b).len() > 0 {
        assert(y[0] == component(segments(b)[0]));
    }
}

/// Comparing two paths tells which of them comes first, or that they name the same
/// place.
pub proof fn law_paths_compare_by_their_order(a: &str, b: &str, r: TextOrder)
    requires
        call_ensures(path_order, (a, b), r),
    ensures
        r is Before <==> path_lt(path_key(a@), path_key(b@)),
        r is After <==> path_lt(path_key(b@), path_key(a@)),
        r is Same <==> path_key(a@) == path_key(b@),
{
}

} // verus!
