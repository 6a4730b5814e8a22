//! File system paths, as the bytes that name them.

use vstd::prelude::*;
use vstd::utf8;

use crate::text;

verus! {

/// A path: the bytes that the operating system knows it by. They need not be
/// valid UTF-8.
#[derive(Debug, Eq)]
pub struct FilePath {
    pub bytes: Vec<u8>,
}

impl View for FilePath {
    type V = Seq<u8>;

    open spec fn view(&self) -> Seq<u8> {
        self.bytes@
    }
}

/// The byte `/`, which separates the components of a path.
pub const SEPARATOR: u8 = 0x2f;

/// `part` below `base`: one separator stands between the two, unless `base` is
/// empty or ends with one already. An absolute `part` takes the place of `base`.
pub open spec fn path_join(base: Seq<u8>, part: Seq<u8>) -> Seq<u8> {
    if part.len() > 0 && part[0] == SEPARATOR {
        part
    } else if base.len() == 0 || base.last() == SEPARATOR {
        base + part
    } else {
        base.push(SEPARATOR) + part
    }
}

/// The path that is reached from `base` through `parts`, one after the other.
pub open spec fn path_below(base: Seq<u8>, parts: Seq<Seq<char>>) -> Seq<u8>
    decreases parts.len(),
{
    if parts.len() == 0 {
        base
    } else {
        path_join(path_below(base, parts.drop_last()), utf8::encode_utf8(parts.last()))
    }
}

/// One more part leads one step further.
pub(crate) proof fn lemma_path_push(base: Seq<u8>, parts: Seq<Seq<char>>, part: Seq<char>)
    ensures
        path_below(base, parts.push(part)) == path_join(
            path_below(base, parts),
            utf8::encode_utf8(part),
        ),
{
    assert(parts.push(part).drop_last() =~= parts);
}

/// The byte `.`, which alone names the directory that it stands in.
pub const DOT: u8 = 0x2e;

/// What stands between the separators of `path`, in front of the first and behind
/// the last.
pub open spec fn pieces(path: Seq<u8>) -> Seq<Seq<u8>>
    decreases path.len(),
{
    if path.len() == 0 {
        seq![Seq::empty()]
    } else {
        let front = pieces(path.drop_last());
        if path.last() == SEPARATOR {
            front.push(Seq::empty())
        } else {
            front.drop_last().push(front.last().push(path.last()))
        }
    }
}

/// Whether `piece` leads on: it is neither empty nor the directory itself.
pub open spec fn leads_on(piece: Seq<u8>) -> bool {
    piece.len() > 0 && piece != seq![DOT]
}

/// What a path says.
#[verifier::ext_equal]
pub struct PathParts {
    /// It begins at the root.
    pub absolute: bool,
    /// It begins with a dot, at the directory that the program runs in.
    pub dotted: bool,
    /// The pieces that lead on.
    pub names: Seq<Seq<u8>>,
}

/// What `path` says. It does not matter how many separators stand in a row, whether
/// one stands at the end, nor whether a dot stands behind a separator.
pub open spec fn path_parts(path: Seq<u8>) -> PathParts {
    PathParts {
        absolute: path.len() > 0 && path[0] == SEPARATOR,
        dotted: pieces(path)[0] == seq![DOT],
        names: pieces(path).filter(|piece: Seq<u8>| leads_on(piece)),
    }
}

/// The bytes of each piece.
spec fn piece_views(found: Seq<Vec<u8>>) -> Seq<Seq<u8>> {
    found.map_values(|piece: Vec<u8>| piece@)
}

/// The view of a path that may be missing.
pub open spec fn optional_path(path: Option<FilePath>) -> Option<Seq<u8>> {
    match path {
        Some(p) => Some(p@),
        None => None,
    }
}

impl Clone for FilePath {
    fn clone(&self) -> (copy: Self)
        ensures
            copy@ == self@,
    {
        let bytes = self.bytes.clone();
        assert(bytes@ =~= self.bytes@);
        FilePath { bytes }
    }
}

fn same_bytes(a: &Vec<u8>, b: &Vec<u8>) -> (same: bool)
    ensures
        same == (a@ == b@),
{
    if a.len() != b.len() {
        return false;
    }
    for i in 0..a.len()
        invariant
            a@.len() == b@.len(),
            forall|j: int| 0 <= j < i ==> a@[j] == b@[j],
    {
        if a[i] != b[i] {
            return false;
        }
    }
    assert(a@ =~= b@);
    true
}

fn same_pieces(a: &Vec<Vec<u8>>, b: &Vec<Vec<u8>>) -> (same: bool)
    ensures
        same == (piece_views(a@) == piece_views(b@)),
{
    if a.len() != b.len() {
        assert(piece_views(a@).len() != piece_views(b@).len());
        return false;
    }
    for i in 0..a.len()
        invariant
            a@.len() == b@.len(),
            forall|j: int| 0 <= j < i ==> (#[trigger] a@[j])@ == b@[j]@,
    {
        if !same_bytes(&a[i], &b[i]) {
            assert(piece_views(a@)[i as int] != piece_views(b@)[i as int]);
            return false;
        }
    }
    assert(piece_views(a@) =~= piece_views(b@));
    true
}

impl PartialEq for FilePath {
    /// Whether both paths say the same.
    fn eq(&self, other: &FilePath) -> (equal: bool) {
        let (absolute, dotted, names) = self.parts();
        let (other_absolute, other_dotted, other_names) = other.parts();
        absolute == other_absolute && dotted == other_dotted && same_pieces(&names, &other_names)
    }
}

impl vstd::std_specs::cmp::PartialEqSpecImpl for FilePath {
    open spec fn obeys_eq_spec() -> bool {
        true
    }

    open spec fn eq_spec(&self, other: &FilePath) -> bool {
        path_parts(self@) == path_parts(other@)
    }
}

impl FilePath {
    fn pieces(&self) -> (found: Vec<Vec<u8>>)
        ensures
            piece_views(found@) == pieces(self@),
    {
        let bytes = &self.bytes;
        let mut found: Vec<Vec<u8>> = Vec::new();
        let mut piece: Vec<u8> = Vec::new();
        assert(piece_views(found@).push(piece@) =~= pieces(self@.take(0)));
        for i in 0..bytes.len()
            invariant
                bytes@ == self@,
                piece_views(found@).push(piece@) == pieces(self@.take(i as int)),
        {
            let ghost front = piece_views(found@).push(piece@);
            let ghost longer = self@.take(i + 1);
            assert(longer.drop_last() =~= self@.take(i as int));
            assert(front.drop_last() =~= piece_views(found@));
            if bytes[i] == SEPARATOR {
                proof {
                    assert(piece_views(found@.push(piece)) =~= front);
                }
                found.push(piece);
                piece = Vec::new();
                assert(piece@ =~= Seq::<u8>::empty());
            } else {
                piece.push(bytes[i]);
            }
        }
        assert(self@.take(bytes@.len() as int) =~= self@);
        assert(piece_views(found@.push(piece)) =~= piece_views(found@).push(piece@));
        found.push(piece);
        found
    }

    /// Whether the path begins at the root, whether it begins with a dot, and its
    /// pieces that lead on.
    fn parts(&self) -> (parts: (bool, bool, Vec<Vec<u8>>))
        ensures
            path_parts(self@) == (PathParts {
                absolute: parts.0,
                dotted: parts.1,
                names: piece_views(parts.2@),
            }),
    {
        let dot: Vec<u8> = vec![DOT];
        assert(dot@ =~= seq![DOT]);
        let all = self.pieces();
        proof {
            lemma_some_piece(self@);
            assert(piece_views(all@)[0] == all@[0]@);
        }
        let absolute = self.bytes.len() > 0 && self.bytes[0] == SEPARATOR;
        let dotted = same_bytes(&all[0], &dot);
        let ghost wanted = |piece: Seq<u8>| leads_on(piece);
        let ghost views = pieces(self@);
        let mut names: Vec<Vec<u8>> = Vec::new();
        assert(piece_views(names@) =~= views.take(0).filter(wanted));
        for i in 0..all.len()
            invariant
                dot@ == seq![DOT],
                views == piece_views(all@),
                wanted == (|piece: Seq<u8>| leads_on(piece)),
                piece_views(names@) == views.take(i as int).filter(wanted),
        {
            proof {
                assert(views.take(i + 1) =~= views.take(i as int).push(all@[i as int]@));
                views.take(i as int).lemma_filter_push(all@[i as int]@, wanted);
            }
            if all[i].len() > 0 && !same_bytes(&all[i], &dot) {
                let name = all[i].clone();
                assert(name@ =~= all@[i as int]@);
                assert(piece_views(names@.push(name)) =~= piece_views(names@).push(name@));
                names.push(name);
            }
        }
        assert(views.take(all@.len() as int) =~= views);
        (absolute, dotted, names)
    }

    /// The path of `part` below this one.
    pub fn join(&self, part: &str) -> (path: FilePath)
        ensures
            path@ == path_join(self@, utf8::encode_utf8(part@)),
    {
        let mut tail = part.as_bytes_vec();
        if tail.len() > 0 && tail[0] == SEPARATOR {
            return FilePath { bytes: tail };
        }
        let mut bytes = self.clone().bytes;
        if bytes.len() > 0 && bytes[bytes.len() - 1] != SEPARATOR {
            bytes.push(SEPARATOR);
        }
        bytes.append(&mut tail);
        FilePath { bytes }
    }

    /// The path that is reached from this one through `parts`.
    pub fn below(&self, parts: &[&str]) -> (path: FilePath)
        ensures
            path@ == path_below(self@, text::str_views(parts@)),
    {
        let ghost views = text::str_views(parts@);
        let mut path = self.clone();
        assert(views.take(0) =~= Seq::<Seq<char>>::empty());
        for i in 0..parts.len()
            invariant
                views == text::str_views(parts@),
                path@ == path_below(self@, views.take(i as int)),
        {
            assert(views.take(i + 1).drop_last() =~= views.take(i as int));
            path = path.join(parts[i]);
        }
        assert(views.take(parts@.len() as int) =~= views);
        path
    }

    /// The path as text, for people to read.
    pub fn display(&self) -> (shown: String)
        ensures
            shown@ == text::lossy_text(self@),
            utf8::valid_utf8(self@) ==> shown@ == utf8::decode_utf8(self@),
    {
        text::decode_lossy(self.bytes.as_slice())
    }
}

/// Even the empty path has a piece.
proof fn lemma_some_piece(path: Seq<u8>)
    ensures
        pieces(path).len() > 0,
    decreases path.len(),
{
    if path.len() > 0 {
        lemma_some_piece(path.drop_last());
    }
}

/// A part stands whole behind its base, with one separator between the two unless the
/// base is empty or has one at its end. An absolute part stands alone.
pub proof fn a_part_stands_behind_its_base(base: Seq<u8>, part: Seq<u8>)
    ensures
        part.len() > 0 && part[0] == 0x2f ==> path_join(base, part) == part,
        !(part.len() > 0 && part[0] == 0x2f) ==> {
            let joined = path_join(base, part);
            let between: int = if base.len() > 0 && base.last() != 0x2f {
                1
            } else {
                0
            };
            &&& joined.len() == base.len() + between + part.len()
            &&& joined.take(base.len() as int) == base
            &&& between == 1 ==> joined[base.len() as int] == 0x2f
            &&& joined.skip(base.len() + between) == part
        },
{
    let joined = path_join(base, part);
    if !(part.len() > 0 && part[0] == 0x2f) {
        let between: int = if base.len() > 0 && base.last() != 0x2f {
            1
        } else {
            0
        };
        assert(joined.take(base.len() as int) =~= base);
        assert(joined.skip(base.len() + between) =~= part);
    }
}

/// The path that is reached through no part is the base itself; one more part leads one
/// step below.
pub proof fn each_part_leads_one_step_below(
    base: Seq<u8>,
    parts: Seq<Seq<char>>,
    part: Seq<char>,
)
    ensures
        path_below(base, Seq::empty()) == base,
        path_below(base, parts.push(part)) == path_join(
            path_below(base, parts),
            utf8::encode_utf8(part),
        ),
{
    lemma_path_push(base, parts, part);
}

proof fn lemma_pieces_of_both(a: Seq<u8>, b: Seq<u8>)
    ensures
        pieces(a.push(SEPARATOR) + b) == pieces(a) + pieces(b),
    decreases b.len(),
{
    let whole = a.push(SEPARATOR) + b;
    lemma_some_piece(a);
    lemma_some_piece(b);
    if b.len() == 0 {
        assert(whole =~= a.push(SEPARATOR));
        assert(whole.drop_last() =~= a);
        assert(pieces(whole) =~= pieces(a) + pieces(b));
    } else {
        let front = b.drop_last();
        lemma_pieces_of_both(a, front);
        lemma_some_piece(front);
        assert(whole.drop_last() =~= a.push(SEPARATOR) + front);
        assert(whole.last() == b.last());
        assert((pieces(a) + pieces(front)).drop_last() =~= pieces(a) + pieces(front).drop_last());
        assert(pieces(whole) =~= pieces(a) + pieces(b));
    }
}

proof fn lemma_one_piece(name: Seq<u8>)
    requires
        !name.contains(SEPARATOR),
    ensures
        pieces(name) == seq![name],
    decreases name.len(),
{
    if name.len() > 0 {
        let front = name.drop_last();
        assert(name.contains(name.last()));
        assert forall|i: int| 0 <= i < front.len() implies front[i] != SEPARATOR by {
            assert(name.contains(name[i]));
        }
        lemma_one_piece(front);
        assert(pieces(name) =~= seq![front.push(name.last())]);
        assert(front.push(name.last()) =~= name);
    } else {
        assert(name =~= Seq::<u8>::empty());
    }
}

/// A path without separators has one name, itself, unless it is empty or a dot; only
/// the dot makes it begin at the directory of the program.
pub proof fn a_name_is_a_path(name: Seq<u8>)
    requires
        !name.contains(0x2f),
    ensures
        path_parts(name) == (PathParts {
            absolute: false,
            dotted: name == seq![0x2eu8],
            names: if name.len() == 0 || name == seq![0x2eu8] {
                Seq::empty()
            } else {
                seq![name]
            },
        }),
{
    lemma_one_piece(name);
    if name.len() > 0 {
        assert(name.contains(name[0]));
    }
    let wanted = |piece: Seq<u8>| leads_on(piece);
    assert(seq![name] =~= Seq::<Seq<u8>>::empty().push(name));
    Seq::<Seq<u8>>::empty().lemma_filter_push(name, wanted);
    assert(Seq::<Seq<u8>>::empty().filter(wanted) =~= Seq::empty());
    assert(path_parts(name).names =~= if leads_on(name) {
        seq![name]
    } else {
        Seq::empty()
    });
}

/// Behind a separator the names go on, however many separators and dots stand there,
/// and how a path begins is decided by its front alone.
pub proof fn names_go_on_behind_a_separator(a: Seq<u8>, b: Seq<u8>)
    ensures
        path_parts(a.push(0x2f) + b).names == path_parts(a).names + path_parts(b).names,
        path_parts(a.push(0x2f) + b).absolute == (a.len() == 0 || a[0] == 0x2f),
        path_parts(a.push(0x2f) + b).dotted == path_parts(a).dotted,
{
    let wanted = |piece: Seq<u8>| leads_on(piece);
    lemma_pieces_of_both(a, b);
    lemma_some_piece(a);
    Seq::filter_distributes_over_add(pieces(a), pieces(b), wanted);
    if a.len() > 0 {
        assert((a.push(0x2f) + b)[0] == a[0]);
    }
}

/// A path that may be missing is told by its bytes if it is there.
pub proof fn a_path_is_told_by_its_bytes(path: Option<FilePath>)
    ensures
        path is None <==> optional_path(path) is None,
        path matches Some(p) ==> optional_path(path) == Some(p.bytes@),
{
}

} // verus!
