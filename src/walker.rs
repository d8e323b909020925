//! Classification of a directory tree into ReplayGain units (albums and
//! singles) and the explorer-like total order in which they are processed.
use vstd::prelude::*;
use std::cmp::Ordering;

verus! {

/// One component of a normalized path.
#[derive(Debug, Clone, PartialEq, Eq)]
pub enum PathPart {
    /// The root directory (`/`).
    Root,
    /// The current directory (`.`).
    Current,
    /// The parent directory (`..`).
    Parent,
    /// An ordinary file or directory name.
    Normal(String),
}

/// A normalized path, as the sequence of its components.
#[derive(Debug, Clone, PartialEq, Eq)]
pub struct FsPath {
    pub parts: Vec<PathPart>,
}

impl View for FsPath {
    type V = Seq<PathPart>;

    open spec fn view(&self) -> Seq<PathPart> {
        self.parts@
    }
}

/// A component as it takes part in comparisons: its kind and its name.
pub type Seg = (int, Seq<char>);

/// Components of different kinds order as `/` < `.` < `..` < names.
pub open spec fn rank(p: PathPart) -> int {
    match p {
        PathPart::Root => 0,
        PathPart::Current => 1,
        PathPart::Parent => 2,
        PathPart::Normal(_) => 3,
    }
}

pub open spec fn name_of(p: PathPart) -> Seq<char> {
    match p {
        PathPart::Normal(s) => s@,
        _ => Seq::empty(),
    }
}

pub open spec fn seg(p: PathPart) -> Seg {
    (rank(p), name_of(p))
}

/// What `str::to_uppercase` returns for a string with these characters.
pub uninterp spec fn upper_of(s: Seq<char>) -> Seq<char>;

/// The component with its name upper-cased.
pub open spec fn upper_seg(p: PathPart) -> Seg {
    match p {
        PathPart::Normal(s) => (3, upper_of(s@)),
        _ => seg(p),
    }
}

/// Relies on str::to_uppercase: the upper-cased string depends on the
/// characters alone.
#[verifier::external_body]
fn to_upper(s: &String) -> (r: String)
    ensures
        r@ == upper_of(s@),
{
    s.to_uppercase()
}

pub open spec fn key(s: Seq<PathPart>) -> Seq<Seg> {
    s.map_values(|p: PathPart| seg(p))
}

pub open spec fn upper_key(s: Seq<PathPart>) -> Seq<Seg> {
    s.map_values(|p: PathPart| upper_seg(p))
}

pub open spec fn reversed(o: Ordering) -> Ordering {
    match o {
        Ordering::Less => Ordering::Greater,
        Ordering::Equal => Ordering::Equal,
        Ordering::Greater => Ordering::Less,
    }
}

pub open spec fn int_order(a: int, b: int) -> Ordering {
    if a < b {
        Ordering::Less
    } else if a > b {
        Ordering::Greater
    } else {
        Ordering::Equal
    }
}

/// Lexicographic order of two names by code point (the order of their
/// UTF-8 bytes).
pub open spec fn text_order(a: Seq<char>, b: Seq<char>) -> Ordering
    decreases a.len(),
{
    if a.len() == 0 || b.len() == 0 {
        int_order(a.len() as int, b.len() as int)
    } else if a[0] != b[0] {
        int_order(a[0] as int, b[0] as int)
    } else {
        text_order(a.drop_first(), b.drop_first())
    }
}

pub open spec fn seg_order(a: Seg, b: Seg) -> Ordering {
    if a.0 != b.0 {
        int_order(a.0, b.0)
    } else {
        text_order(a.1, b.1)
    }
}

/// The plain component-wise order of two paths: a path sorts before every
/// longer path that it is a prefix of.
pub open spec fn path_order(a: Seq<Seg>, b: Seq<Seg>) -> Ordering
    decreases a.len(),
{
    if a.len() == 0 || b.len() == 0 {
        int_order(a.len() as int, b.len() as int)
    } else if seg_order(a[0], b[0]) != Ordering::Equal {
        seg_order(a[0], b[0])
    } else {
        path_order(a.drop_first(), b.drop_first())
    }
}

/// Order of a file path against a folder path: component-wise, except that
/// where the two first differ at the file's own name, the file sorts after
/// the folder.
pub open spec fn file_folder_order(file: Seq<Seg>, folder: Seq<Seg>) -> Ordering
    decreases file.len(),
{
    if file.len() == 0 || folder.len() == 0 {
        int_order(file.len() as int, folder.len() as int)
    } else if seg_order(file[0], folder[0]) != Ordering::Equal {
        if file.len() == 1 {
            Ordering::Greater
        } else {
            seg_order(file[0], folder[0])
        }
    } else {
        file_folder_order(file.drop_first(), folder.drop_first())
    }
}

/// Order of two file paths: component-wise, except that where the two first
/// differ at the name of one file but at a folder of the other, the file
/// sorts after the folder.
pub open spec fn file_file_order(a: Seq<Seg>, b: Seq<Seg>) -> Ordering
    decreases a.len(),
{
    if a.len() == 0 || b.len() == 0 {
        int_order(a.len() as int, b.len() as int)
    } else if seg_order(a[0], b[0]) != Ordering::Equal {
        if a.len() == 1 && b.len() != 1 {
            Ordering::Greater
        } else if a.len() != 1 && b.len() == 1 {
            Ordering::Less
        } else {
            seg_order(a[0], b[0])
        }
    } else {
        file_file_order(a.drop_first(), b.drop_first())
    }
}

fn is_equal(o: Ordering) -> (r: bool)
    ensures
        r == (o == Ordering::Equal),
{
    match o {
        Ordering::Equal => true,
        _ => false,
    }
}

fn order_of(a: usize, b: usize) -> (r: Ordering)
    ensures
        r == int_order(a as int, b as int),
{
    if a < b {
        Ordering::Less
    } else if a > b {
        Ordering::Greater
    } else {
        Ordering::Equal
    }
}

/// Compares two names by code point.
pub fn text_cmp(a: &String, b: &String) -> (r: Ordering)
    ensures
        r == text_order(a@, b@),
{
    let sa = a.as_str();
    let sb = b.as_str();
    let la = sa.unicode_len();
    let lb = sb.unicode_len();
    let mut i: usize = 0;
    assert(a@.skip(0) =~= a@);
    assert(b@.skip(0) =~= b@);
    while i < la && i < lb
        invariant
            i <= la,
            i <= lb,
            sa@ == a@,
            sb@ == b@,
            la == a@.len(),
            lb == b@.len(),
            text_order(a@, b@) == text_order(a@.skip(i as int), b@.skip(i as int)),
        decreases la - i,
    {
        let ca = sa.get_char(i);
        let cb = sb.get_char(i);
        if ca != cb {
            return order_of(ca as usize, cb as usize);
        }
        assert(a@.skip(i as int).drop_first() =~= a@.skip(i + 1));
        assert(b@.skip(i as int).drop_first() =~= b@.skip(i + 1));
        i = i + 1;
    }
    order_of(la, lb)
}

fn part_cmp(a: &PathPart, b: &PathPart) -> (r: Ordering)
    ensures
        r == seg_order(seg(*a), seg(*b)),
{
    let ra: usize = part_rank(a);
    let rb: usize = part_rank(b);
    if ra != rb {
        return order_of(ra, rb);
    }
    match (a, b) {
        (PathPart::Normal(x), PathPart::Normal(y)) => text_cmp(x, y),
        _ => Ordering::Equal,
    }
}

fn part_rank(p: &PathPart) -> (r: usize)
    ensures
        r as int == rank(*p),
{
    match p {
        PathPart::Root => 0,
        PathPart::Current => 1,
        PathPart::Parent => 2,
        PathPart::Normal(_) => 3,
    }
}

/// The component-wise order of two paths.
pub fn path_cmp(a: &FsPath, b: &FsPath) -> (r: Ordering)
    ensures
        r == path_order(key(a@), key(b@)),
{
    let la = a.parts.len();
    let lb = b.parts.len();
    let mut i: usize = 0;
    assert(key(a@).skip(0) =~= key(a@));
    assert(key(b@).skip(0) =~= key(b@));
    while i < la && i < lb
        invariant
            i <= la,
            i <= lb,
            la == a@.len(),
            lb == b@.len(),
            key(a@).len() == la,
            key(b@).len() == lb,
            path_order(key(a@), key(b@)) == path_order(
                key(a@).skip(i as int),
                key(b@).skip(i as int),
            ),
        decreases la - i,
    {
        let c = part_cmp(&a.parts[i], &b.parts[i]);
        assert(key(a@).skip(i as int)[0] == seg(a@[i as int]));
        assert(key(b@).skip(i as int)[0] == seg(b@[i as int]));
        if !is_equal(c) {
            return c;
        }
        assert(key(a@).skip(i as int).drop_first() =~= key(a@).skip(i + 1));
        assert(key(b@).skip(i as int).drop_first() =~= key(b@).skip(i + 1));
        i = i + 1;
    }
    order_of(la, lb)
}

/// Compares a file path with a folder path: where they first differ at the
/// file's own name, the file comes after the folder.
pub fn ff_cmp(file: &FsPath, folder: &FsPath) -> (r: Ordering)
    ensures
        r == file_folder_order(key(file@), key(folder@)),
{
    let la = file.parts.len();
    let lb = folder.parts.len();
    let mut i: usize = 0;
    assert(key(file@).skip(0) =~= key(file@));
    assert(key(folder@).skip(0) =~= key(folder@));
    while i < la && i < lb
        invariant
            i <= la,
            i <= lb,
            la == file@.len(),
            lb == folder@.len(),
            key(file@).len() == la,
            key(folder@).len() == lb,
            file_folder_order(key(file@), key(folder@)) == file_folder_order(
                key(file@).skip(i as int),
                key(folder@).skip(i as int),
            ),
        decreases la - i,
    {
        let c = part_cmp(&file.parts[i], &folder.parts[i]);
        assert(key(file@).skip(i as int)[0] == seg(file@[i as int]));
        assert(key(folder@).skip(i as int)[0] == seg(folder@[i as int]));
        if !is_equal(c) {
            if i + 1 == la {
                return Ordering::Greater;
            }
            return c;
        }
        assert(key(file@).skip(i as int).drop_first() =~= key(file@).skip(i + 1));
        assert(key(folder@).skip(i as int).drop_first() =~= key(folder@).skip(i + 1));
        i = i + 1;
    }
    order_of(la, lb)
}

/// Compares two file paths: where they first differ at the name of one
/// file and at a folder of the other, the file comes after the folder.
pub fn single_cmp(s1: &FsPath, s2: &FsPath) -> (r: Ordering)
    ensures
        r == file_file_order(key(s1@), key(s2@)),
{
    let la = s1.parts.len();
    let lb = s2.parts.len();
    let mut i: usize = 0;
    assert(key(s1@).skip(0) =~= key(s1@));
    assert(key(s2@).skip(0) =~= key(s2@));
    while i < la && i < lb
        invariant
            i <= la,
            i <= lb,
            la == s1@.len(),
            lb == s2@.len(),
            key(s1@).len() == la,
            key(s2@).len() == lb,
            file_file_order(key(s1@), key(s2@)) == file_file_order(
                key(s1@).skip(i as int),
                key(s2@).skip(i as int),
            ),
        decreases la - i,
    {
        let c = part_cmp(&s1.parts[i], &s2.parts[i]);
        assert(key(s1@).skip(i as int)[0] == seg(s1@[i as int]));
        assert(key(s2@).skip(i as int)[0] == seg(s2@[i as int]));
        if !is_equal(c) {
            if i + 1 == la && i + 1 != lb {
                return Ordering::Greater;
            } else if i + 1 != la && i + 1 == lb {
                return Ordering::Less;
            }
            return c;
        }
        assert(key(s1@).skip(i as int).drop_first() =~= key(s1@).skip(i + 1));
        assert(key(s2@).skip(i as int).drop_first() =~= key(s2@).skip(i + 1));
        i = i + 1;
    }
    order_of(la, lb)
}

/// The lexical normal form of a path: `.` components are dropped, and a
/// `..` removes the name before it; a `..` right after the root is dropped,
/// and one with no name before it is kept. Links are not resolved.
pub open spec fn normal_form(p: Seq<PathPart>) -> Seq<PathPart>
    decreases p.len(),
{
    if p.len() == 0 {
        p
    } else {
        let q = normal_form(p.drop_last());
        match p.last() {
            PathPart::Current => q,
            PathPart::Parent => if q.len() > 0 && q.last() is Normal {
                q.drop_last()
            } else if q.len() > 0 && q.last() is Root {
                q
            } else {
                q.push(PathPart::Parent)
            },
            x => q.push(x),
        }
    }
}

/// Normalizes a path lexically (see `normal_form`).
pub fn normalized(p: &FsPath) -> (r: FsPath)
    ensures
        r@ == normal_form(p@),
{
    let mut parts: Vec<PathPart> = Vec::new();
    let mut i: usize = 0;
    assert(p@.take(0) =~= Seq::<PathPart>::empty());
    while i < p.parts.len()
        invariant
            i <= p@.len(),
            parts@ == normal_form(p@.take(i as int)),
        decreases p@.len() - i,
    {
        assert(p@.take(i + 1).drop_last() =~= p@.take(i as int));
        let n = parts.len();
        match &p.parts[i] {
            PathPart::Current => {},
            PathPart::Parent => {
                if n > 0 && matches!(parts[n - 1], PathPart::Normal(_)) {
                    parts.pop();
                    assert(parts@ =~= normal_form(p@.take(i as int)).drop_last());
                } else if n > 0 && matches!(parts[n - 1], PathPart::Root) {
                } else {
                    parts.push(PathPart::Parent);
                }
            },
            x => {
                parts.push(copy_part(x));
            },
        }
        i = i + 1;
    }
    assert(p@.take(p@.len() as int) =~= p@);
    FsPath { parts }
}

/// A path that names a file: it ends in an ordinary name.
pub open spec fn is_file_path(p: Seq<PathPart>) -> bool {
    p.len() >= 1 && p.last() is Normal
}

/// The folder that holds the last component (the path itself when empty).
pub open spec fn parent_of(p: Seq<PathPart>) -> Seq<PathPart> {
    if p.len() == 0 {
        p
    } else {
        p.drop_last()
    }
}

/// One ReplayGain unit: an album (the audio files of one folder) or a
/// single file.
#[derive(Debug, Clone, PartialEq, Eq)]
pub enum RGE {
    Album(Vec<FsPath>),
    Single(FsPath),
}

/// An album sorts as its folder, upper-cased.
pub open spec fn album_key(v: Seq<FsPath>) -> Seq<Seg> {
    if v.len() == 0 {
        Seq::empty()
    } else {
        upper_key(parent_of(v[0]@))
    }
}

/// A single sorts as its own path, upper-cased.
pub open spec fn single_key(p: FsPath) -> Seq<Seg> {
    upper_key(p@)
}

/// The order in which units are processed and reported.
pub open spec fn unit_order(a: RGE, b: RGE) -> Ordering {
    match (a, b) {
        (RGE::Album(x), RGE::Album(y)) => path_order(album_key(x@), album_key(y@)),
        (RGE::Album(x), RGE::Single(q)) => reversed(file_folder_order(single_key(q), album_key(x@))),
        (RGE::Single(p), RGE::Album(y)) => file_folder_order(single_key(p), album_key(y@)),
        (RGE::Single(p), RGE::Single(q)) => file_file_order(single_key(p), single_key(q)),
    }
}

/// The paths of the files of a unit.
pub open spec fn files_of(u: RGE) -> Seq<FsPath> {
    match u {
        RGE::Album(v) => v@,
        RGE::Single(p) => seq![p],
    }
}

/// The folder of an album, or the path of a single.
pub open spec fn relevant_of(u: RGE) -> Seq<PathPart> {
    match u {
        RGE::Album(v) => if v@.len() == 0 {
            Seq::empty()
        } else {
            parent_of(v@[0]@)
        },
        RGE::Single(p) => p@,
    }
}

fn copy_part(p: &PathPart) -> (r: PathPart)
    ensures
        r == *p,
{
    match p {
        PathPart::Root => PathPart::Root,
        PathPart::Current => PathPart::Current,
        PathPart::Parent => PathPart::Parent,
        PathPart::Normal(s) => PathPart::Normal(s.clone()),
    }
}

/// The first `n` components of a path.
pub fn path_prefix(p: &FsPath, n: usize) -> (r: FsPath)
    requires
        n <= p@.len(),
    ensures
        r@ == p@.take(n as int),
{
    let mut parts: Vec<PathPart> = Vec::new();
    let mut i: usize = 0;
    while i < n
        invariant
            i <= n,
            n <= p@.len(),
            parts@ =~= p@.take(i as int),
        decreases n - i,
    {
        parts.push(copy_part(&p.parts[i]));
        i = i + 1;
    }
    FsPath { parts }
}

fn upper_part(p: &PathPart) -> (r: PathPart)
    ensures
        seg(r) == upper_seg(*p),
{
    match p {
        PathPart::Root => PathPart::Root,
        PathPart::Current => PathPart::Current,
        PathPart::Parent => PathPart::Parent,
        PathPart::Normal(s) => PathPart::Normal(to_upper(s)),
    }
}

/// The first `n` components of a path, with every name upper-cased.
fn upper_prefix(p: &FsPath, n: usize) -> (r: FsPath)
    requires
        n <= p@.len(),
    ensures
        key(r@) == upper_key(p@.take(n as int)),
{
    let mut parts: Vec<PathPart> = Vec::new();
    let mut i: usize = 0;
    while i < n
        invariant
            i <= n,
            n <= p@.len(),
            parts@.len() == i,
            forall|k: int| 0 <= k < i ==> seg(#[trigger] parts@[k]) == upper_seg(p@[k]),
        decreases n - i,
    {
        parts.push(upper_part(&p.parts[i]));
        i = i + 1;
    }
    assert(key(parts@) =~= upper_key(p@.take(n as int)));
    FsPath { parts }
}

/// The path by which a single sorts: the path itself, upper-cased.
pub fn singled(p: &FsPath) -> (r: FsPath)
    ensures
        key(r@) == upper_key(p@),
{
    let r = upper_prefix(p, p.parts.len());
    assert(p@.take(p@.len() as int) =~= p@);
    r
}

/// The path by which an album with this member sorts: the member's folder,
/// upper-cased.
pub fn albumed(p: &FsPath) -> (r: FsPath)
    ensures
        key(r@) == upper_key(parent_of(p@)),
{
    let n = p.parts.len();
    if n == 0 {
        FsPath { parts: Vec::new() }
    } else {
        let r = upper_prefix(p, n - 1);
        assert(p@.take(n - 1) =~= p@.drop_last());
        r
    }
}

fn album_sort_path(v: &Vec<FsPath>) -> (r: FsPath)
    ensures
        key(r@) == album_key(v@),
{
    if v.len() == 0 {
        let r = FsPath { parts: Vec::new() };
        assert(key(r@) =~= Seq::<Seg>::empty());
        r
    } else {
        albumed(&v[0])
    }
}

fn reverse(o: Ordering) -> (r: Ordering)
    ensures
        r == reversed(o),
{
    match o {
        Ordering::Less => Ordering::Greater,
        Ordering::Equal => Ordering::Equal,
        Ordering::Greater => Ordering::Less,
    }
}

impl RGE {
    /// Well-formed: an album is not empty, and every path names a file.
    pub open spec fn wf(&self) -> bool {
        match self {
            RGE::Album(v) => v@.len() >= 1 && forall|i: int|
                0 <= i < v@.len() ==> is_file_path(#[trigger] v@[i]@),
            RGE::Single(p) => is_file_path(p@),
        }
    }

    /// The paths of all files of the unit (one for a single).
    pub fn sliced(&self) -> (r: Vec<FsPath>)
        ensures
            r@.len() == files_of(*self).len(),
            forall|i: int| 0 <= i < r@.len() ==> #[trigger] r@[i]@ == files_of(*self)[i]@,
    {
        match self {
            RGE::Album(v) => {
                let mut r: Vec<FsPath> = Vec::new();
                let mut i: usize = 0;
                while i < v.len()
                    invariant
                        i <= v@.len(),
                        r@.len() == i,
                        forall|k: int| 0 <= k < i ==> #[trigger] r@[k]@ == v@[k]@,
                    decreases v@.len() - i,
                {
                    r.push(path_prefix(&v[i], v[i].parts.len()));
                    assert(v@[i as int]@.take(v@[i as int]@.len() as int) =~= v@[i as int]@);
                    i = i + 1;
                }
                r
            },
            RGE::Single(p) => {
                let c = path_prefix(p, p.parts.len());
                assert(p@.take(p@.len() as int) =~= p@);
                vec![c]
            },
        }
    }

    /// The folder of an album, or the path of a single.
    pub fn relevant_path(&self) -> (r: FsPath)
        ensures
            r@ == relevant_of(*self),
    {
        match self {
            RGE::Album(v) => {
                if v.len() == 0 {
                    let r = FsPath { parts: Vec::new() };
                    assert(r@ =~= Seq::<PathPart>::empty());
                    r
                } else {
                    let n = v[0].parts.len();
                    if n == 0 {
                        path_prefix(&v[0], 0)
                    } else {
                        let r = path_prefix(&v[0], n - 1);
                        assert(v@[0]@.take(n - 1) =~= v@[0]@.drop_last());
                        r
                    }
                }
            },
            RGE::Single(p) => {
                let r = path_prefix(p, p.parts.len());
                assert(p@.take(p@.len() as int) =~= p@);
                r
            },
        }
    }

    /// Whether the unit is an album.
    pub fn is_album(&self) -> (r: bool)
        ensures
            r == (*self is Album),
    {
        match self {
            RGE::Album(_) => true,
            RGE::Single(_) => false,
        }
    }

    /// The order of two units: albums sort as their folder, singles as their
    /// path, names compared upper-cased; where a file and a folder first
    /// differ at the file's own name, the file comes after the folder.
    pub fn compare(&self, other: &RGE) -> (r: Ordering)
        ensures
            r == unit_order(*self, *other),
    {
        match self {
            RGE::Album(s) => {
                let s = album_sort_path(s);
                match other {
                    RGE::Album(o) => path_cmp(&s, &album_sort_path(o)),
                    RGE::Single(o) => reverse(ff_cmp(&singled(o), &s)),
                }
            },
            RGE::Single(s) => {
                let s = singled(s);
                match other {
                    RGE::Album(o) => ff_cmp(&s, &album_sort_path(o)),
                    RGE::Single(o) => single_cmp(&s, &singled(o)),
                }
            },
        }
    }
}

impl PartialOrd for RGE {
    fn partial_cmp(&self, other: &RGE) -> (r: Option<Ordering>)
        ensures
            r == Some(unit_order(*self, *other)),
    {
        Some(self.compare(other))
    }
}

impl vstd::std_specs::cmp::PartialOrdSpecImpl for RGE {
    open spec fn obeys_partial_cmp_spec() -> bool {
        true
    }

    open spec fn partial_cmp_spec(&self, other: &RGE) -> Option<Ordering> {
        Some(unit_order(*self, *other))
    }
}

/// `c` is the character `w` or, where `w` is a lower-case ASCII letter, its
/// upper-case form: `c` lower-cased in ASCII is `w` for every `w` that is not
/// an upper-case ASCII letter.
pub open spec fn same_letter(c: char, w: char) -> bool {
    c == w || ('A' <= c && c <= 'Z' && c as int + 32 == w as int)
}

/// `s` lower-cased in ASCII is `w` (a word without upper-case letters).
pub open spec fn eq_ignore_case(s: Seq<char>, w: Seq<char>) -> bool {
    s.len() == w.len() && forall|i: int| 0 <= i < s.len() ==> same_letter(#[trigger] s[i], w[i])
}

/// Tests whether `s` lower-cased in ASCII is `word`.
pub fn matches_word(s: &str, word: &str) -> (r: bool)
    ensures
        r == eq_ignore_case(s@, word@),
{
    let n = s.unicode_len();
    if n != word.unicode_len() {
        return false;
    }
    let mut i: usize = 0;
    while i < n
        invariant
            i <= n,
            n == s@.len(),
            n == word@.len(),
            forall|k: int| 0 <= k < i ==> same_letter(#[trigger] s@[k], word@[k]),
        decreases n - i,
    {
        let c = s.get_char(i);
        let w = word.get_char(i);
        let same = c == w || ('A' <= c && c <= 'Z' && c as u32 + 32 == w as u32);
        if !same {
            return false;
        }
        i = i + 1;
    }
    true
}

/// The name of the last component, where it is an ordinary name.
pub open spec fn file_name(p: Seq<PathPart>) -> Option<Seq<char>> {
    if p.len() > 0 && p.last() is Normal {
        Some(name_of(p.last()))
    } else {
        None
    }
}

/// The position of the last `.` in a name, or -1.
pub open spec fn last_dot(n: Seq<char>) -> int
    decreases n.len(),
{
    if n.len() == 0 {
        -1
    } else if n.last() == '.' {
        n.len() - 1
    } else {
        last_dot(n.drop_last())
    }
}

/// The extension of a name: what follows its last `.`, unless that `.` is
/// the first character.
pub open spec fn extension_of(n: Seq<char>) -> Option<Seq<char>> {
    if last_dot(n) > 0 {
        Some(n.subrange(last_dot(n) + 1, n.len() as int))
    } else {
        None
    }
}

/// The extensions, compared without regard to ASCII case, of the files
/// that are taken for audio.
pub open spec fn is_audio_ext(e: Seq<char>) -> bool {
    eq_ignore_case(e, "flac"@) || eq_ignore_case(e, "opus"@) || eq_ignore_case(e, "mp3"@)
        || eq_ignore_case(e, "ogg"@) || eq_ignore_case(e, "ape"@) || eq_ignore_case(e, "m4a"@)
        || eq_ignore_case(e, "wav"@) || eq_ignore_case(e, "oga"@) || eq_ignore_case(e, "spx"@)
        || eq_ignore_case(e, "wma"@) || eq_ignore_case(e, "asf"@) || eq_ignore_case(e, "mp2"@)
        || eq_ignore_case(e, "aif"@) || eq_ignore_case(e, "aiff"@) || eq_ignore_case(e, "wv"@)
}

pub open spec fn is_audio(p: Seq<PathPart>) -> bool {
    match file_name(p) {
        Some(n) => match extension_of(n) {
            Some(e) => is_audio_ext(e),
            None => false,
        },
        None => false,
    }
}

/// The names, compared without regard to ASCII case, of a folder that only
/// holds cover art.
pub open spec fn is_art_name(n: Seq<char>) -> bool {
    eq_ignore_case(n, "cover"@) || eq_ignore_case(n, "covers"@) || eq_ignore_case(n, "arts"@)
        || eq_ignore_case(n, "art"@) || eq_ignore_case(n, "scans"@)
}

fn last_dot_of(n: &str) -> (r: usize)
    ensures
        r == if last_dot(n@) >= 0 { last_dot(n@) as usize } else { n@.len() as usize },
        last_dot(n@) < n@.len(),
{
    let len: usize = n.unicode_len();
    let mut i: usize = len;
    assert(n@.take(len as int) =~= n@);
    while i > 0
        invariant
            i <= len,
            len == n@.len(),
            last_dot(n@) == last_dot(n@.take(i as int)),
        decreases i,
    {
        assert(n@.take(i as int).drop_last() =~= n@.take(i - 1));
        if n.get_char(i - 1) == '.' {
            return i - 1;
        }
        i = i - 1;
    }
    len
}

proof fn lemma_last_dot_bound(n: Seq<char>)
    ensures
        -1 <= last_dot(n) < n.len(),
        last_dot(n) >= 0 ==> n[last_dot(n)] == '.',
    decreases n.len(),
{
    if n.len() > 0 && n.last() != '.' {
        lemma_last_dot_bound(n.drop_last());
    }
}

/// Whether a path names an audio file, by the extension of its name.
pub fn is_audio_path(path: &FsPath) -> (r: bool)
    ensures
        r == is_audio(path@),
{
    let n = path.parts.len();
    if n == 0 {
        return false;
    }
    match &path.parts[n - 1] {
        PathPart::Normal(name) => {
            let s = name.as_str();
            proof {
                lemma_last_dot_bound(s@);
            }
            let k = last_dot_of(s);
            let len = s.unicode_len();
            if k == 0 || k >= len {
                return false;
            }
            let ext = s.substring_char(k + 1, len);
            matches_word(ext, "flac") || matches_word(ext, "opus") || matches_word(ext, "mp3")
                || matches_word(ext, "ogg") || matches_word(ext, "ape") || matches_word(ext, "m4a")
                || matches_word(ext, "wav") || matches_word(ext, "oga") || matches_word(ext, "spx")
                || matches_word(ext, "wma") || matches_word(ext, "asf") || matches_word(ext, "mp2")
                || matches_word(ext, "aif") || matches_word(ext, "aiff") || matches_word(ext, "wv")
        },
        _ => false,
    }
}

/// Whether the folders are exactly one folder of cover art.
pub fn is_one_art_folder(folders: &Vec<FsPath>) -> (r: bool)
    ensures
        r == (folders@.len() == 1 && match file_name(folders@[0]@) {
            Some(n) => is_art_name(n),
            None => false,
        }),
{
    if folders.len() != 1 {
        return false;
    }
    let f = &folders[0];
    let n = f.parts.len();
    if n == 0 {
        return false;
    }
    match &f.parts[n - 1] {
        PathPart::Normal(name) => {
            let s = name.as_str();
            matches_word(s, "cover") || matches_word(s, "covers") || matches_word(s, "arts")
                || matches_word(s, "art") || matches_word(s, "scans")
        },
        _ => false,
    }
}

/// A directory is one album (or nothing) when it has no subfolders, or only
/// one folder of cover art.
pub open spec fn collapses(folders: Seq<FsPath>) -> bool {
    folders.len() == 0 || (folders.len() == 1 && match file_name(folders[0]@) {
        Some(n) => is_art_name(n),
        None => false,
    })
}

/// The audio files among `files`, in their order.
pub open spec fn audio_of(files: Seq<FsPath>) -> Seq<FsPath>
    decreases files.len(),
{
    if files.len() == 0 {
        files
    } else if is_audio(files.last()@) {
        audio_of(files.drop_last()).push(files.last())
    } else {
        audio_of(files.drop_last())
    }
}

proof fn lemma_audio_of_audio(files: Seq<FsPath>)
    ensures
        forall|i: int|
            0 <= i < audio_of(files).len() ==> is_audio(#[trigger] audio_of(files)[i]@)
                && is_file_path(audio_of(files)[i]@),
    decreases files.len(),
{
    if files.len() > 0 {
        let d = files.drop_last();
        lemma_audio_of_audio(d);
        assert forall|i: int| 0 <= i < audio_of(files).len() implies is_audio(
            #[trigger] audio_of(files)[i]@,
        ) && is_file_path(audio_of(files)[i]@) by {
            if i < audio_of(d).len() {
                assert(audio_of(files)[i] == audio_of(d)[i]);
            }
        }
    }
}

/// What one directory yields, given its subfolders and its files.
pub enum DirUnits {
    /// The directory is one album of these audio files.
    Album(Vec<FsPath>),
    /// The directory yields no unit.
    Nothing,
    /// Each subfolder is walked in turn, then each of these audio files is a
    /// single.
    Descend(Vec<FsPath>),
}

/// Decides what one directory yields: where it has no subfolders, or only
/// one folder of cover art, its audio files form one album (if there are
/// any) and no subfolder is walked; otherwise every subfolder is walked and
/// every audio file of the directory itself is a single.
pub fn classify_dir(folders: &Vec<FsPath>, files: Vec<FsPath>) -> (r: DirUnits)
    ensures
        collapses(folders@) && audio_of(files@).len() > 0 ==> r is Album && r->Album_0@ == audio_of(
            files@,
        ),
        collapses(folders@) && audio_of(files@).len() == 0 ==> r is Nothing,
        !collapses(folders@) ==> r is Descend && r->Descend_0@ == audio_of(files@),
        r is Album ==> RGE::Album(r->Album_0).wf(),
        r is Descend ==> forall|i: int|
            0 <= i < r->Descend_0@.len() ==> RGE::Single(#[trigger] r->Descend_0@[i]).wf(),
{
    let ghost all = files@;
    let mut rest = files;
    let mut audio: Vec<FsPath> = Vec::new();
    assert(all.take(0) =~= Seq::<FsPath>::empty());
    assert(all.skip(0) =~= all);
    while rest.len() > 0
        invariant
            rest@.len() <= all.len(),
            rest@ == all.skip(all.len() - rest@.len()),
            audio@ == audio_of(all.take(all.len() - rest@.len())),
        decreases rest@.len(),
    {
        let ghost k = all.len() - rest@.len();
        let f = rest.remove(0);
        proof {
            assert(all.take(k + 1).drop_last() =~= all.take(k));
            assert(all.take(k + 1).last() == f);
            assert(rest@ =~= all.skip(k + 1));
        }
        if is_audio_path(&f) {
            audio.push(f);
        }
    }
    assert(all.take(all.len() as int) =~= all);
    proof {
        lemma_audio_of_audio(all);
    }
    let collapse = folders.len() == 0 || is_one_art_folder(folders);
    if collapse {
        if audio.len() > 0 {
            DirUnits::Album(audio)
        } else {
            DirUnits::Nothing
        }
    } else {
        DirUnits::Descend(audio)
    }
}

} // verus!
