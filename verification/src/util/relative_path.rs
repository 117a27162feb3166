//! Path arithmetic for links between the store and destinations.
//!
//! Paths are handled as their components; touching the file system is left
//! to the caller.
use vstd::prelude::*;

verus! {

/// A component of a path.
#[derive(Debug, Clone)]
pub enum Component {
    /// A drive or share prefix (Windows only).
    Prefix(String),
    /// The root directory.
    RootDir,
    /// `.` at the start of a relative path.
    CurDir,
    /// `..`.
    ParentDir,
    /// A name.
    Normal(String),
}

/// The view of a path component.
pub enum ComponentView {
    Prefix(Seq<char>),
    RootDir,
    CurDir,
    ParentDir,
    Normal(Seq<char>),
}

impl View for Component {
    type V = ComponentView;

    open spec fn view(&self) -> ComponentView {
        match self {
            Component::Prefix(p) => ComponentView::Prefix(p@),
            Component::RootDir => ComponentView::RootDir,
            Component::CurDir => ComponentView::CurDir,
            Component::ParentDir => ComponentView::ParentDir,
            Component::Normal(n) => ComponentView::Normal(n@),
        }
    }
}

impl Component {
    /// A copy of the component.
    pub fn duplicate(&self) -> (r: Component)
        ensures
            r@ == self@,
    {
        match self {
            Component::Prefix(p) => Component::Prefix(p.clone()),
            Component::RootDir => Component::RootDir,
            Component::CurDir => Component::CurDir,
            Component::ParentDir => Component::ParentDir,
            Component::Normal(n) => Component::Normal(n.clone()),
        }
    }

    /// Whether two components are the same.
    pub fn same(&self, other: &Component) -> (r: bool)
        ensures
            r == (self@ == other@),
    {
        match (self, other) {
            (Component::Prefix(a), Component::Prefix(b)) => *a == *b,
            (Component::RootDir, Component::RootDir) => true,
            (Component::CurDir, Component::CurDir) => true,
            (Component::ParentDir, Component::ParentDir) => true,
            (Component::Normal(a), Component::Normal(b)) => *a == *b,
            _ => false,
        }
    }
}

/// The views of a list of components.
pub open spec fn path_view(p: Seq<Component>) -> Seq<ComponentView> {
    p.map_values(|c: Component| c@)
}

/// Whether a path has a parent: it ends in a name, `.` or `..`.
pub open spec fn has_parent(p: Seq<ComponentView>) -> bool {
    p.len() > 0 && (p.last() is Normal || p.last() is CurDir || p.last() is ParentDir)
}

/// The length of the longest common prefix of two paths.
pub open spec fn common_len(a: Seq<ComponentView>, b: Seq<ComponentView>) -> nat
    decreases a.len(),
{
    if a.len() == 0 || b.len() == 0 || a[0] != b[0] {
        0
    } else {
        1 + common_len(a.drop_first(), b.drop_first())
    }
}

/// Whether the components of `p` from `n` on are names, up to the first
/// prefix, if any.
pub open spec fn names_until_prefix(p: Seq<ComponentView>, n: int) -> bool {
    forall|i: int|
        n <= i < p.len() && (forall|j: int| n <= j < i ==> p[j] is Normal) ==> (#[trigger] p[i] is Normal
            || p[i] is Prefix)
}

/// Whether the components of `p` from `n` on are all names.
pub open spec fn all_names(p: Seq<ComponentView>, n: int) -> bool {
    forall|i: int| n <= i < p.len() ==> #[trigger] p[i] is Normal
}

/// The conditions under which `relative_path_to` is defined: past their
/// common prefix, the directory of the link holds only names up to a
/// prefix, and if it holds no prefix there, the source holds only names.
pub open spec fn relative_path_defined(source: Seq<ComponentView>, dir: Seq<ComponentView>) -> bool {
    let n = common_len(source, dir) as int;
    &&& names_until_prefix(dir, n)
    &&& all_names(dir, n) ==> all_names(source, n)
}

/// The name of a component that is a name.
pub open spec fn name_of(c: ComponentView) -> Seq<char> {
    match c {
        ComponentView::Normal(n) => n,
        _ => Seq::empty(),
    }
}

/// The path from directory `dir` to `source`: one `..` for each component
/// of `dir` past the common prefix, then the rest of `source`; `None` when
/// `dir` has a prefix past the common part.
pub open spec fn spec_relative_path(source: Seq<ComponentView>, dir: Seq<ComponentView>) -> Option<
    Seq<Seq<char>>,
> {
    let n = common_len(source, dir) as int;
    if all_names(dir, n) {
        Some(
            Seq::new((dir.len() - n) as nat, |i: int| ".."@) + Seq::new(
                (source.len() - n) as nat,
                |i: int| name_of(source[n + i]),
            ),
        )
    } else {
        None
    }
}

proof fn lemma_common_len(a: Seq<ComponentView>, b: Seq<ComponentView>, k: int)
    requires
        0 <= k <= a.len(),
        k <= b.len(),
        forall|j: int| 0 <= j < k ==> a[j] == b[j],
    ensures
        common_len(a, b) >= k,
        k < a.len() && k < b.len() && a[k] != b[k] ==> common_len(a, b) == k,
        k == a.len() || k == b.len() ==> common_len(a, b) == k,
    decreases k,
{
    if k > 0 {
        lemma_common_len(a.drop_first(), b.drop_first(), k - 1);
    } else {
        if a.len() > 0 && b.len() > 0 && a[0] == b[0] {
        }
    }
}

proof fn lemma_common_len_bound(a: Seq<ComponentView>, b: Seq<ComponentView>)
    ensures
        common_len(a, b) <= a.len(),
        common_len(a, b) <= b.len(),
        forall|j: int| 0 <= j < common_len(a, b) ==> a[j] == b[j],
    decreases a.len(),
{
    if a.len() > 0 && b.len() > 0 && a[0] == b[0] {
        lemma_common_len_bound(a.drop_first(), b.drop_first());
        assert forall|j: int| 0 <= j < common_len(a, b) implies a[j] == b[j] by {
            if j > 0 {
                assert(a.drop_first()[j - 1] == b.drop_first()[j - 1]);
            }
        }
    }
}

fn common_prefix(source: &Vec<Component>, path: &Vec<Component>, len: usize) -> (n: usize)
    requires
        len <= path@.len(),
    ensures
        n == common_len(path_view(source@), path_view(path@.take(len as int))),
{
    let ghost s = path_view(source@);
    let ghost d = path_view(path@.take(len as int));
    let mut n: usize = 0;
    while n < source.len() && n < len && source[n].same(&path[n])
        invariant
            0 <= n <= source@.len(),
            n <= len <= path@.len(),
            s == path_view(source@),
            d == path_view(path@.take(len as int)),
            forall|j: int| 0 <= j < len ==> d[j] == path@[j]@,
            forall|j: int| 0 <= j < n ==> s[j] == d[j],
        decreases source@.len() - n,
    {
        n = n + 1;
    }
    proof {
        lemma_common_len(s, d, n as int);
    }
    n
}

/// The path from the directory made of the first `len` components of
/// `path` to `source`.
fn relative_to_dir(source: &Vec<Component>, path: &Vec<Component>, len: usize) -> (r: Option<
    Vec<String>,
>)
    requires
        len <= path@.len(),
        relative_path_defined(path_view(source@), path_view(path@.take(len as int))),
    ensures
        match r {
            Some(v) => spec_relative_path(path_view(source@), path_view(path@.take(len as int)))
                == Some(v@.map_values(|s: String| s@)),
            None => spec_relative_path(path_view(source@), path_view(path@.take(len as int))) is None,
        },
{
    let ghost s = path_view(source@);
    let ghost d = path_view(path@.take(len as int));
    let n = common_prefix(source, path, len);
    proof {
        lemma_common_len_bound(s, d);
    }
    let mut ret: Vec<String> = Vec::new();
    let mut i: usize = n;
    while i < len
        invariant
            n <= i <= len <= path@.len(),
            n == common_len(s, d),
            d == path_view(path@.take(len as int)),
            s == path_view(source@),
            relative_path_defined(s, d),
            forall|j: int| n <= j < i ==> d[j] is Normal,
            ret@.map_values(|x: String| x@) =~= Seq::new((i - n) as nat, |k: int| ".."@),
        decreases len - i,
    {
        assert(d[i as int] == path@[i as int]@);
        match &path[i] {
            Component::Normal(_) => {
                let ghost prev = ret@;
                ret.push(String::from_str(".."));
                proof {
                    assert(ret@.map_values(|x: String| x@) =~= prev.map_values(|x: String| x@).push(
                        ".."@,
                    ));
                }
            },
            _ => {
                assert(d[i as int] is Prefix);
                assert(!all_names(d, n as int));
                assert(spec_relative_path(s, d) is None);
                return None;
            },
        }
        i = i + 1;
    }
    assert(all_names(d, n as int));
    append_names(source, n, ret)
}

fn append_names(source: &Vec<Component>, n: usize, ret: Vec<String>) -> (r: Option<Vec<String>>)
    requires
        n <= source@.len(),
        all_names(path_view(source@), n as int),
    ensures
        r is Some,
        r.unwrap()@.map_values(|x: String| x@) == ret@.map_values(|x: String| x@) + Seq::new(
            (source@.len() - n) as nat,
            |k: int| name_of(path_view(source@)[n + k]),
        ),
{
    let ghost s = path_view(source@);
    let ghost ups = ret@.map_values(|x: String| x@);
    let mut ret = ret;
    let mut j: usize = n;
    while j < source.len()
        invariant
            n <= j <= source@.len(),
            s == path_view(source@),
            all_names(s, n as int),
            ret@.map_values(|x: String| x@) =~= ups + Seq::new(
                (j - n) as nat,
                |k: int| name_of(s[n + k]),
            ),
        decreases source@.len() - j,
    {
        match &source[j] {
            Component::Normal(name) => {
                let ghost prev = ret@;
                ret.push(name.clone());
                proof {
                    assert(ret@.map_values(|x: String| x@) =~= prev.map_values(|x: String| x@).push(
                        name_of(s[j as int]),
                    ));
                }
            },
            _ => {
                assert(s[j as int] is Normal);
                return None;
            },
        }
        j = j + 1;
    }
    Some(ret)
}

/// The path from the directory of `path` to `source`, as names (`..` to go
/// up); `None` when the two cannot be related.
pub fn relative_path_to(source: &Vec<Component>, path: &Vec<Component>) -> (r: Option<Vec<String>>)
    requires
        has_parent(path_view(path@)),
        relative_path_defined(path_view(source@), path_view(path@).drop_last()),
    ensures
        match r {
            Some(v) => spec_relative_path(path_view(source@), path_view(path@).drop_last()) == Some(
                v@.map_values(|s: String| s@),
            ),
            None => spec_relative_path(path_view(source@), path_view(path@).drop_last()) is None,
        },
{
    let len = path.len() - 1;
    assert(path_view(path@.take(len as int)) =~= path_view(path@).drop_last());
    relative_to_dir(source, path, len)
}

/// Why a destination cannot be prepared.
#[derive(Debug, Clone, Copy, PartialEq, Eq)]
pub enum DestPrepError {
    /// The destination has no parent directory or no file name.
    InvalidPath,
    /// Its directory could not be created.
    CreateDir,
    /// Its directory could not be canonicalized.
    Canonicalize,
}

/// Why a link cannot be made.
#[derive(Debug, Clone, Copy, PartialEq, Eq)]
pub enum LinkError {
    /// The directory of the link could not be created.
    CreateDir,
    /// The store path cannot be reached from the link by a relative path.
    DifferentPrefix,
    /// The link could not be created.
    SymLink,
}

/// What to create for a destination: the directory (to create if missing
/// and to canonicalize), and the file name to append to it.
pub struct DestPrep {
    pub dir: Vec<Component>,
    pub file_name: Option<String>,
}

/// The directory of a destination: its parent, or `.` when the parent is
/// empty; `None` when it has no parent.
pub open spec fn spec_dest_dir(p: Seq<ComponentView>) -> Option<Seq<ComponentView>> {
    if has_parent(p) {
        if p.len() == 1 {
            Some(seq![ComponentView::CurDir])
        } else {
            Some(p.drop_last())
        }
    } else {
        None
    }
}

/// The file name of a path: its last component if that is a name.
pub open spec fn spec_file_name(p: Seq<ComponentView>) -> Option<Seq<char>> {
    if p.len() > 0 && p.last() is Normal {
        Some(name_of(p.last()))
    } else {
        None
    }
}

/// Decides how a destination is prepared: the directory to create and
/// canonicalize, and the name to append to the canonical directory (a
/// missing name is refused once the directory exists).
pub fn prepare_dest(dest: &Vec<Component>) -> (r: Result<DestPrep, DestPrepError>)
    ensures
        match r {
            Ok(p) => spec_dest_dir(path_view(dest@)) == Some(path_view(p.dir@)) && spec_file_name(
                path_view(dest@),
            ) == match p.file_name {
                Some(n) => Some(n@),
                None => None,
            },
            Err(e) => e == DestPrepError::InvalidPath && spec_dest_dir(path_view(dest@)) is None,
        },
{
    let ghost d = path_view(dest@);
    let n = dest.len();
    if n == 0 {
        return Err(DestPrepError::InvalidPath);
    }
    let file_name = match &dest[n - 1] {
        Component::Normal(name) => Some(name.clone()),
        Component::CurDir => None,
        Component::ParentDir => None,
        _ => {
            return Err(DestPrepError::InvalidPath);
        },
    };
    let mut dir: Vec<Component> = Vec::new();
    if n == 1 {
        dir.push(Component::CurDir);
        assert(path_view(dir@) =~= seq![ComponentView::CurDir]);
    } else {
        let mut i: usize = 0;
        while i < n - 1
            invariant
                0 <= i <= n - 1,
                n == dest@.len(),
                path_view(dir@) =~= path_view(dest@).take(i as int),
            decreases n - 1 - i,
        {
            let ghost prev = dir@;
            let c = dest[i].duplicate();
            dir.push(c);
            proof {
                assert(path_view(dir@) =~= path_view(prev).push(c@));
                assert(path_view(dest@).take(i + 1) =~= path_view(dest@).take(i as int).push(
                    dest@[i as int]@,
                ));
            }
            i = i + 1;
        }
        assert(path_view(dir@) =~= path_view(dest@).drop_last());
    }
    Ok(DestPrep { dir, file_name })
}

/// What to do to link a destination to a store path.
#[derive(Debug)]
pub enum LinkAction {
    /// The destination is the store path itself.
    Nothing,
    /// A link to the absolute store path.
    Absolute,
    /// A link holding this relative path.
    Relative(Vec<String>),
}

/// Whether two paths are the same.
pub fn same_path(a: &Vec<Component>, b: &Vec<Component>) -> (r: bool)
    ensures
        r == (path_view(a@) == path_view(b@)),
{
    if a.len() != b.len() {
        assert(path_view(a@).len() != path_view(b@).len());
        return false;
    }
    let mut i: usize = 0;
    while i < a.len()
        invariant
            0 <= i <= a@.len(),
            a@.len() == b@.len(),
            forall|j: int| 0 <= j < i ==> a@[j]@ == b@[j]@,
        decreases a@.len() - i,
    {
        if !a[i].same(&b[i]) {
            assert(path_view(a@)[i as int] != path_view(b@)[i as int]);
            return false;
        }
        i = i + 1;
    }
    assert(path_view(a@) =~= path_view(b@));
    true
}

/// Decides how `dest` is linked to `store_path`: nothing when they are the
/// same path, otherwise a link to the absolute store path, or to the store
/// path relative to the directory of `dest`.
pub fn link_to_dest(relative: bool, store_path: &Vec<Component>, dest: &Vec<Component>) -> (r: Result<
    LinkAction,
    LinkError,
>)
    requires
        path_view(store_path@) != path_view(dest@) ==> has_parent(path_view(dest@)),
        relative && path_view(store_path@) != path_view(dest@) ==> relative_path_defined(
            path_view(store_path@),
            path_view(dest@).drop_last(),
        ),
    ensures
        path_view(store_path@) == path_view(dest@) ==> r matches Ok(LinkAction::Nothing),
        path_view(store_path@) != path_view(dest@) && !relative ==> r matches Ok(LinkAction::Absolute),
        path_view(store_path@) != path_view(dest@) && relative ==> match spec_relative_path(
            path_view(store_path@),
            path_view(dest@).drop_last(),
        ) {
            Some(p) => r matches Ok(LinkAction::Relative(v)) && v@.map_values(|s: String| s@) == p,
            None => r == Err::<LinkAction, LinkError>(LinkError::DifferentPrefix),
        },
{
    if same_path(store_path, dest) {
        return Ok(LinkAction::Nothing);
    }
    if !relative {
        return Ok(LinkAction::Absolute);
    }
    match relative_path_to(store_path, dest) {
        Some(p) => Ok(LinkAction::Relative(p)),
        None => Err(LinkError::DifferentPrefix),
    }
}

} // verus!
