//! Where a file lands when a tree is mirrored into another directory.
//!
//! A path stands as the sequence of its components, each as the bytes that
//! `Path::components` yields for it on Unix: `/` for the root, `.` and `..`
//! as themselves, and each other component as its name.
use vstd::prelude::*;

verus! {

/// The components of a path held as byte vectors.
pub open spec fn components(path: Seq<Vec<u8>>) -> Seq<Seq<u8>> {
    path.map_values(|c: Vec<u8>| c@)
}

/// The component that stands for the root directory.
pub open spec fn root_component() -> Seq<u8> {
    seq![0x2fu8]
}

/// The component `.`.
pub open spec fn cur_dir_component() -> Seq<u8> {
    seq![0x2eu8]
}

/// The component `..`.
pub open spec fn parent_dir_component() -> Seq<u8> {
    seq![0x2eu8, 0x2eu8]
}

/// A component that names a file or directory (not the root, `.` or `..`).
pub open spec fn is_normal_component(c: Seq<u8>) -> bool {
    c != root_component() && c != cur_dir_component() && c != parent_dir_component()
}

/// `prefix` is a leading run of components of `path`.
pub open spec fn has_prefix(path: Seq<Seq<u8>>, prefix: Seq<Seq<u8>>) -> bool {
    prefix.len() <= path.len() && path.take(prefix.len() as int) == prefix
}

/// `path` appended to `dir`, unless `path` is absolute, which replaces it.
pub open spec fn joined(dir: Seq<Seq<u8>>, path: Seq<Seq<u8>>) -> Seq<Seq<u8>> {
    if path.len() > 0 && path[0] == root_component() {
        path
    } else {
        dir + path
    }
}

/// Where `file`, found under `root`, lands in the mirror `dir`: its path
/// relative to `root` joined to `dir`. When `file` is not under `root`, its
/// file name is used instead, or the whole path when it has none.
pub open spec fn mirrored(
    dir: Seq<Seq<u8>>,
    root: Seq<Seq<u8>>,
    file: Seq<Seq<u8>>,
) -> Seq<Seq<u8>> {
    let rel = if has_prefix(file, root) {
        file.skip(root.len() as int)
    } else if file.len() > 0 && is_normal_component(file.last()) {
        seq![file.last()]
    } else {
        file
    };
    joined(dir, rel)
}

fn is_root_component(c: &Vec<u8>) -> (r: bool)
    ensures
        r == (c@ == root_component()),
{
    if c.len() == 1 && c[0] == 0x2fu8 {
        assert(c@ =~= root_component());
        true
    } else {
        false
    }
}

fn is_normal(c: &Vec<u8>) -> (r: bool)
    ensures
        r == is_normal_component(c@),
{
    if c.len() == 1 {
        if c[0] == 0x2fu8 {
            assert(c@ =~= root_component());
            false
        } else if c[0] == 0x2eu8 {
            assert(c@ =~= cur_dir_component());
            false
        } else {
            assert(c@ != root_component() && c@ != cur_dir_component());
            true
        }
    } else if c.len() == 2 && c[0] == 0x2eu8 && c[1] == 0x2eu8 {
        assert(c@ =~= parent_dir_component());
        false
    } else {
        assert(c@ != parent_dir_component());
        true
    }
}

fn component_eq(a: &Vec<u8>, b: &Vec<u8>) -> (r: bool)
    ensures
        r == (a@ == b@),
{
    if a.len() != b.len() {
        return false;
    }
    let mut i: usize = 0;
    while i < a.len()
        invariant
            a.len() == b.len(),
            i <= a.len(),
            forall|j: int| 0 <= j < i ==> a@[j] == b@[j],
        decreases a.len() - i,
    {
        if a[i] != b[i] {
            return false;
        }
        i = i + 1;
    }
    assert(a@ =~= b@);
    true
}

fn starts_with(path: &Vec<Vec<u8>>, prefix: &Vec<Vec<u8>>) -> (r: bool)
    ensures
        r == has_prefix(components(path@), components(prefix@)),
{
    if prefix.len() > path.len() {
        return false;
    }
    let mut i: usize = 0;
    while i < prefix.len()
        invariant
            prefix.len() <= path.len(),
            i <= prefix.len(),
            forall|j: int| 0 <= j < i ==> components(path@)[j] == components(prefix@)[j],
        decreases prefix.len() - i,
    {
        if !component_eq(&path[i], &prefix[i]) {
            assert(components(path@).take(prefix.len() as int)[i as int] != components(prefix@)[i as int]);
            return false;
        }
        i = i + 1;
    }
    assert(components(path@).take(prefix.len() as int) =~= components(prefix@));
    true
}

fn append_from(out: &mut Vec<Vec<u8>>, path: &Vec<Vec<u8>>, from: usize)
    requires
        from <= path.len(),
    ensures
        components(final(out)@) == components(old(out)@) + components(path@).skip(from as int),
{
    let mut i = from;
    while i < path.len()
        invariant
            from <= i <= path.len(),
            components(out@) == components(old(out)@) + components(path@).subrange(from as int, i as int),
        decreases path.len() - i,
    {
        let ghost before = components(out@);
        out.push(path[i].clone());
        assert(components(out@) =~= before.push(components(path@)[i as int]));
        assert(components(path@).subrange(from as int, i + 1) =~= components(path@).subrange(
            from as int,
            i as int,
        ).push(components(path@)[i as int]));
        i = i + 1;
    }
    assert(components(path@).subrange(from as int, path.len() as int) =~= components(path@).skip(
        from as int,
    ));
}

/// Map a source file to its destination under `dir`, preserving the tree
/// shape relative to `root`.
pub fn mirror_path(dir: &Vec<Vec<u8>>, root: &Vec<Vec<u8>>, file: &Vec<Vec<u8>>) -> (r: Vec<Vec<u8>>)
    ensures
        components(r@) == mirrored(components(dir@), components(root@), components(file@)),
{
    let ghost d = components(dir@);
    let ghost f = components(file@);
    let mut rel: Vec<Vec<u8>> = Vec::new();
    if starts_with(file, root) {
        append_from(&mut rel, file, root.len());
    } else if file.len() > 0 && is_normal(&file[file.len() - 1]) {
        rel.push(file[file.len() - 1].clone());
        assert(components(rel@) =~= seq![f.last()]);
    } else {
        append_from(&mut rel, file, 0);
        assert(f.skip(0) =~= f);
    }
    assert(components(rel@) =~= Seq::<Seq<u8>>::empty() + components(rel@));
    if rel.len() > 0 && is_root_component(&rel[0]) {
        rel
    } else {
        let mut out: Vec<Vec<u8>> = Vec::new();
        append_from(&mut out, dir, 0);
        append_from(&mut out, &rel, 0);
        assert(d.skip(0) =~= d);
        assert(components(rel@).skip(0) =~= components(rel@));
        out
    }
}

/// The parent of a path, as `Path::parent` gives it: none for the empty path
/// and for a path that ends in the root; otherwise the path without its last
/// component.
pub open spec fn parent_of(path: Seq<Seq<u8>>) -> Option<Seq<Seq<u8>>> {
    if path.len() == 0 || path.last() == root_component() {
        None
    } else {
        Some(path.drop_last())
    }
}

/// The root that a file given on its own is mirrored from: its parent, or
/// the empty path when it has none.
pub open spec fn lone_file_root(file: Seq<Seq<u8>>) -> Seq<Seq<u8>> {
    match parent_of(file) {
        Some(p) => p,
        None => Seq::empty(),
    }
}

/// The parent of a path; `None` for the empty path and for the root.
pub fn parent(path: &Vec<Vec<u8>>) -> (r: Option<Vec<Vec<u8>>>)
    ensures
        match parent_of(components(path@)) {
            Some(p) => r is Some && components(r->0@) == p,
            None => r is None,
        },
{
    if path.len() == 0 || is_root_component(&path[path.len() - 1]) {
        return None;
    }
    let mut out: Vec<Vec<u8>> = Vec::new();
    let mut i: usize = 0;
    while i + 1 < path.len()
        invariant
            0 < path.len(),
            i < path.len(),
            components(out@) == components(path@).take(i as int),
        decreases path.len() - i,
    {
        out.push(path[i].clone());
        assert(components(path@).take(i + 1) =~= components(path@).take(i as int).push(
            components(path@)[i as int],
        ));
        assert(components(out@) =~= components(path@).take(i + 1));
        i = i + 1;
    }
    assert(components(path@).take(i as int) =~= components(path@).drop_last());
    Some(out)
}

/// The root that a file given on its own is mirrored from: its parent, or
/// the empty path when it has none.
pub fn lone_file_root_of(file: &Vec<Vec<u8>>) -> (r: Vec<Vec<u8>>)
    ensures
        components(r@) == lone_file_root(components(file@)),
{
    match parent(file) {
        Some(p) => p,
        None => {
            let e: Vec<Vec<u8>> = Vec::new();
            assert(components(e@) =~= Seq::<Seq<u8>>::empty());
            e
        },
    }
}

/// A file given on its own mirrors under its own name: when it ends in a
/// file name, it lands at that name directly under `dir`.
pub proof fn law_lone_file_mirrors_under_its_name(dir: Seq<Seq<u8>>, file: Seq<Seq<u8>>)
    requires
        file.len() > 0,
        is_normal_component(file.last()),
    ensures
        mirrored(dir, lone_file_root(file), file) == dir.push(file.last()),
{
    let root = file.drop_last();
    assert(file.take(root.len() as int) =~= root);
    assert(file.skip(root.len() as int) =~= seq![file.last()]);
    assert(dir + seq![file.last()] =~= dir.push(file.last()));
}

/// Mirroring keeps the shape of the tree: a file at relative path `rel`
/// under `root` lands at `rel` under `dir`.
pub proof fn law_mirror_keeps_tree(
    dir: Seq<Seq<u8>>,
    root: Seq<Seq<u8>>,
    rel: Seq<Seq<u8>>,
)
    requires
        rel.len() > 0 ==> rel[0] != root_component(),
    ensures
        mirrored(dir, root, root + rel) == dir + rel,
{
    assert((root + rel).take(root.len() as int) =~= root);
    assert((root + rel).skip(root.len() as int) =~= rel);
}

} // verus!
