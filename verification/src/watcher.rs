//! When the configuration is read anew.

use vstd::prelude::*;

verus! {

/// A path, by its components from the root down.
#[derive(Debug)]
pub struct FilePath {
    pub components: Vec<Vec<u8>>,
}

/// The components of a path.
pub open spec fn component_views(components: Seq<Vec<u8>>) -> Seq<Seq<u8>> {
    components.map_values(|c: Vec<u8>| c@)
}

impl View for FilePath {
    type V = Seq<Seq<u8>>;

    open spec fn view(&self) -> Seq<Seq<u8>> {
        component_views(self.components@)
    }
}

/// What happened to a file.
#[derive(Debug, Clone, Copy, PartialEq, Eq, Structural)]
pub enum ChangeKind {
    Modify,
    Create,
    Remove,
    /// Anything else, such as being read.
    Other,
}

/// Something that happened to files.
#[derive(Debug)]
pub struct Change {
    pub kind: ChangeKind,
    pub paths: Vec<FilePath>,
}

/// What a `Change` says.
pub struct ChangeView {
    pub kind: ChangeKind,
    pub paths: Seq<Seq<Seq<u8>>>,
}

impl View for Change {
    type V = ChangeView;

    open spec fn view(&self) -> ChangeView {
        ChangeView { kind: self.kind, paths: self.paths@.map_values(|p: FilePath| p@) }
    }
}

/// What a list of changes says.
pub open spec fn change_views(changes: Seq<Change>) -> Seq<ChangeView> {
    changes.map_values(|c: Change| c@)
}

impl ChangeView {
    /// The change is to the file at `path`.
    pub open spec fn touches(self, path: Seq<Seq<u8>>) -> bool {
        self.paths.contains(path)
    }

    /// The change is to something at or below `dir`.
    pub open spec fn within(self, dir: Seq<Seq<u8>>) -> bool {
        exists|i: int| 0 <= i < self.paths.len() && dir.is_prefix_of(#[trigger] self.paths[i])
    }

    /// The change calls for the configuration to be read anew: something was
    /// written, created or removed and, where there is an environment file, it was
    /// that file or something in the configuration directory.
    pub open spec fn calls_for_reload(
        self,
        config_dir: Seq<Seq<u8>>,
        env_file: Option<Seq<Seq<u8>>>,
    ) -> bool {
        &&& self.kind != ChangeKind::Other
        &&& match env_file {
            Some(env) => self.touches(env) || self.within(config_dir),
            None => true,
        }
    }

    /// The change removed the environment file.
    pub open spec fn removes(self, env_file: Option<Seq<Seq<u8>>>) -> bool {
        self.kind == ChangeKind::Remove && env_file is Some && self.touches(env_file->0)
    }
}

/// The first of the changes that calls for the configuration to be read anew, or
/// how many there are where none does.
pub open spec fn first_call(
    changes: Seq<ChangeView>,
    config_dir: Seq<Seq<u8>>,
    env_file: Option<Seq<Seq<u8>>>,
) -> int
    decreases changes.len(),
{
    if changes.len() == 0 || changes[0].calls_for_reload(config_dir, env_file) {
        0
    } else {
        1 + first_call(changes.drop_first(), config_dir, env_file)
    }
}

/// What follows from a batch of changes.
#[derive(Debug, Clone, Copy, PartialEq, Eq, Structural)]
pub struct Reaction {
    /// The configuration is read anew.
    pub reload: bool,
    /// The directory of the environment file is no longer watched.
    pub unwatch_env: bool,
}

/// What follows from a batch of changes. They are looked at in order, up to the
/// first that calls for the configuration to be read anew; where that one removed
/// the environment file, its directory is no longer watched.
pub open spec fn reaction(
    changes: Seq<ChangeView>,
    config_dir: Seq<Seq<u8>>,
    env_file: Option<Seq<Seq<u8>>>,
) -> Reaction {
    let i = first_call(changes, config_dir, env_file);
    Reaction {
        reload: i < changes.len(),
        unwatch_env: i < changes.len() && changes[i].removes(env_file),
    }
}

/// Whether two lists of bytes are the same.
fn same_bytes(a: &Vec<u8>, b: &Vec<u8>) -> (r: bool)
    ensures
        r == (a@ == b@),
{
    if a.len() != b.len() {
        return false;
    }
    let mut i: usize = 0;
    while i < a.len()
        invariant
            i <= a@.len(),
            a@.len() == b@.len(),
            forall|j: int| 0 <= j < i ==> a@[j] == b@[j],
        decreases a@.len() - i,
    {
        if a[i] != b[i] {
            return false;
        }
        i = i + 1;
    }
    assert(a@ =~= b@);
    true
}

impl FilePath {
    /// Whether the path is at or below `base`, by whole components.
    pub fn starts_with(&self, base: &FilePath) -> (r: bool)
        ensures
            r == base@.is_prefix_of(self@),
    {
        if base.components.len() > self.components.len() {
            return false;
        }
        let mut i: usize = 0;
        while i < base.components.len()
            invariant
                i <= base.components@.len(),
                base.components@.len() <= self.components@.len(),
                forall|j: int| 0 <= j < i ==> base@[j] == self@[j],
            decreases base.components@.len() - i,
        {
            assert(base@[i as int] == base.components@[i as int]@);
            assert(self@[i as int] == self.components@[i as int]@);
            if !same_bytes(&base.components[i], &self.components[i]) {
                assert(self@.subrange(0, base@.len() as int)[i as int] == self@[i as int]);
                return false;
            }
            i = i + 1;
        }
        assert(base@ =~= self@.subrange(0, base@.len() as int));
        true
    }

    /// Whether two paths have the same components.
    pub fn same_as(&self, other: &FilePath) -> (r: bool)
        ensures
            r == (self@ == other@),
    {
        if self.components.len() == other.components.len() && self.starts_with(other) {
            assert(self@.subrange(0, other@.len() as int) =~= self@);
            true
        } else {
            assert(self@ == other@ ==> self@.subrange(0, other@.len() as int) =~= self@);
            false
        }
    }
}

impl Change {
    /// Whether the change is to the file at `path`.
    fn touches(&self, path: &FilePath) -> (r: bool)
        ensures
            r == self@.touches(path@),
    {
        let mut i: usize = 0;
        while i < self.paths.len()
            invariant
                i <= self.paths@.len(),
                forall|j: int| 0 <= j < i ==> self@.paths[j] != path@,
            decreases self.paths@.len() - i,
        {
            assert(self@.paths[i as int] == self.paths@[i as int]@);
            if self.paths[i].same_as(path) {
                return true;
            }
            i = i + 1;
        }
        false
    }

    /// Whether the change is to something at or below `dir`.
    fn within(&self, dir: &FilePath) -> (r: bool)
        ensures
            r == self@.within(dir@),
    {
        let mut i: usize = 0;
        while i < self.paths.len()
            invariant
                i <= self.paths@.len(),
                forall|j: int| 0 <= j < i ==> !dir@.is_prefix_of(#[trigger] self@.paths[j]),
            decreases self.paths@.len() - i,
        {
            assert(self@.paths[i as int] == self.paths@[i as int]@);
            if self.paths[i].starts_with(dir) {
                return true;
            }
            i = i + 1;
        }
        false
    }

    /// Whether the change calls for the configuration to be read anew.
    fn calls_for_reload(&self, config_dir: &FilePath, env_file: &Option<FilePath>) -> (r: bool)
        ensures
            r == self@.calls_for_reload(config_dir@, opt_path(*env_file)),
    {
        if self.kind == ChangeKind::Other {
            return false;
        }
        match env_file {
            Some(env) => self.touches(env) || self.within(config_dir),
            None => true,
        }
    }
}

/// The components of the path, where there is one.
pub open spec fn opt_path(p: Option<FilePath>) -> Option<Seq<Seq<u8>>> {
    match p {
        Some(f) => Some(f@),
        None => None,
    }
}

/// What follows from a batch of changes.
pub fn react(changes: &Vec<Change>, config_dir: &FilePath, env_file: &Option<FilePath>) -> (r:
    Reaction)
    ensures
        r == reaction(change_views(changes@), config_dir@, opt_path(*env_file)),
{
    let ghost all = change_views(changes@);
    let ghost dir = config_dir@;
    let ghost env = opt_path(*env_file);
    let mut i: usize = 0;
    assert(all.skip(0) =~= all);
    while i < changes.len()
        invariant
            i <= changes@.len(),
            all == change_views(changes@),
            dir == config_dir@,
            env == opt_path(*env_file),
            first_call(all, dir, env) == i + first_call(all.skip(i as int), dir, env),
        decreases changes@.len() - i,
    {
        assert(all[i as int] == changes@[i as int]@);
        assert(all.skip(i as int)[0] == all[i as int]);
        if changes[i].calls_for_reload(config_dir, env_file) {
            let unwatch_env = match env_file {
                Some(path) => changes[i].kind == ChangeKind::Remove && changes[i].touches(path),
                None => false,
            };
            return Reaction { reload: true, unwatch_env };
        }
        assert(all.skip(i as int).drop_first() =~= all.skip(i + 1));
        i = i + 1;
    }
    Reaction { reload: false, unwatch_env: false }
}

} // verus!
