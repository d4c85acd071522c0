//! Paths by their components, and the rule that a path must lie in the working
//! directory. Paths are those of Unix.

use vstd::prelude::*;
use crate::text;

verus! {

/// A component of a path.
#[derive(Debug)]
pub enum PathComponent {
    /// The leading `/`.
    RootDir,
    /// A leading `.`.
    CurDir,
    /// `..`
    ParentDir,
    /// A name.
    Normal(String),
}

/// A component of a path.
pub enum ComponentModel {
    RootDir,
    CurDir,
    ParentDir,
    Normal(Seq<char>),
}

impl DeepView for PathComponent {
    type V = ComponentModel;

    open spec fn deep_view(&self) -> ComponentModel {
        match *self {
            PathComponent::RootDir => ComponentModel::RootDir,
            PathComponent::CurDir => ComponentModel::CurDir,
            PathComponent::ParentDir => ComponentModel::ParentDir,
            PathComponent::Normal(name) => ComponentModel::Normal(name@),
        }
    }
}

impl Clone for PathComponent {
    fn clone(&self) -> (r: Self)
        ensures
            r.deep_view() == self.deep_view(),
    {
        match self {
            PathComponent::RootDir => PathComponent::RootDir,
            PathComponent::CurDir => PathComponent::CurDir,
            PathComponent::ParentDir => PathComponent::ParentDir,
            PathComponent::Normal(name) => PathComponent::Normal(name.clone()),
        }
    }
}

/// Whether a path begins at the root.
pub open spec fn is_absolute(path: Seq<char>) -> bool {
    text::begins_with(path, '/')
}

/// What the piece number `i` between the slashes of a path stands for, if for
/// anything.
pub open spec fn piece_component(piece: Seq<char>, i: int) -> Option<ComponentModel> {
    if piece.len() == 0 {
        None
    } else if piece == "."@ {
        if i == 0 {
            Some(ComponentModel::CurDir)
        } else {
            None
        }
    } else if piece == ".."@ {
        Some(ComponentModel::ParentDir)
    } else {
        Some(ComponentModel::Normal(piece))
    }
}

/// The components that the pieces between the slashes of a path stand for.
pub open spec fn piece_components(pieces: Seq<Seq<char>>) -> Seq<ComponentModel>
    decreases pieces.len(),
{
    if pieces.len() == 0 {
        Seq::empty()
    } else {
        let before = piece_components(pieces.drop_last());
        match piece_component(pieces.last(), pieces.len() - 1) {
            Some(c) => before.push(c),
            None => before,
        }
    }
}

/// The components of a path. Repeated slashes count once, and a `.` counts only
/// at the beginning.
pub open spec fn components(path: Seq<char>) -> Seq<ComponentModel> {
    let below = piece_components(text::split_any(path, seq!['/']));
    if is_absolute(path) {
        seq![ComponentModel::RootDir] + below
    } else {
        below
    }
}

/// The components with each `.` left out and each `..` taking away what stands
/// before it.
pub open spec fn normalized(path: Seq<ComponentModel>) -> Seq<ComponentModel>
    decreases path.len(),
{
    if path.len() == 0 {
        Seq::empty()
    } else {
        let before = normalized(path.drop_last());
        match path.last() {
            ComponentModel::ParentDir => if before.len() == 0 {
                before
            } else {
                before.drop_last()
            },
            ComponentModel::CurDir => before,
            c => before.push(c),
        }
    }
}

/// What the piece number `i` between the slashes of a path stands for.
fn component_of(piece: &Vec<char>, i: usize) -> (r: Option<PathComponent>)
    ensures
        r.deep_view() == piece_component(piece@, i as int),
{
    if piece.len() == 0 {
        None
    } else if text::equals(piece, ".") {
        if i == 0 {
            Some(PathComponent::CurDir)
        } else {
            None
        }
    } else if text::equals(piece, "..") {
        Some(PathComponent::ParentDir)
    } else {
        Some(PathComponent::Normal(text::string_of(piece)))
    }
}

/// The components of a path.
pub fn path_components(path: &str) -> (r: Vec<PathComponent>)
    ensures
        r.deep_view() == components(path@),
{
    let chars = text::chars_of(path);
    let absolute = text::starts_with_char(&chars, '/');
    let slash = vec!['/'];
    assert(slash@ =~= seq!['/']);
    let parts = text::split_at_any(&chars, &slash);
    let ghost pieces = text::pieces(parts@);
    let mut r: Vec<PathComponent> = Vec::new();
    if absolute {
        r.push(PathComponent::RootDir);
    }
    let ghost root = r.deep_view();
    let mut i: usize = 0;
    assert(pieces.take(0) =~= Seq::<Seq<char>>::empty());
    assert(root + piece_components(pieces.take(0)) =~= root);
    while i < parts.len()
        invariant
            i <= parts.len(),
            pieces == text::pieces(parts@),
            r.deep_view() == root + piece_components(pieces.take(i as int)),
        decreases parts.len() - i,
    {
        let ghost before = r.deep_view();
        let ghost earlier = pieces.take(i as int);
        let part = &parts[i];
        assert(pieces.take(i + 1).drop_last() =~= earlier);
        assert(pieces.take(i + 1).last() == part@);
        match component_of(part, i) {
            Some(c) => {
                r.push(c);
                assert(r.deep_view() =~= before.push(c.deep_view()));
                assert(r.deep_view() =~= root + piece_components(earlier).push(c.deep_view()));
            },
            None => {},
        }
        i = i + 1;
    }
    assert(pieces.take(pieces.len() as int) =~= pieces);
    assert(r.deep_view() =~= components(path@));
    r
}

/// The components with each `.` left out and each `..` taking away what stands
/// before it.
pub fn normalize_path(path: &Vec<PathComponent>) -> (r: Vec<PathComponent>)
    ensures
        r.deep_view() == normalized(path.deep_view()),
{
    let mut r: Vec<PathComponent> = Vec::new();
    let ghost whole = path.deep_view();
    let mut i: usize = 0;
    assert(whole.take(0) =~= Seq::<ComponentModel>::empty());
    assert(r.deep_view() =~= normalized(whole.take(0)));
    while i < path.len()
        invariant
            i <= path.len(),
            whole == path.deep_view(),
            r.deep_view() == normalized(whole.take(i as int)),
        decreases path.len() - i,
    {
        let ghost before = r.deep_view();
        assert(whole.take(i + 1).drop_last() =~= whole.take(i as int));
        match &path[i] {
            PathComponent::ParentDir => {
                let _ = r.pop();
                assert(r.deep_view() =~= normalized(whole.take(i + 1)));
            },
            PathComponent::CurDir => {},
            c => {
                r.push(c.clone());
                assert(r.deep_view() =~= before.push(c.deep_view()));
            },
        }
        i = i + 1;
    }
    assert(whole.take(whole.len() as int) =~= whole);
    r
}

/// Whether two components are the same.
fn same_component(a: &PathComponent, b: &PathComponent) -> (r: bool)
    ensures
        r == (a.deep_view() == b.deep_view()),
{
    match (a, b) {
        (PathComponent::RootDir, PathComponent::RootDir) => true,
        (PathComponent::CurDir, PathComponent::CurDir) => true,
        (PathComponent::ParentDir, PathComponent::ParentDir) => true,
        (PathComponent::Normal(a), PathComponent::Normal(b)) => text::same_text(a.as_str(), b.as_str()),
        _ => false,
    }
}

/// Whether a path lies below another, or is the same.
pub fn path_starts_with(path: &Vec<PathComponent>, base: &Vec<PathComponent>) -> (r: bool)
    ensures
        r == base.deep_view().is_prefix_of(path.deep_view()),
{
    if base.len() > path.len() {
        return false;
    }
    let ghost p = path.deep_view();
    let ghost b = base.deep_view();
    let mut i: usize = 0;
    while i < base.len()
        invariant
            i <= base.len() <= path.len(),
            p == path.deep_view(),
            b == base.deep_view(),
            forall|j: int| 0 <= j < i ==> p[j] == b[j],
        decreases base.len() - i,
    {
        if !same_component(&path[i], &base[i]) {
            assert(p.subrange(0, b.len() as int)[i as int] != b[i as int]);
            return false;
        }
        i = i + 1;
    }
    assert(b =~= p.subrange(0, b.len() as int));
    true
}

/// Whether two paths have the same components.
pub fn same_path(a: &Vec<PathComponent>, b: &Vec<PathComponent>) -> (r: bool)
    ensures
        r == (a.deep_view() == b.deep_view()),
{
    if a.len() != b.len() {
        return false;
    }
    let r = path_starts_with(a, b);
    assert(a.deep_view().subrange(0, b.deep_view().len() as int) =~= a.deep_view());
    r
}

/// The part of a path that exists.
#[derive(Debug)]
pub struct PathAncestor {
    /// The nearest directory above the path that exists, with its links resolved.
    pub target: String,
    /// What follows it in the path.
    pub rest: String,
}

/// The part of a path that exists.
pub struct AncestorModel {
    pub target: Seq<char>,
    pub rest: Seq<char>,
}

impl DeepView for PathAncestor {
    type V = AncestorModel;

    open spec fn deep_view(&self) -> AncestorModel {
        AncestorModel { target: self.target@, rest: self.rest@ }
    }
}

/// What the file system says of a path.
#[derive(Debug)]
pub struct PathProbe {
    /// The working directory.
    pub cwd: Option<String>,
    /// The working directory with its links resolved.
    pub resolved_cwd: Option<String>,
    /// The path, taken from the working directory, with its links resolved, if it
    /// exists.
    pub canonical: Option<String>,
    /// The part of the path that exists, if the path does not.
    pub ancestor: Option<PathAncestor>,
}

/// What the file system says of a path.
pub struct ProbeModel {
    pub cwd: Option<Seq<char>>,
    pub resolved_cwd: Option<Seq<char>>,
    pub canonical: Option<Seq<char>>,
    pub ancestor: Option<AncestorModel>,
}

impl DeepView for PathProbe {
    type V = ProbeModel;

    open spec fn deep_view(&self) -> ProbeModel {
        ProbeModel {
            cwd: self.cwd.deep_view(),
            resolved_cwd: self.resolved_cwd.deep_view(),
            canonical: self.canonical.deep_view(),
            ancestor: self.ancestor.deep_view(),
        }
    }
}

/// The components of a path, taken from the directory `cwd`.
pub open spec fn from_directory(cwd: Seq<char>, path: Seq<char>) -> Seq<ComponentModel> {
    if is_absolute(path) {
        components(path)
    } else {
        components(cwd) + components(path)
    }
}

/// Whether a path that does not exist leads into the directory `resolved`, by the
/// links in the part of it that exists.
pub open spec fn leads_into(resolved: Seq<char>, ancestor: Option<AncestorModel>) -> bool {
    match ancestor {
        Some(a) => components(resolved).is_prefix_of(normalized(from_directory(a.target, a.rest))),
        None => false,
    }
}

/// Whether a path lies in the working directory. A path that does not exist must
/// lie there by its components, and the part of it that exists must lead there.
pub open spec fn within_cwd(path: Seq<char>, probe: ProbeModel) -> bool {
    match (probe.cwd, probe.resolved_cwd) {
        (Some(cwd), Some(resolved)) => match probe.canonical {
            Some(canonical) => components(resolved).is_prefix_of(components(canonical)),
            None => {
                &&& components(resolved).is_prefix_of(normalized(from_directory(cwd, path)))
                &&& leads_into(resolved, probe.ancestor)
            },
        },
        _ => false,
    }
}

/// The components of a path, taken from the directory `cwd`.
fn components_from(cwd: &str, path: &str) -> (r: Vec<PathComponent>)
    ensures
        r.deep_view() == from_directory(cwd@, path@),
{
    let chars = text::chars_of(path);
    let mut below = path_components(path);
    if text::starts_with_char(&chars, '/') {
        return below;
    }
    let mut all = path_components(cwd);
    let ghost first = all.deep_view();
    let ghost second = below.deep_view();
    all.append(&mut below);
    assert(all.deep_view() =~= first + second);
    all
}

/// Whether a path lies in the working directory.
pub fn is_within_cwd(path: &str, probe: &PathProbe) -> (r: bool)
    ensures
        r == within_cwd(path@, probe.deep_view()),
{
    let cwd = match &probe.cwd {
        Some(cwd) => cwd,
        None => {
            return false;
        },
    };
    let resolved = match &probe.resolved_cwd {
        Some(resolved) => path_components(resolved.as_str()),
        None => {
            return false;
        },
    };
    if let Some(canonical) = &probe.canonical {
        return path_starts_with(&path_components(canonical.as_str()), &resolved);
    }
    let written = components_from(cwd.as_str(), path);
    match &probe.ancestor {
        Some(a) => {
            let led = components_from(a.target.as_str(), a.rest.as_str());
            path_starts_with(&normalize_path(&written), &resolved) && path_starts_with(
                &normalize_path(&led),
                &resolved,
            )
        },
        None => false,
    }
}

// ---------------------------------------------------------------------------
// What holds of paths
// ---------------------------------------------------------------------------

/// Whether no component is `.` or `..`.
pub open spec fn is_direct(path: Seq<ComponentModel>) -> bool {
    forall|i: int| 0 <= i < path.len() ==> (#[trigger] path[i]) !is CurDir && path[i] !is ParentDir
}

/// A normalized path has neither `.` nor `..`.
pub proof fn lemma_normalized_is_direct(path: Seq<ComponentModel>)
    ensures
        is_direct(normalized(path)),
    decreases path.len(),
{
    if path.len() > 0 {
        lemma_normalized_is_direct(path.drop_last());
    }
}

/// To normalize a path that has neither `.` nor `..` changes nothing.
pub proof fn lemma_direct_stays(path: Seq<ComponentModel>)
    requires
        is_direct(path),
    ensures
        normalized(path) == path,
    decreases path.len(),
{
    if path.len() > 0 {
        let before = path.drop_last();
        assert forall|i: int| 0 <= i < before.len() implies (#[trigger] before[i]) !is CurDir && before[i]
            !is ParentDir by {
            assert(before[i] == path[i]);
        }
        lemma_direct_stays(before);
        assert(path[path.len() - 1] == path.last());
        assert(normalized(path) =~= path);
    }
}

/// To normalize a path twice is to normalize it once.
pub proof fn lemma_normalize_twice(path: Seq<ComponentModel>)
    ensures
        normalized(normalized(path)) == normalized(path),
{
    lemma_normalized_is_direct(path);
    lemma_direct_stays(normalized(path));
}

proof fn lemma_normalized_below(base: Seq<ComponentModel>, path: Seq<ComponentModel>)
    requires
        is_direct(base),
        forall|i: int| 0 <= i < path.len() ==> (#[trigger] path[i]) !is ParentDir,
    ensures
        base.is_prefix_of(normalized(base + path)),
    decreases path.len(),
{
    if path.len() == 0 {
        assert(base + path =~= base);
        lemma_direct_stays(base);
        assert(base =~= base.subrange(0, base.len() as int));
    } else {
        let before = path.drop_last();
        assert forall|i: int| 0 <= i < before.len() implies (#[trigger] before[i]) !is ParentDir by {
            assert(before[i] == path[i]);
        }
        lemma_normalized_below(base, before);
        assert((base + path).drop_last() =~= base + before);
        assert(path[path.len() - 1] == path.last());
        let all = normalized(base + path);
        let short = normalized(base + before);
        assert(base =~= short.subrange(0, base.len() as int));
        assert(base =~= all.subrange(0, base.len() as int));
    }
}

proof fn lemma_below_prefix(base: Seq<ComponentModel>, path: Seq<ComponentModel>, long: Seq<ComponentModel>)
    requires
        base.is_prefix_of(path),
        path.is_prefix_of(long),
    ensures
        base.is_prefix_of(long),
{
    assert(base =~= long.subrange(0, base.len() as int)) by {
        assert forall|i: int| 0 <= i < base.len() implies base[i] == long[i] by {
            assert(path.subrange(0, base.len() as int)[i] == base[i]);
            assert(long.subrange(0, path.len() as int)[i] == path[i]);
        }
    }
}

/// Whether a path is relative and does not go up.
pub open spec fn goes_down(path: Seq<char>) -> bool {
    &&& !is_absolute(path)
    &&& forall|i: int| 0 <= i < components(path).len() ==> (#[trigger] components(path)[i]) !is ParentDir
}

/// A new file whose path goes down, below a directory that lies in the working
/// directory, lies in the working directory.
pub proof fn lemma_new_file_in_cwd(path: Seq<char>, probe: ProbeModel)
    requires
        goes_down(path),
        probe.cwd is Some,
        probe.resolved_cwd == probe.cwd,
        is_direct(components(probe.cwd->0)),
        probe.canonical is None,
        probe.ancestor is Some,
        goes_down(probe.ancestor->0.rest),
        is_direct(components(probe.ancestor->0.target)),
        components(probe.cwd->0).is_prefix_of(components(probe.ancestor->0.target)),
    ensures
        within_cwd(path, probe),
{
    let a = probe.ancestor->0;
    lemma_normalized_below(components(probe.cwd->0), components(path));
    lemma_normalized_below(components(a.target), components(a.rest));
    lemma_below_prefix(
        components(probe.cwd->0),
        components(a.target),
        normalized(components(a.target) + components(a.rest)),
    );
}

/// Links do not lead out: a new file below a directory that is elsewhere than the
/// working directory does not lie in the working directory, however its path is
/// written.
pub proof fn lemma_links_do_not_lead_out(path: Seq<char>, probe: ProbeModel, k: int)
    requires
        probe.resolved_cwd is Some,
        probe.canonical is None,
        probe.ancestor is Some,
        goes_down(probe.ancestor->0.rest),
        is_direct(components(probe.ancestor->0.target)),
        0 <= k < components(probe.ancestor->0.target).len(),
        k < components(probe.resolved_cwd->0).len(),
        components(probe.ancestor->0.target)[k] != components(probe.resolved_cwd->0)[k],
    ensures
        !within_cwd(path, probe),
{
    let target = components(probe.ancestor->0.target);
    let resolved = components(probe.resolved_cwd->0);
    let led = normalized(target + components(probe.ancestor->0.rest));
    lemma_normalized_below(target, components(probe.ancestor->0.rest));
    assert(led.subrange(0, target.len() as int)[k] == led[k]);
    if resolved.is_prefix_of(led) {
        assert(led.subrange(0, resolved.len() as int)[k] == led[k]);
    }
}

proof fn lemma_all_parents(path: Seq<ComponentModel>, n: nat)
    requires
        n <= path.len(),
        forall|i: int| path.len() - n <= i < path.len() ==> (#[trigger] path[i]) is ParentDir,
    ensures
        normalized(path).len() + n <= normalized(path.take(path.len() - n)).len() || normalized(path).len() == 0,
    decreases n,
{
    if n == 0 {
        assert(path.take(path.len() as int) =~= path);
    } else {
        let before = path.drop_last();
        assert forall|i: int| before.len() - (n - 1) <= i < before.len() implies (#[trigger] before[i])
            is ParentDir by {
            assert(before[i] == path[i]);
        }
        lemma_all_parents(before, (n - 1) as nat);
        assert(before.take(before.len() - (n - 1)) =~= path.take(path.len() - n));
        assert(path[path.len() - 1] == path.last());
    }
}

proof fn lemma_normalized_shrinks(path: Seq<ComponentModel>)
    ensures
        normalized(path).len() <= path.len(),
    decreases path.len(),
{
    if path.len() > 0 {
        lemma_normalized_shrinks(path.drop_last());
    }
}

/// A new file whose path consists of steps up does not lie in the working
/// directory.
pub proof fn lemma_steps_up_leave_cwd(path: Seq<char>, probe: ProbeModel)
    requires
        !is_absolute(path),
        components(path).len() > 0,
        forall|i: int| 0 <= i < components(path).len() ==> (#[trigger] components(path)[i]) is ParentDir,
        probe.cwd is Some,
        probe.resolved_cwd == probe.cwd,
        components(probe.cwd->0).len() > 0,
        probe.canonical is None,
    ensures
        !within_cwd(path, probe),
{
    let base = components(probe.cwd->0);
    let all = base + components(path);
    let n = components(path).len();
    assert forall|i: int| all.len() - n <= i < all.len() implies (#[trigger] all[i]) is ParentDir by {
        assert(all[i] == components(path)[i - base.len()]);
    }
    lemma_all_parents(all, n);
    assert(all.take(all.len() - n) =~= base);
    lemma_normalized_shrinks(base);
}

/// A path goes down by one name behind another: a name behind a slash is a further step, two
/// dots are a step up, and one dot or nothing is no step.
pub proof fn lemma_components_of_a_longer_path(path: Seq<char>, name: Seq<char>)
    requires
        !name.contains('/'),
    ensures
        ({
            let before = if path.len() == 0 {
                seq![ComponentModel::RootDir]
            } else {
                components(path)
            };
            let after = components(path + "/"@ + name);
            &&& name.len() == 0 || name == "."@ ==> after == before
            &&& name == ".."@ ==> after == before.push(ComponentModel::ParentDir)
            &&& name.len() > 0 && name != "."@ && name != ".."@ ==> after == before.push(ComponentModel::Normal(name))
        }),
{
    reveal_strlit("/");
    reveal_strlit(".");
    reveal_strlit("..");
    let seps = seq!['/'];
    assert(seps[0] == '/');
    assert(seps.contains('/'));
    let all = path + "/"@ + name;
    assert(all =~= path.push('/') + name);
    assert forall|i: int| 0 <= i < name.len() implies !seps.contains(#[trigger] name[i]) by {
        assert(name.contains(name[i]));
    }
    crate::spelling::lemma_split_at_separators(path, '/', name, seps);
    crate::spelling::lemma_split_at_separators(name, '/', path, seps);
    let pieces = text::split_any(path, seps);
    text::lemma_split_is_not_empty(path, |c: char| seps.contains(c));
    let more = pieces.push(name);
    assert(text::split_any(all, seps) =~= more);
    assert(more.drop_last() =~= pieces);
    let below = piece_components(pieces);
    if path.len() == 0 {
        assert(path =~= Seq::<char>::empty());
        crate::spelling::lemma_split_at_separators(path, '/', path, seps);
        assert(pieces =~= seq![path]);
        assert(pieces.drop_last() =~= Seq::empty());
        assert(piece_components(pieces.drop_last()) =~= Seq::empty());
        assert(piece_component(pieces.last(), 0) is None);
        assert(below =~= Seq::empty());
    } else {
        assert(all[0] == path[0]);
    }
    let root = seq![ComponentModel::RootDir];
    assert(path.len() == 0 ==> root + below =~= root);
    assert(root + below.push(ComponentModel::ParentDir) =~= (root + below).push(ComponentModel::ParentDir));
    assert(root + below.push(ComponentModel::Normal(name)) =~= (root + below).push(ComponentModel::Normal(name)));
}

/// A path without a slash is a single step, or none if it is empty.
pub proof fn lemma_components_of_a_name(name: Seq<char>)
    requires
        !name.contains('/'),
    ensures
        name.len() == 0 ==> components(name).len() == 0,
        name == "."@ ==> components(name) == seq![ComponentModel::CurDir],
        name == ".."@ ==> components(name) == seq![ComponentModel::ParentDir],
        name.len() > 0 && name != "."@ && name != ".."@ ==> components(name) == seq![ComponentModel::Normal(name)],
{
    reveal_strlit(".");
    reveal_strlit("..");
    let seps = seq!['/'];
    assert(seps[0] == '/');
    assert(seps.contains('/'));
    assert forall|i: int| 0 <= i < name.len() implies !seps.contains(#[trigger] name[i]) by {
        assert(name.contains(name[i]));
    }
    crate::spelling::lemma_split_at_separators(name, '/', name, seps);
    let pieces = seq![name];
    assert(pieces.drop_last() =~= Seq::empty());
    assert(piece_components(pieces.drop_last()) =~= Seq::empty());
    if name.len() > 0 {
        assert(name.contains(name[0]));
    }
    assert(piece_components(pieces) == match piece_component(name, 0) {
        Some(c) => Seq::empty().push(c),
        None => Seq::empty(),
    });
    assert(components(name) =~= match piece_component(name, 0) {
        Some(c) => seq![c],
        None => Seq::empty(),
    });
}

/// To normalize a path is to take its steps: a name goes down, one dot stays, and two dots
/// take back the step before them.
pub proof fn lemma_normalized_steps(path: Seq<ComponentModel>, name: Seq<char>)
    ensures
        normalized(path.push(ComponentModel::Normal(name))) == normalized(path).push(ComponentModel::Normal(name)),
        normalized(path.push(ComponentModel::CurDir)) == normalized(path),
        normalized(path.push(ComponentModel::Normal(name)).push(ComponentModel::ParentDir)) == normalized(path),
        normalized(path).len() == 0 ==> normalized(path.push(ComponentModel::ParentDir)).len() == 0,
{
    let down = path.push(ComponentModel::Normal(name));
    assert(down.drop_last() =~= path);
    assert(path.push(ComponentModel::CurDir).drop_last() =~= path);
    assert(path.push(ComponentModel::ParentDir).drop_last() =~= path);
    assert(down.push(ComponentModel::ParentDir).drop_last() =~= down);
    assert(normalized(path).push(ComponentModel::Normal(name)).drop_last() =~= normalized(path));
}

/// A file that is there lies in the working directory if and only if its resolved path goes on
/// from that of the directory, however it is written; and without a working directory no
/// path lies in it.
pub proof fn lemma_file_in_cwd(path: Seq<char>, probe: ProbeModel)
    ensures
        probe.cwd is None || probe.resolved_cwd is None ==> !within_cwd(path, probe),
        probe.cwd is Some && probe.resolved_cwd is Some && probe.canonical is Some ==> {
            let inside = components(probe.canonical->0);
            let directory = components(probe.resolved_cwd->0);
            within_cwd(path, probe) <==> inside.len() >= directory.len() && inside.subrange(
                0,
                directory.len() as int,
            ) == directory
        },
{
}

/// A file that is not there yet lies in the working directory if and only if its path does,
/// taken from the root if it is absolute and else from the directory, and the place where it
/// would be made does, too, with its links resolved.
pub proof fn lemma_new_file(path: Seq<char>, cwd: Seq<char>, resolved: Seq<char>, ancestor: Option<AncestorModel>)
    ensures
        ({
            let probe = ProbeModel {
                cwd: Some(cwd),
                resolved_cwd: Some(resolved),
                canonical: None,
                ancestor,
            };
            let place = if path.len() > 0 && path[0] == '/' {
                components(path)
            } else {
                components(cwd) + components(path)
            };
            within_cwd(path, probe) <==> components(resolved).is_prefix_of(normalized(place)) && (
            ancestor matches Some(a) && components(resolved).is_prefix_of(
                normalized(
                    if a.rest.len() > 0 && a.rest[0] == '/' {
                        components(a.rest)
                    } else {
                        components(a.target) + components(a.rest)
                    },
                ),
            ))
        }),
{
}

} // verus!
