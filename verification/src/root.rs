//! Explicit alternate filesystem roots and the ownership policy applied to
//! every existing node below them.

use crate::error::InstallError;
use crate::newc::split_on;
use crate::state::split_on_exec;
use crate::text::{
    chars_of, concat2, decimal, octal4, owned, slice_range, spec_decimal, spec_octal4,
    string_from_chars, string_views,
};
use vstd::prelude::*;

verus! {

/// Filesystem node type reported by a metadata source.
#[derive(Debug, Clone, Copy, PartialEq, Eq, Structural)]
pub enum NodeKind {
    File,
    Directory,
    Symlink,
    Other,
}

/// Security-relevant metadata of one node.
#[derive(Debug, Clone, Copy, PartialEq, Eq, Structural)]
pub struct NodeMetadata {
    pub kind: NodeKind,
    pub owner_uid: u32,
    pub mode: u32,
    pub device: u64,
    pub inode: u64,
}

/// Where node metadata comes from: the operating system in production, an
/// injected table in isolated tests.  Nothing is assumed of what it reports.
pub trait MetadataSource {
    fn symlink_metadata(&self, path: &str) -> Result<NodeMetadata, String>;
}

/// Ownership and mode requirements for every existing root and destination
/// component.
#[derive(Debug, Clone, Copy, PartialEq, Eq, Structural)]
pub struct RootPolicy {
    expected_owner_uid: u32,
    reject_group_world_writable: bool,
}

impl RootPolicy {
    pub closed spec fn spec_expected_owner_uid(&self) -> u32 {
        self.expected_owner_uid
    }

    pub closed spec fn spec_rejects_group_world_writable(&self) -> bool {
        self.reject_group_world_writable
    }

    /// The uid every checked node must be owned by.
    pub fn expected_owner_uid(&self) -> (r: u32)
        ensures
            r == self.spec_expected_owner_uid(),
    {
        self.expected_owner_uid
    }

    /// Production: nodes owned by uid 0, never group or world writable.
    pub fn production() -> (p: RootPolicy)
        ensures
            p.spec_expected_owner_uid() == 0,
            p.spec_rejects_group_world_writable(),
    {
        RootPolicy { expected_owner_uid: 0, reject_group_world_writable: true }
    }

    /// The policy for an isolated test tree owned by `expected_owner_uid`.
    pub fn injected_for_tests(expected_owner_uid: u32) -> (p: RootPolicy)
        ensures
            p.spec_expected_owner_uid() == expected_owner_uid,
            p.spec_rejects_group_world_writable(),
    {
        RootPolicy { expected_owner_uid, reject_group_world_writable: true }
    }
}

/// The `Debug` name of a node kind.
pub open spec fn spec_node_kind_name(k: NodeKind) -> Seq<char> {
    match k {
        NodeKind::File => "File"@,
        NodeKind::Directory => "Directory"@,
        NodeKind::Symlink => "Symlink"@,
        NodeKind::Other => "Other"@,
    }
}

pub fn node_kind_name(k: NodeKind) -> (s: &'static str)
    ensures
        s@ == spec_node_kind_name(k),
{
    match k {
        NodeKind::File => "File",
        NodeKind::Directory => "Directory",
        NodeKind::Symlink => "Symlink",
        NodeKind::Other => "Other",
    }
}

/// A group- or world-writable permission bit is set.
pub open spec fn group_world_writable(mode: u32) -> bool {
    mode & 0o22u32 != 0
}

/// The first rule that `node` breaks, if any: 0 wrong kind, 1 wrong owner,
/// 2 writable by group or world.
pub open spec fn node_violation(node: NodeMetadata, policy: RootPolicy, expected: Option<NodeKind>) -> Option<
    int,
> {
    if expected is Some && node.kind != expected->0 {
        Some(0)
    } else if node.owner_uid != policy.spec_expected_owner_uid() {
        Some(1)
    } else if policy.spec_rejects_group_world_writable() && node.kind != NodeKind::Symlink
        && group_world_writable(node.mode) {
        Some(2)
    } else {
        None
    }
}

/// Checks one observed node against the policy.  A failed observation is an
/// `Io` error; a node that breaks a rule is an `UnsafePath` whose reason names
/// the rule.
pub fn check_existing_node(
    path: &str,
    observed: Result<NodeMetadata, String>,
    policy: RootPolicy,
    expected: Option<NodeKind>,
) -> (r: Result<NodeMetadata, InstallError>)
    ensures
        observed is Err ==> (r matches Err(InstallError::Io { path: p, .. }) && p@ == path@),
        observed matches Ok(node) ==> match node_violation(node, policy, expected) {
            None => r == Ok::<NodeMetadata, InstallError>(node),
            Some(v) => r matches Err(InstallError::UnsafePath { path: p, reason }) && p@ == path@
                && (v == 0 ==> reason@ == "expected "@ + spec_node_kind_name(expected->0)
                + ", found "@ + spec_node_kind_name(node.kind))
                && (v == 1 ==> reason@ == "owner uid "@ + spec_decimal(node.owner_uid as nat)
                + " does not match required uid "@ + spec_decimal(
                policy.spec_expected_owner_uid() as nat,
            )) && (v == 2 ==> reason@ == "mode "@ + spec_octal4(node.mode as nat)
                + " is group/world writable"@),
        },
{
    let node = match observed {
        Ok(node) => node,
        Err(message) => {
            return Err(InstallError::Io { action: owned("inspect"), path: owned(path), message });
        },
    };
    if let Some(kind) = expected {
        if node.kind != kind {
            let mut reason = concat2("expected ", node_kind_name(kind));
            reason.append(", found ");
            reason.append(node_kind_name(node.kind));
            return Err(InstallError::UnsafePath { path: owned(path), reason });
        }
    }
    if node.owner_uid != policy.expected_owner_uid {
        let a = decimal(node.owner_uid as u64);
        let b = decimal(policy.expected_owner_uid as u64);
        let mut reason = concat2("owner uid ", a.as_str());
        reason.append(" does not match required uid ");
        reason.append(b.as_str());
        return Err(InstallError::UnsafePath { path: owned(path), reason });
    }
    if policy.reject_group_world_writable && node.kind != NodeKind::Symlink && node.mode & 0o22u32
        != 0 {
        let m = octal4(node.mode);
        let mut reason = concat2("mode ", m.as_str());
        reason.append(" is group/world writable");
        return Err(InstallError::UnsafePath { path: owned(path), reason });
    }
    Ok(node)
}

/// Refuses an alternate root whose identity is that of the running host root.
pub fn check_root_identity(path: &str, alternate: NodeMetadata, host: NodeMetadata) -> (r: Result<
    (),
    InstallError,
>)
    ensures
        r is Ok <==> !(alternate.device == host.device && alternate.inode == host.inode),
        r matches Err(e) ==> e matches InstallError::InvalidAlternateRoot { path: p, .. } && p@
            == path@,
{
    if alternate.device == host.device && alternate.inode == host.inode {
        return Err(
            InstallError::InvalidAlternateRoot {
                path: owned(path),
                reason: owned("alternate root aliases the running host root identity"),
            },
        );
    }
    Ok(())
}

/// Every character of `p` is a separator or a lone `.` component: `p` names
/// the root itself.
pub open spec fn only_root_components(p: Seq<char>) -> bool {
    forall|i: int|
        0 <= i < p.len() ==> #[trigger] p[i] == '/' || (p[i] == '.' && (i == 0 || p[i - 1] == '/')
            && (i + 1 == p.len() || p[i + 1] == '/'))
}

/// The components of the absolute path `p`: its text after the leading `/`,
/// split at every `/`.
pub open spec fn root_pieces(p: Seq<char>) -> Seq<Seq<char>> {
    split_on(p.drop_first(), '/')
}

/// Walks components from `/`: an empty or `.` component adds nothing, a
/// name extends the current prefix, and `..` stops the walk.  The result is
/// the prefixes reached and whether a `..` stopped the walk.
pub open spec fn root_walk(pieces: Seq<Seq<char>>) -> (Seq<Seq<char>>, bool)
    decreases pieces.len(),
{
    if pieces.len() == 0 {
        (seq![], false)
    } else {
        let (ps, stopped) = root_walk(pieces.drop_last());
        let c = pieces.last();
        if stopped {
            (ps, true)
        } else if c == seq!['.', '.'] {
            (ps, true)
        } else if c.len() == 0 || c == seq!['.'] {
            (ps, false)
        } else {
            let base = if ps.len() == 0 {
                Seq::<char>::empty()
            } else {
                ps.last()
            };
            (ps.push(base.push('/') + c), false)
        }
    }
}

/// The prefixes `/a`, `/a/b`, ... of the absolute path `p` that are observed
/// before its root is, and whether a `..` component cut them short.
pub open spec fn spec_root_prefixes(p: Seq<char>) -> (Seq<Seq<char>>, bool) {
    root_walk(root_pieces(p))
}

/// The lexical shape an accepted alternate root has: absolute, not the root
/// itself, and without a `..` component.
pub open spec fn root_shape_ok(p: Seq<char>) -> bool {
    &&& p.len() > 0 && p[0] == '/'
    &&& !only_root_components(p)
    &&& !spec_root_prefixes(p).1
}

/// The prefixes of the absolute `path` to observe, in order, and whether a
/// `..` component stops the walk after them.
pub fn root_prefixes(path: &str) -> (r: (Vec<String>, bool))
    requires
        path@.len() > 0,
    ensures
        string_views(r.0@) == spec_root_prefixes(path@).0,
        r.1 == spec_root_prefixes(path@).1,
{
    let v = chars_of(path);
    let rest = slice_range(v.as_slice(), 1, v.len());
    assert(rest@ =~= path@.drop_first());
    let pieces = split_on_exec(rest.as_slice(), '/');
    let ghost pv = root_pieces(path@);
    let mut out: Vec<String> = Vec::new();
    let mut cur: Vec<char> = Vec::new();
    let mut stopped = false;
    let mut i: usize = 0;
    assert(pv.take(0) =~= Seq::<Seq<char>>::empty());
    assert(string_views(out@) =~= Seq::<Seq<char>>::empty());
    while i < pieces.len()
        invariant
            i <= pieces@.len(),
            pieces@.map_values(|x: Vec<char>| x@) == pv,
            root_walk(pv.take(i as int)) == (string_views(out@), stopped),
            out@.len() == 0 ==> cur@ == Seq::<char>::empty(),
            out@.len() > 0 ==> cur@ == out@.last()@,
        decreases pieces.len() - i,
    {
        assert(pv.take(i as int + 1).drop_last() =~= pv.take(i as int));
        assert(pv.take(i as int + 1).last() == pieces@[i as int]@);
        let c = &pieces[i];
        if !stopped {
            if c.len() == 2 && c[0] == '.' && c[1] == '.' {
                assert(c@ =~= seq!['.', '.']);
                stopped = true;
            } else {
                proof {
                    if c@ == seq!['.', '.'] {
                        assert(c@[0] == '.' && c@[1] == '.');
                    }
                }
                let dot = c.len() == 1 && c[0] == '.';
                proof {
                    if c@ == seq!['.'] {
                        assert(c@[0] == '.');
                    }
                    if dot {
                        assert(c@ =~= seq!['.']);
                    }
                }
                if c.len() > 0 && !dot {
                    let ghost before = out@;
                    let ghost base = cur@;
                    cur.push('/');
                    let mut k: usize = 0;
                    while k < c.len()
                        invariant
                            k <= c@.len(),
                            cur@ == base.push('/') + c@.take(k as int),
                        decreases c.len() - k,
                    {
                        assert(c@.take(k as int + 1) =~= c@.take(k as int).push(c@[k as int]));
                        cur.push(c[k]);
                        k = k + 1;
                    }
                    assert(c@.take(c@.len() as int) =~= c@);
                    let s = string_from_chars(cur.as_slice());
                    out.push(s);
                    assert(string_views(out@) =~= string_views(before).push(cur@));
                }
            }
        }
        i = i + 1;
    }
    assert(pv.take(pieces@.len() as int) =~= pv);
    (out, stopped)
}

/// Decides the root's identity from the observations of the root and of
/// `/`: a failed observation is an `Io` error naming what was inspected, and
/// a root with the identity of `/` is refused.  `/` is only observed once the
/// root was, so `host` is read only when `alternate` is `Ok`.
pub fn decide_root_identity(
    path: &str,
    alternate: Result<NodeMetadata, String>,
    host: Result<NodeMetadata, String>,
) -> (r: Result<(), InstallError>)
    ensures
        alternate is Err ==> (r matches Err(InstallError::Io { action, path: p, .. }) && p@ == path@
            && action@ == "inspect alternate root identity"@),
        alternate is Ok && host is Err ==> (r matches Err(InstallError::Io { action, path: p, .. })
            && p@ == "/"@ && action@ == "inspect host root identity"@),
        (alternate is Ok && host is Ok) ==> (r is Ok <==> !(alternate->Ok_0.device
            == host->Ok_0.device && alternate->Ok_0.inode == host->Ok_0.inode)),
        alternate is Ok && host is Ok && r is Err ==> (r matches Err(
            InstallError::InvalidAlternateRoot { path: p, reason },
        ) && p@ == path@ && reason@ == "alternate root aliases the running host root identity"@),
{
    let a = match alternate {
        Ok(node) => node,
        Err(message) => {
            return Err(
                InstallError::Io {
                    action: owned("inspect alternate root identity"),
                    path: owned(path),
                    message,
                },
            );
        },
    };
    let h = match host {
        Ok(node) => node,
        Err(message) => {
            return Err(
                InstallError::Io {
                    action: owned("inspect host root identity"),
                    path: owned("/"),
                    message,
                },
            );
        },
    };
    if a.device == h.device && a.inode == h.inode {
        return Err(invalid_root(path, "alternate root aliases the running host root identity"));
    }
    Ok(())
}

/// A lexically absolute, existing, non-host root whose every component
/// passed the ownership policy.
#[derive(Debug, Clone, PartialEq, Eq)]
pub struct AlternateRoot {
    path: String,
    device: u64,
    inode: u64,
}

fn invalid_root(path: &str, reason: &str) -> (e: InstallError)
    ensures
        e matches InstallError::InvalidAlternateRoot { path: p, reason: m } && p@ == path@ && m@
            == reason@,
{
    InstallError::InvalidAlternateRoot { path: owned(path), reason: owned(reason) }
}

fn is_root_only(v: &[char]) -> (r: bool)
    ensures
        r == only_root_components(v@),
{
    let mut i: usize = 0;
    while i < v.len()
        invariant
            i <= v.len(),
            forall|k: int|
                0 <= k < i ==> #[trigger] v@[k] == '/' || (v@[k] == '.' && (k == 0 || v@[k - 1]
                    == '/') && (k + 1 == v.len() || v@[k + 1] == '/')),
        decreases v.len() - i,
    {
        let ok = v[i] == '/' || (v[i] == '.' && (i == 0 || v[i - 1] == '/') && (i + 1 == v.len()
            || v[i + 1] == '/'));
        if !ok {
            assert(!(v@[i as int] == '/' || (v@[i as int] == '.' && (i == 0 || v@[i - 1] == '/') && (
            i + 1 == v.len() || v@[i + 1] == '/'))));
            return false;
        }
        i = i + 1;
    }
    true
}

/// The observation succeeded and found a directory that the policy accepts.
pub open spec fn safe_directory_observation(
    observed: Result<NodeMetadata, String>,
    policy: RootPolicy,
) -> bool {
    observed matches Ok(node) && node_violation(node, policy, Some(NodeKind::Directory)) is None
}

/// Every observed prefix is a directory that the policy accepts.
pub open spec fn prefixes_are_safe_directories(
    prefixes: Seq<Result<NodeMetadata, String>>,
    policy: RootPolicy,
) -> bool {
    forall|i: int|
        0 <= i < prefixes.len() ==> safe_directory_observation(#[trigger] prefixes[i], policy)
}

/// The observations of an accepted root: its path has the accepted shape,
/// each of its prefixes was observed as a safe directory, the root and `/`
/// were observed with different identities, and the root's identity was
/// read.
pub open spec fn root_observations_accepted(
    path: Seq<char>,
    policy: RootPolicy,
    prefixes: Seq<Result<NodeMetadata, String>>,
    alternate: Result<NodeMetadata, String>,
    host: Result<NodeMetadata, String>,
    identity: Result<NodeMetadata, String>,
) -> bool {
    &&& root_shape_ok(path)
    &&& prefixes.len() == spec_root_prefixes(path).0.len()
    &&& prefixes_are_safe_directories(prefixes, policy)
    &&& alternate matches Ok(a) && host matches Ok(h) && !(a.device == h.device && a.inode
        == h.inode)
    &&& identity is Ok
}

/// Decides an alternate root from what was observed of it: `prefixes` holds
/// one observation per prefix named by [`root_prefixes`], `alternate` and
/// `host` those of the root and of `/`, and `identity` the last observation
/// of the root, whose device and inode the accepted root keeps.  The first
/// failing rule gives the error, in the order the observations are made.
pub fn accept_root_observations(
    path: &str,
    policy: RootPolicy,
    prefixes: &Vec<Result<NodeMetadata, String>>,
    alternate: Result<NodeMetadata, String>,
    host: Result<NodeMetadata, String>,
    identity: Result<NodeMetadata, String>,
) -> (r: Result<AlternateRoot, InstallError>)
    ensures
        r is Ok <==> root_observations_accepted(path@, policy, prefixes@, alternate, host, identity),
        r matches Ok(root) ==> root.spec_path() == path@ && root.spec_device()
            == identity->Ok_0.device && root.spec_inode() == identity->Ok_0.inode,
        (path@.len() == 0 || path@[0] != '/') ==> (r matches Err(
            InstallError::InvalidAlternateRoot { path: p, reason },
        ) && p@ == path@ && reason@ == "path must be absolute"@),
        (path@.len() > 0 && path@[0] == '/' && only_root_components(path@)) ==> (r matches Err(
            InstallError::InvalidAlternateRoot { path: p, reason },
        ) && p@ == path@ && reason@ == "the running host root is categorically forbidden"@),
{
    let v = chars_of(path);
    if v.len() == 0 || v[0] != '/' {
        return Err(invalid_root(path, "path must be absolute"));
    }
    if is_root_only(v.as_slice()) {
        return Err(invalid_root(path, "the running host root is categorically forbidden"));
    }
    assert(v@ == path@);
    let (names, stopped) = root_prefixes(path);
    if prefixes.len() != names.len() {
        return Err(invalid_root(path, "not every root component was observed"));
    }
    let mut i: usize = 0;
    while i < names.len()
        invariant
            i <= names.len(),
            prefixes@.len() == names@.len(),
            path@.len() > 0 && path@[0] == '/',
            !only_root_components(path@),
            forall|k: int|
                0 <= k < i ==> safe_directory_observation(#[trigger] prefixes@[k], policy),
        decreases names.len() - i,
    {
        let observed = match &prefixes[i] {
            Ok(node) => Ok(*node),
            Err(message) => Err(message.clone()),
        };
        match check_existing_node(names[i].as_str(), observed, policy, Some(NodeKind::Directory)) {
            Ok(_) => {},
            Err(e) => {
                assert(!prefixes_are_safe_directories(prefixes@, policy)) by {
                    assert(!safe_directory_observation(prefixes@[i as int], policy));
                }
                return Err(e);
            },
        }
        i = i + 1;
    }
    if stopped {
        return Err(invalid_root(path, "root contains a non-normal path component"));
    }
    match decide_root_identity(path, alternate, host) {
        Ok(()) => {},
        Err(e) => {
            return Err(e);
        },
    }
    match identity {
        Ok(node) => Ok(AlternateRoot { path: owned(path), device: node.device, inode: node.inode }),
        Err(message) => Err(
            InstallError::Io {
                action: owned("inspect alternate-root identity"),
                path: owned(path),
                message,
            },
        ),
    }
}

impl AlternateRoot {
    pub closed spec fn spec_path(&self) -> Seq<char> {
        self.path@
    }

    pub closed spec fn spec_device(&self) -> u64 {
        self.device
    }

    pub closed spec fn spec_inode(&self) -> u64 {
        self.inode
    }

    /// Validates `path` against `metadata` and `policy`: it must be absolute
    /// and not the host root; each prefix named by [`root_prefixes`] is
    /// observed in order and must be a directory that passes
    /// [`check_existing_node`], the walk stopping at the first that fails; a
    /// `..` component is refused where the walk reaches it; then `/` is
    /// observed once the root was, and the root observed once more for its
    /// identity when the two differ.  What was observed is decided by
    /// [`accept_root_observations`]; what the source reports decides the
    /// rest.
    pub fn with_metadata<M: MetadataSource>(path: &str, metadata: &M, policy: RootPolicy) -> (r:
        Result<AlternateRoot, InstallError>)
        ensures
            r matches Ok(root) ==> root.spec_path() == path@ && root_shape_ok(path@),
            r matches Ok(root) ==> exists|
                prefixes: Seq<Result<NodeMetadata, String>>,
                alternate: Result<NodeMetadata, String>,
                host: Result<NodeMetadata, String>,
                identity: Result<NodeMetadata, String>,
            |
                #[trigger] root_observations_accepted(
                    path@,
                    policy,
                    prefixes,
                    alternate,
                    host,
                    identity,
                ) && root.spec_device() == identity->Ok_0.device && root.spec_inode()
                    == identity->Ok_0.inode,
            (path@.len() == 0 || path@[0] != '/') ==> (r matches Err(
                InstallError::InvalidAlternateRoot { path: p, reason },
            ) && p@ == path@ && reason@ == "path must be absolute"@),
            (path@.len() > 0 && path@[0] == '/' && only_root_components(path@)) ==> (r matches Err(
                InstallError::InvalidAlternateRoot { path: p, reason },
            ) && p@ == path@ && reason@ == "the running host root is categorically forbidden"@),
    {
        let v = chars_of(path);
        if v.len() == 0 || v[0] != '/' {
            return Err(invalid_root(path, "path must be absolute"));
        }
        if is_root_only(v.as_slice()) {
            return Err(invalid_root(path, "the running host root is categorically forbidden"));
        }
        let (prefixes, _stopped) = root_prefixes(path);
        let mut seen: Vec<Result<NodeMetadata, String>> = Vec::new();
        let mut i: usize = 0;
        while i < prefixes.len()
            invariant
                i <= prefixes.len(),
                seen@.len() == i,
                path@.len() > 0 && path@[0] == '/',
                !only_root_components(path@),
            decreases prefixes.len() - i,
        {
            let observed = metadata.symlink_metadata(prefixes[i].as_str());
            match &observed {
                Ok(node) => {
                    match check_existing_node(
                        prefixes[i].as_str(),
                        Ok(*node),
                        policy,
                        Some(NodeKind::Directory),
                    ) {
                        Ok(_) => {},
                        Err(e) => {
                            return Err(e);
                        },
                    }
                },
                Err(message) => {
                    return Err(
                        InstallError::Io {
                            action: owned("inspect"),
                            path: owned(prefixes[i].as_str()),
                            message: message.clone(),
                        },
                    );
                },
            }
            seen.push(observed);
            i = i + 1;
        }
        let alternate = metadata.symlink_metadata(path);
        let host = match &alternate {
            Ok(_) => metadata.symlink_metadata("/"),
            Err(_) => Err(String::new()),
        };
        let mut distinct = false;
        if let Ok(a) = &alternate {
            if let Ok(h) = &host {
                distinct = !(a.device == h.device && a.inode == h.inode);
            }
        }
        let identity = if distinct {
            metadata.symlink_metadata(path)
        } else {
            Err(String::new())
        };
        let ghost (ga, gh, gi) = (alternate, host, identity);
        let r = accept_root_observations(path, policy, &seen, alternate, host, identity);
        proof {
            if r is Ok {
                assert(root_observations_accepted(path@, policy, seen@, ga, gh, gi));
            }
        }
        r
    }

    /// The root's path.
    pub fn as_path(&self) -> (p: &str)
        ensures
            p@ == self.spec_path(),
    {
        self.path.as_str()
    }
}

} // verus!
