//! `cargo metadata` interpretation.
//!
//! Finds which registry packages exceed the target toolchain's MSRV
//! (`incompatible_packages`), and, via the resolve graph, which packages
//! depend on which (`direct_parent_ids`).

use crate::text::{same_text, starts_with};
use crate::version::{lemma_semver_order, padded, parse_version, semver_order, SemVer, VersionOrder, VersionView};
use vstd::prelude::*;

verus! {

/// One package of the dependency graph.
#[derive(Debug)]
pub struct MetadataPackage {
    pub name: String,
    pub version: String,
    pub id: String,
    pub source: Option<String>,
    pub rust_version: Option<String>,
}

/// A dependency edge of the resolve graph: the id of the package depended on.
#[derive(Debug)]
pub struct ResolveNodeDep {
    pub pkg: String,
}

/// A package of the resolve graph and its direct dependencies.
#[derive(Debug)]
pub struct ResolveNode {
    pub id: String,
    pub deps: Vec<ResolveNodeDep>,
}

/// The resolve graph: its nodes, and the id of the local root package
/// (`None` for a virtual workspace).
#[derive(Debug)]
pub struct Resolve {
    pub nodes: Vec<ResolveNode>,
    pub root: Option<String>,
}

/// What `cargo metadata` reports: the packages and the resolve graph.
#[derive(Debug)]
pub struct CargoMetadata {
    pub packages: Vec<MetadataPackage>,
    pub resolve: Resolve,
}

/// Package `i` is the first one whose id is `id`.
pub open spec fn first_with_id(packages: Seq<MetadataPackage>, id: Seq<char>, i: int) -> bool {
    &&& 0 <= i < packages.len()
    &&& packages[i].id@ == id
    &&& forall|j: int| 0 <= j < i ==> packages[j].id@ != id
}

/// Package `i` is the first one whose name is `name`.
pub open spec fn first_with_name(packages: Seq<MetadataPackage>, name: Seq<char>, i: int) -> bool {
    &&& 0 <= i < packages.len()
    &&& packages[i].name@ == name
    &&& forall|j: int| 0 <= j < i ==> packages[j].name@ != name
}

/// `node` has a direct dependency on the package with id `id`.
pub open spec fn depends_on(node: ResolveNode, id: Seq<char>) -> bool {
    exists|k: int| 0 <= k < node.deps@.len() && (#[trigger] node.deps@[k]).pkg@ == id
}

/// The ids of the nodes that depend directly on `id`, in graph order.
pub open spec fn parent_ids(nodes: Seq<ResolveNode>, id: Seq<char>) -> Seq<Seq<char>>
    decreases nodes.len(),
{
    if nodes.len() == 0 {
        seq![]
    } else {
        let rest = parent_ids(nodes.drop_last(), id);
        if depends_on(nodes.last(), id) {
            rest.push(nodes.last().id@)
        } else {
            rest
        }
    }
}

/// The views of a list of string slices.
pub open spec fn slice_views(v: Seq<&str>) -> Seq<Seq<char>> {
    v.map_values(|x: &str| x@)
}

/// The id of the local package `cargo metadata` was run against, or `None`
/// for a virtual workspace with no root package.
pub fn root_id(metadata: &CargoMetadata) -> (r: Option<&str>)
    ensures
        match r {
            Some(s) => metadata.resolve.root matches Some(root) && s@ == root@,
            None => metadata.resolve.root is None,
        },
{
    match &metadata.resolve.root {
        Some(root) => Some(root.as_str()),
        None => None,
    }
}

/// The package with the given id, if any.
pub fn find_package<'a>(metadata: &'a CargoMetadata, id: &str) -> (r: Option<&'a MetadataPackage>)
    ensures
        match r {
            Some(p) => exists|i: int| first_with_id(metadata.packages@, id@, i) && metadata.packages@[i] == *p,
            None => forall|i: int| 0 <= i < metadata.packages@.len() ==> metadata.packages@[i].id@ != id@,
        },
{
    let packages = &metadata.packages;
    let mut i: usize = 0;
    while i < packages.len()
        invariant
            packages == &metadata.packages,
            i <= packages@.len(),
            forall|j: int| 0 <= j < i ==> packages@[j].id@ != id@,
        decreases packages.len() - i,
    {
        if same_text(packages[i].id.as_str(), id) {
            assert(first_with_id(packages@, id@, i as int));
            return Some(&packages[i]);
        }
        i = i + 1;
    }
    None
}

/// The package with the given name, if any is currently in the graph.
pub fn package_named<'a>(metadata: &'a CargoMetadata, name: &str) -> (r: Option<&'a MetadataPackage>)
    ensures
        match r {
            Some(p) => exists|i: int| first_with_name(metadata.packages@, name@, i) && metadata.packages@[i] == *p,
            None => forall|i: int| 0 <= i < metadata.packages@.len() ==> metadata.packages@[i].name@ != name@,
        },
{
    let packages = &metadata.packages;
    let mut i: usize = 0;
    while i < packages.len()
        invariant
            packages == &metadata.packages,
            i <= packages@.len(),
            forall|j: int| 0 <= j < i ==> packages@[j].name@ != name@,
        decreases packages.len() - i,
    {
        if same_text(packages[i].name.as_str(), name) {
            assert(first_with_name(packages@, name@, i as int));
            return Some(&packages[i]);
        }
        i = i + 1;
    }
    None
}

/// Whether `node` lists a direct dependency on `id`.
fn node_depends_on(node: &ResolveNode, id: &str) -> (r: bool)
    ensures
        r == depends_on(*node, id@),
{
    let mut k: usize = 0;
    while k < node.deps.len()
        invariant
            k <= node.deps@.len(),
            forall|j: int| 0 <= j < k ==> (#[trigger] node.deps@[j]).pkg@ != id@,
        decreases node.deps.len() - k,
    {
        if same_text(node.deps[k].pkg.as_str(), id) {
            assert(node.deps@[k as int].pkg@ == id@);
            return true;
        }
        k = k + 1;
    }
    false
}

/// Ids of the packages that declare a direct dependency on `id`.
///
/// This is `cargo metadata`'s resolve graph read backwards: it only records
/// forward edges (a package's own dependencies), so finding what depends on
/// a given package means scanning every node for an edge that targets it.
pub fn direct_parent_ids<'a>(metadata: &'a CargoMetadata, id: &str) -> (r: Vec<&'a str>)
    ensures
        slice_views(r@) == parent_ids(metadata.resolve.nodes@, id@),
{
    let nodes = &metadata.resolve.nodes;
    let mut r: Vec<&'a str> = Vec::new();
    let mut i: usize = 0;
    while i < nodes.len()
        invariant
            nodes == &metadata.resolve.nodes,
            i <= nodes@.len(),
            slice_views(r@) == parent_ids(nodes@.take(i as int), id@),
        decreases nodes.len() - i,
    {
        let ghost before = r@;
        assert(nodes@.take(i + 1).drop_last() == nodes@.take(i as int));
        if node_depends_on(&nodes[i], id) {
            r.push(nodes[i].id.as_str());
            assert(slice_views(r@) =~= slice_views(before).push(nodes@[i as int].id@));
        }
        i = i + 1;
    }
    assert(nodes@.take(nodes@.len() as int) == nodes@);
    r
}

/// A package that comes from a registry and whose declared minimum Rust
/// version parses and is above `toolchain`.
pub open spec fn is_incompatible(p: MetadataPackage, toolchain: VersionView) -> bool {
    &&& from_registry(p)
    &&& p.rust_version matches Some(rv) && semver_parse_above(rv@, toolchain)
}

/// A package that comes from a registry (rather than a path or git).
pub open spec fn from_registry(p: MetadataPackage) -> bool {
    p.source matches Some(source) && "registry+"@.is_prefix_of(source@)
}

/// `rv`, padded, parses to a version above `toolchain`.
pub open spec fn semver_parse_above(rv: Seq<char>, toolchain: VersionView) -> bool {
    crate::version::semver_parse(padded(rv)) matches Some(v)
        && semver_order(v, toolchain) == VersionOrder::Greater
}

/// The `(name, version)` of each incompatible package, in graph order.
pub open spec fn incompatible_list(packages: Seq<MetadataPackage>, toolchain: VersionView) -> Seq<(Seq<char>, Seq<char>)>
    decreases packages.len(),
{
    if packages.len() == 0 {
        seq![]
    } else {
        let rest = incompatible_list(packages.drop_last(), toolchain);
        let p = packages.last();
        if is_incompatible(p, toolchain) {
            rest.push((p.name@, p.version@))
        } else {
            rest
        }
    }
}

/// The views of a list of `(name, version)` pairs.
pub open spec fn pair_views(v: Seq<(String, String)>) -> Seq<(Seq<char>, Seq<char>)> {
    v.map_values(|p: (String, String)| (p.0@, p.1@))
}

/// Whether `p` comes from a registry and declares a minimum Rust version
/// above `toolchain_version`.
fn package_is_incompatible(p: &MetadataPackage, toolchain_version: &SemVer) -> (r: bool)
    ensures
        r == is_incompatible(*p, toolchain_version@),
{
    if !is_registry_package(p) {
        return false;
    }
    match &p.rust_version {
        None => false,
        Some(rv) => match parse_version(rv.as_str()) {
            Ok(parsed) => parsed.order(toolchain_version) == VersionOrder::Greater,
            Err(_) => false,
        },
    }
}

/// Registry packages whose `rust_version` exceeds `toolchain_version`, as
/// `(name, version)` pairs. Packages without a `rust_version`, or with one
/// that does not parse, are skipped.
pub fn incompatible_packages(metadata: &CargoMetadata, toolchain_version: &SemVer) -> (r: Vec<(String, String)>)
    ensures
        pair_views(r@) == incompatible_list(metadata.packages@, toolchain_version@),
{
    let packages = &metadata.packages;
    let mut incompatible: Vec<(String, String)> = Vec::new();
    let mut i: usize = 0;
    while i < packages.len()
        invariant
            packages == &metadata.packages,
            i <= packages@.len(),
            pair_views(incompatible@) == incompatible_list(packages@.take(i as int), toolchain_version@),
        decreases packages.len() - i,
    {
        let pkg = &packages[i];
        let ghost before = incompatible@;
        assert(packages@.take(i + 1).drop_last() == packages@.take(i as int));
        if package_is_incompatible(pkg, toolchain_version) {
            incompatible.push((pkg.name.clone(), pkg.version.clone()));
            assert(pair_views(incompatible@) =~= pair_views(before).push((pkg.name@, pkg.version@)));
        }
        i = i + 1;
    }
    assert(packages@.take(packages@.len() as int) == packages@);
    incompatible
}

/// The command that prints the metadata, under `cargo +<toolchain>` when a
/// toolchain is given.
pub open spec fn metadata_command(toolchain: Option<Seq<char>>) -> Seq<Seq<char>> {
    match toolchain {
        Some(tc) => seq!["cargo"@, "+"@ + tc, "metadata"@, "--format-version"@, "1"@],
        None => seq!["cargo"@, "metadata"@, "--format-version"@, "1"@],
    }
}

/// The arguments of `cargo metadata`; with `toolchain`, it runs under
/// `cargo +<toolchain>` instead of the default toolchain.
pub fn metadata_args(toolchain: Option<&str>) -> (r: Vec<String>)
    ensures
        crate::text::views(r@) == metadata_command(match toolchain {
            Some(tc) => Some(tc@),
            None => None,
        }),
{
    let mut args: Vec<String> = Vec::new();
    args.push("cargo".to_owned());
    if let Some(tc) = toolchain {
        let mut arg = String::new();
        arg.append("+");
        arg.append(tc);
        args.push(arg);
    }
    args.push("metadata".to_owned());
    args.push("--format-version".to_owned());
    args.push("1".to_owned());
    proof {
        assert(crate::text::views(args@) =~= metadata_command(match toolchain {
            Some(tc) => Some(tc@),
            None => None,
        }));
    }
    args
}

/// Whether `p` comes from a registry.
pub fn is_registry_package(p: &MetadataPackage) -> (r: bool)
    ensures
        r == from_registry(*p),
{
    match &p.source {
        Some(source) => starts_with(source.as_str(), "registry+"),
        None => false,
    }
}

/// The ids of the resolve graph's nodes, in order.
pub open spec fn node_ids(metadata: CargoMetadata) -> Seq<Seq<char>> {
    metadata.resolve.nodes@.map_values(|n: ResolveNode| n.id@)
}

/// The position of the first package whose id is `id`.
pub open spec fn package_index(packages: Seq<MetadataPackage>, id: Seq<char>) -> Option<int> {
    if exists|i: int| first_with_id(packages, id, i) {
        Some(choose|i: int| first_with_id(packages, id, i))
    } else {
        None
    }
}

/// Package `i` is the first one named `name` at `version`.
pub open spec fn first_with_name_version(
    packages: Seq<MetadataPackage>,
    name: Seq<char>,
    version: Seq<char>,
    i: int,
) -> bool {
    &&& 0 <= i < packages.len()
    &&& packages[i].name@ == name && packages[i].version@ == version
    &&& forall|j: int| 0 <= j < i ==> !(packages[j].name@ == name && packages[j].version@ == version)
}

/// The position of the first package named `name` at `version`.
pub open spec fn package_version_index(packages: Seq<MetadataPackage>, name: Seq<char>, version: Seq<char>) -> Option<int> {
    if exists|i: int| first_with_name_version(packages, name, version, i) {
        Some(choose|i: int| first_with_name_version(packages, name, version, i))
    } else {
        None
    }
}

/// The position of the package with the given id, if any.
pub fn position_of_id(metadata: &CargoMetadata, id: &str) -> (r: Option<usize>)
    ensures
        match r {
            Some(i) => package_index(metadata.packages@, id@) == Some(i as int),
            None => package_index(metadata.packages@, id@) is None,
        },
{
    let packages = &metadata.packages;
    let mut i: usize = 0;
    while i < packages.len()
        invariant
            packages == &metadata.packages,
            i <= packages@.len(),
            forall|j: int| 0 <= j < i ==> packages@[j].id@ != id@,
        decreases packages.len() - i,
    {
        if same_text(packages[i].id.as_str(), id) {
            assert(first_with_id(packages@, id@, i as int));
            let ghost c = choose|k: int| first_with_id(packages@, id@, k);
            assert(c == i as int) by {
                if c < i as int {
                } else if c > i as int {
                }
            }
            return Some(i);
        }
        i = i + 1;
    }
    None
}

/// The position of the package named `name` at `version`, if any.
pub fn position_of_package(metadata: &CargoMetadata, name: &str, version: &str) -> (r: Option<usize>)
    ensures
        match r {
            Some(i) => package_version_index(metadata.packages@, name@, version@) == Some(i as int),
            None => package_version_index(metadata.packages@, name@, version@) is None,
        },
{
    let packages = &metadata.packages;
    let mut i: usize = 0;
    while i < packages.len()
        invariant
            packages == &metadata.packages,
            i <= packages@.len(),
            forall|j: int| 0 <= j < i ==> !(packages@[j].name@ == name@ && packages@[j].version@ == version@),
        decreases packages.len() - i,
    {
        if same_text(packages[i].name.as_str(), name) && same_text(packages[i].version.as_str(), version) {
            assert(first_with_name_version(packages@, name@, version@, i as int));
            let ghost c = choose|k: int| first_with_name_version(packages@, name@, version@, k);
            assert(c == i as int) by {
                if c < i as int {
                } else if c > i as int {
                }
            }
            return Some(i);
        }
        i = i + 1;
    }
    None
}

/// Every parent id is the id of a node.
pub proof fn lemma_parent_ids_are_nodes(nodes: Seq<ResolveNode>, id: Seq<char>)
    ensures
        forall|i: int| 0 <= i < parent_ids(nodes, id).len()
            ==> nodes.map_values(|n: ResolveNode| n.id@).contains(#[trigger] parent_ids(nodes, id)[i]),
    decreases nodes.len(),
{
    if nodes.len() > 0 {
        let rest = nodes.drop_last();
        lemma_parent_ids_are_nodes(rest, id);
        let all = nodes.map_values(|n: ResolveNode| n.id@);
        let some = rest.map_values(|n: ResolveNode| n.id@);
        assert forall|i: int| 0 <= i < parent_ids(nodes, id).len()
            implies all.contains(#[trigger] parent_ids(nodes, id)[i]) by {
            if i < parent_ids(rest, id).len() {
                assert(some.contains(parent_ids(rest, id)[i]));
                let k = choose|k: int| 0 <= k < some.len() && some[k] == parent_ids(rest, id)[i];
                assert(all[k] == some[k]);
            } else {
                assert(all[nodes.len() - 1] == nodes.last().id@);
            }
        }
    }
}

/// Owned copies of the ids of the packages that depend directly on `id`.
pub fn parent_id_strings(metadata: &CargoMetadata, id: &str) -> (r: Vec<String>)
    ensures
        crate::text::views(r@) == parent_ids(metadata.resolve.nodes@, id@),
{
    let parents = direct_parent_ids(metadata, id);
    let mut r: Vec<String> = Vec::new();
    let mut i: usize = 0;
    while i < parents.len()
        invariant
            i <= parents@.len(),
            crate::text::views(r@) == slice_views(parents@).take(i as int),
        decreases parents.len() - i,
    {
        let ghost before = r@;
        let p: &str = parents[i];
        r.push(p.to_owned());
        assert(crate::text::views(r@) =~= crate::text::views(before).push(p@));
        assert(slice_views(parents@).take(i + 1) =~= slice_views(parents@).take(i as int).push(p@));
        i = i + 1;
    }
    assert(slice_views(parents@).take(parents@.len() as int) == slice_views(parents@));
    r
}

/// A newer toolchain never flags a package that an older one accepts:
/// every package incompatible with `newer` is incompatible with `older` too.
pub proof fn lemma_newer_toolchain_flags_no_more(p: MetadataPackage, older: VersionView, newer: VersionView)
    requires
        semver_order(older, newer) != VersionOrder::Greater,
    ensures
        is_incompatible(p, newer) ==> is_incompatible(p, older),
{
    if is_incompatible(p, newer) {
        let v = crate::version::semver_parse(padded(p.rust_version->0@))->0;
        lemma_semver_order(older, newer, v);
        lemma_semver_order(v, newer, v);
        lemma_semver_order(v, older, v);
    }
}

/// `x` is `y` with some items left out: the items of `x` stand in `y` in
/// the same order.
pub open spec fn is_subsequence(x: Seq<(Seq<char>, Seq<char>)>, y: Seq<(Seq<char>, Seq<char>)>) -> bool {
    exists|idx: Seq<int>| is_embedding(idx, x, y)
}

/// `idx` places each item of `x` at a position of `y` holding it, at
/// increasing positions.
pub open spec fn is_embedding(idx: Seq<int>, x: Seq<(Seq<char>, Seq<char>)>, y: Seq<(Seq<char>, Seq<char>)>) -> bool {
    &&& idx.len() == x.len()
    &&& forall|k: int| 0 <= k < idx.len() ==> 0 <= #[trigger] idx[k] < y.len() && x[k] == y[idx[k]]
    &&& forall|k: int, l: int| 0 <= k < l < idx.len() ==> #[trigger] idx[k] < #[trigger] idx[l]
}

/// The positions, among the packages an older toolchain flags, of those a
/// newer one flags.
proof fn newer_flags_embedding(packages: Seq<MetadataPackage>, older: VersionView, newer: VersionView) -> (idx: Seq<int>)
    requires
        semver_order(older, newer) != VersionOrder::Greater,
    ensures
        is_embedding(idx, incompatible_list(packages, newer), incompatible_list(packages, older)),
    decreases packages.len(),
{
    if packages.len() == 0 {
        seq![]
    } else {
        let idx = newer_flags_embedding(packages.drop_last(), older, newer);
        let p = packages.last();
        let y = incompatible_list(packages.drop_last(), older);
        lemma_newer_toolchain_flags_no_more(p, older, newer);
        if is_incompatible(p, newer) {
            let r = idx.push(y.len() as int);
            assert(is_embedding(r, incompatible_list(packages, newer), incompatible_list(packages, older)));
            r
        } else {
            idx
        }
    }
}

/// A newer toolchain flags no more than an older one: the packages that
/// `incompatible_packages` lists for the newer toolchain are among those it
/// lists for the older one, in the same order.
pub proof fn lemma_newer_toolchain_lists_no_more(packages: Seq<MetadataPackage>, older: VersionView, newer: VersionView)
    requires
        semver_order(older, newer) != VersionOrder::Greater,
    ensures
        is_subsequence(incompatible_list(packages, newer), incompatible_list(packages, older)),
{
    let idx = newer_flags_embedding(packages, older, newer);
    assert(is_embedding(idx, incompatible_list(packages, newer), incompatible_list(packages, older)));
}

/// Every node with an entry for `id` anywhere in its dependency list is a
/// direct parent of `id`: its id is listed.
pub proof fn lemma_nodes_with_a_dep_on_are_parents(nodes: Seq<ResolveNode>, id: Seq<char>, j: int, k: int)
    requires
        0 <= j < nodes.len(),
        0 <= k < nodes[j].deps@.len(),
        nodes[j].deps@[k].pkg@ == id,
    ensures
        parent_ids(nodes, id).contains(nodes[j].id@),
    decreases nodes.len(),
{
    let rest = nodes.drop_last();
    let last = nodes.len() - 1;
    if j < last {
        assert(nodes[j] == rest[j]);
        lemma_nodes_with_a_dep_on_are_parents(rest, id, j, k);
        let before = parent_ids(rest, id);
        let m = choose|m: int| 0 <= m < before.len() && before[m] == rest[j].id@;
        assert(parent_ids(nodes, id)[m] == before[m]);
    } else {
        assert(depends_on(nodes.last(), id));
        assert(parent_ids(nodes, id) == parent_ids(rest, id).push(nodes.last().id@));
        assert(parent_ids(nodes, id)[parent_ids(rest, id).len() as int] == nodes[j].id@);
    }
}

/// Every listed direct parent of `id` is a node with an entry for `id` in
/// its dependency list: the result names that node and that entry.
pub proof fn lemma_parents_have_a_dep_on(nodes: Seq<ResolveNode>, id: Seq<char>, m: int) -> (jk: (int, int))
    requires
        0 <= m < parent_ids(nodes, id).len(),
    ensures
        0 <= jk.0 < nodes.len(),
        0 <= jk.1 < nodes[jk.0].deps@.len(),
        nodes[jk.0].deps@[jk.1].pkg@ == id,
        nodes[jk.0].id@ == parent_ids(nodes, id)[m],
    decreases nodes.len(),
{
    let rest = nodes.drop_last();
    let last = nodes.len() - 1;
    let before = parent_ids(rest, id);
    if m < before.len() {
        let jk = lemma_parents_have_a_dep_on(rest, id, m);
        assert(nodes[jk.0] == rest[jk.0]);
        assert(parent_ids(nodes, id)[m] == before[m]);
        jk
    } else {
        assert(depends_on(nodes.last(), id));
        let k = choose|k: int| 0 <= k < nodes.last().deps@.len() && (#[trigger] nodes.last().deps@[k]).pkg@ == id;
        assert(parent_ids(nodes, id) == before.push(nodes.last().id@));
        (last, k)
    }
}

/// Whether a package is flagged depends on its source, its declared
/// minimum Rust version and the toolchain alone: it is flagged exactly when
/// its source starts with `registry+` and its `rust_version`, padded,
/// parses to a version above the toolchain. Its name, version and id play
/// no part.
pub proof fn lemma_flagged_exactly_when_registry_and_above(p: MetadataPackage, q: MetadataPackage, toolchain: VersionView)
    requires
        p.source == q.source,
        p.rust_version == q.rust_version,
    ensures
        is_incompatible(p, toolchain) == is_incompatible(q, toolchain),
        is_incompatible(p, toolchain) <==> (p.source is Some && p.source->0@.len() >= 9
            && p.source->0@.subrange(0, 9) == "registry+"@
            && p.rust_version is Some
            && crate::version::semver_parse(padded(p.rust_version->0@)) is Some
            && semver_order(crate::version::semver_parse(padded(p.rust_version->0@))->0, toolchain)
                == VersionOrder::Greater),
{
    reveal_strlit("registry+");
    if let Some(src) = p.source {
        if src@.len() >= 9 && src@.subrange(0, 9) == "registry+"@ {
            assert("registry+"@.is_prefix_of(src@));
        }
    }
}

} // verus!
