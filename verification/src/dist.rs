//! Which extension artifacts a distribution ships, and in which directory.
use vstd::prelude::*;

use serde_json::Value;
use vstd::utf8::encode_utf8;

use crate::text::{lemma_lex_irreflexive, lemma_lex_total, lemma_lex_transitive, lex_lt, str_eq, str_lt};

verus! {

/// A build target of an extension package, as `cargo metadata` reports it:
/// its name and its crate types, each `None` where the report omits it (a
/// crate type that is not a string is `None` too).
#[derive(Debug, Clone, PartialEq, Eq)]
pub struct TargetMetadata {
    pub name: Option<String>,
    pub crate_types: Option<Vec<Option<String>>>,
}

/// An extension package as `cargo metadata` reports it: its id (as JSON
/// text), its name, the `dist-group` of its `artificial-will` metadata, and
/// its targets, each `None` where the report omits it.
#[derive(Debug, Clone, PartialEq, Eq)]
pub struct PackageMetadata {
    pub id: String,
    pub name: Option<String>,
    pub dist_group: Option<String>,
    pub targets: Option<Vec<TargetMetadata>>,
}

/// The report of `cargo metadata` on the extension workspace: the ids of
/// its members (as JSON text) and its packages.
#[derive(Debug, Clone, PartialEq, Eq)]
pub struct WorkspaceMetadata {
    pub workspace_members: Option<Vec<String>>,
    pub packages: Option<Vec<PackageMetadata>>,
}

pub open spec fn opt_view(o: Option<String>) -> Option<Seq<char>> {
    match o {
        Some(s) => Some(s@),
        None => None,
    }
}

/// The directory a package with metadata group `group` ships in: `core` or
/// `levels`; anything else, or none, is an error naming the package.
pub open spec fn spec_dist_group(group: Option<Seq<char>>, package_name: Seq<char>) -> Result<Seq<char>, Seq<char>> {
    match group {
        None => Err("extension package "@ + package_name + " has no dist-group"@),
        Some(g) => if g == "core"@ || g == "levels"@ {
            Ok(g)
        } else {
            Err("extension package "@ + package_name + " has unknown dist-group "@ + g)
        },
    }
}

/// A build target as the report gives it, with its texts as characters.
pub struct TargetReport {
    pub name: Option<Seq<char>>,
    pub crate_types: Option<Seq<Option<Seq<char>>>>,
}

/// A package as the report gives it, with its texts as characters.
pub struct PackageReport {
    pub id: Seq<char>,
    pub name: Option<Seq<char>>,
    pub dist_group: Option<Seq<char>>,
    pub targets: Option<Seq<TargetReport>>,
}

/// The workspace report, with its texts as characters.
pub struct WorkspaceReport {
    pub workspace_members: Option<Seq<Seq<char>>>,
    pub packages: Option<Seq<PackageReport>>,
}

pub open spec fn string_view(s: String) -> Seq<char> {
    s@
}

pub open spec fn kinds_view(kinds: Seq<Option<String>>) -> Seq<Option<Seq<char>>> {
    kinds.map_values(|k: Option<String>| opt_view(k))
}

pub open spec fn target_report(t: TargetMetadata) -> TargetReport {
    TargetReport {
        name: opt_view(t.name),
        crate_types: match t.crate_types {
            Some(kinds) => Some(kinds_view(kinds@)),
            None => None,
        },
    }
}

pub open spec fn targets_view(targets: Seq<TargetMetadata>) -> Seq<TargetReport> {
    targets.map_values(|t: TargetMetadata| target_report(t))
}

pub open spec fn package_report(p: PackageMetadata) -> PackageReport {
    PackageReport {
        id: p.id@,
        name: opt_view(p.name),
        dist_group: opt_view(p.dist_group),
        targets: match p.targets {
            Some(ts) => Some(targets_view(ts@)),
            None => None,
        },
    }
}

pub open spec fn members_view(members: Seq<String>) -> Seq<Seq<char>> {
    members.map_values(|m: String| string_view(m))
}

pub open spec fn packages_view(packages: Seq<PackageMetadata>) -> Seq<PackageReport> {
    packages.map_values(|p: PackageMetadata| package_report(p))
}

impl WorkspaceMetadata {
    /// The report this metadata holds, with its texts as characters.
    pub open spec fn report(self) -> WorkspaceReport {
        WorkspaceReport {
            workspace_members: match self.workspace_members {
                Some(m) => Some(members_view(m@)),
                None => None,
            },
            packages: match self.packages {
                Some(p) => Some(packages_view(p@)),
                None => None,
            },
        }
    }
}

/// Whether a crate type is `cdylib`.
pub open spec fn is_cdylib(kind: Option<Seq<char>>) -> bool {
    kind == Some("cdylib"@)
}

/// Whether a crate type list names `cdylib`.
pub open spec fn lists_cdylib(kinds: Seq<Option<Seq<char>>>) -> bool {
    exists|i: int| 0 <= i < kinds.len() && #[trigger] is_cdylib(kinds[i])
}

/// Whether `id` is among the workspace members.
pub open spec fn is_member(members: Seq<Seq<char>>, id: Seq<char>) -> bool {
    exists|i: int| 0 <= i < members.len() && members[i] == id
}

/// The artifacts of the first `n` targets of a package, in order: each
/// `cdylib` target ships `<name>.wasm` in the package's group. The first
/// omission or bad group met is the error.
pub open spec fn target_walk(
    group: Option<Seq<char>>,
    package_name: Seq<char>,
    targets: Seq<TargetReport>,
    n: nat,
) -> Result<Seq<(Seq<char>, Seq<char>)>, Seq<char>>
    decreases n,
{
    if n == 0 {
        Ok(Seq::empty())
    } else {
        match target_walk(group, package_name, targets, (n - 1) as nat) {
            Err(e) => Err(e),
            Ok(acc) => {
                let t = targets[n - 1];
                match t.crate_types {
                    None => Err("cargo metadata target omitted crate_types"@),
                    Some(kinds) => if !lists_cdylib(kinds) {
                        Ok(acc)
                    } else {
                        match spec_dist_group(group, package_name) {
                            Err(e) => Err(e),
                            Ok(g) => match t.name {
                                None => Err("cargo metadata target omitted name"@),
                                Some(name) => Ok(acc.push((g, name + ".wasm"@))),
                            },
                        }
                    },
                }
            },
        }
    }
}

/// The artifacts of the first `n` packages, in order; packages outside the
/// workspace are skipped.
pub open spec fn package_walk(members: Seq<Seq<char>>, packages: Seq<PackageReport>, n: nat) -> Result<
    Seq<(Seq<char>, Seq<char>)>,
    Seq<char>,
>
    decreases n,
{
    if n == 0 {
        Ok(Seq::empty())
    } else {
        match package_walk(members, packages, (n - 1) as nat) {
            Err(e) => Err(e),
            Ok(acc) => {
                let p = packages[n - 1];
                if !is_member(members, p.id) {
                    Ok(acc)
                } else {
                    match p.name {
                        None => Err("cargo metadata package omitted name"@),
                        Some(name) => match p.targets {
                            None => Err("cargo metadata package omitted targets"@),
                            Some(ts) => match target_walk(p.dist_group, name, ts, ts.len()) {
                                Err(e) => Err(e),
                                Ok(more) => Ok(acc + more),
                            },
                        },
                    }
                }
            },
        }
    }
}

/// Every artifact the workspace report names, in report order, or the
/// first omission met.
pub open spec fn collected(meta: WorkspaceReport) -> Result<Seq<(Seq<char>, Seq<char>)>, Seq<char>> {
    match meta.workspace_members {
        None => Err("cargo metadata omitted workspace_members"@),
        Some(members) => match meta.packages {
            None => Err("cargo metadata omitted packages"@),
            Some(packages) => package_walk(members, packages, packages.len()),
        },
    }
}

/// What a distribution ships for a report: an error for the first omission
/// met or a bad group, or for a workspace without `cdylib` targets;
/// otherwise the artifacts in increasing order without repeats.
pub open spec fn artifacts_outcome(meta: WorkspaceReport, r: Result<Vec<(String, String)>, String>) -> bool {
    match collected(meta) {
        Err(e) => r matches Err(m) && m@ == e,
        Ok(all) => if all.len() == 0 {
            r matches Err(m) && m@ == "extension workspace contains no cdylib targets"@
        } else {
            r matches Ok(v) && strictly_sorted(pair_views(v@)) && pair_views(v@).to_set() == all.to_set()
        },
    }
}

/// Order of artifacts: by group, then by file name.
pub open spec fn pair_lt(p: (Seq<char>, Seq<char>), q: (Seq<char>, Seq<char>)) -> bool {
    lex_lt(p.0, q.0) || (p.0 == q.0 && lex_lt(p.1, q.1))
}

/// Whether the artifacts are in increasing order, with none twice.
pub open spec fn strictly_sorted(s: Seq<(Seq<char>, Seq<char>)>) -> bool {
    forall|i: int, j: int| 0 <= i < j < s.len() ==> pair_lt(#[trigger] s[i], #[trigger] s[j])
}

pub open spec fn pair_views(s: Seq<(String, String)>) -> Seq<(Seq<char>, Seq<char>)> {
    s.map_values(|p: (String, String)| (p.0@, p.1@))
}

proof fn lemma_pair_order(p: (Seq<char>, Seq<char>), q: (Seq<char>, Seq<char>), r: (Seq<char>, Seq<char>))
    ensures
        !pair_lt(p, p),
        pair_lt(p, q) && pair_lt(q, r) ==> pair_lt(p, r),
        p == q || pair_lt(p, q) || pair_lt(q, p),
{
    lemma_lex_irreflexive(p.0);
    lemma_lex_irreflexive(p.1);
    if lex_lt(p.0, q.0) && lex_lt(q.0, r.0) {
        lemma_lex_transitive(p.0, q.0, r.0);
    }
    if p.0 == q.0 && q.0 == r.0 && lex_lt(p.1, q.1) && lex_lt(q.1, r.1) {
        lemma_lex_transitive(p.1, q.1, r.1);
    }
    lemma_lex_total(p.0, q.0);
    lemma_lex_total(p.1, q.1);
}

fn pair_before(p: &(String, String), q: &(String, String)) -> (r: bool)
    ensures
        r == pair_lt((p.0@, p.1@), (q.0@, q.1@)),
{
    str_lt(p.0.as_str(), q.0.as_str()) || (p.0 == q.0 && str_lt(p.1.as_str(), q.1.as_str()))
}

proof fn lemma_insert_to_set<A>(s: Seq<A>, k: int, x: A)
    requires
        0 <= k <= s.len(),
    ensures
        s.insert(k, x).to_set() == s.to_set().insert(x),
{
    let t = s.insert(k, x);
    assert forall|y: A| t.contains(y) <==> s.contains(y) || y == x by {
        if t.contains(y) {
            let i = choose|i: int| 0 <= i < t.len() && t[i] == y;
            if i < k {
                assert(s[i] == y);
            } else if i > k {
                assert(s[i - 1] == y);
            }
        }
        if s.contains(y) {
            let i = choose|i: int| 0 <= i < s.len() && s[i] == y;
            if i < k {
                assert(t[i] == y);
            } else {
                assert(t[i + 1] == y);
            }
        }
        if y == x {
            assert(t[k] == x);
        }
    }
    assert(t.to_set() =~= s.to_set().insert(x));
}

/// The artifacts in increasing order with duplicates dropped.
fn sort_dedup(found: Vec<(String, String)>) -> (r: Vec<(String, String)>)
    ensures
        strictly_sorted(pair_views(r@)),
        pair_views(r@).to_set() == pair_views(found@).to_set(),
{
    let mut out: Vec<(String, String)> = Vec::new();
    let mut i: usize = 0;
    while i < found.len()
        invariant
            i <= found@.len(),
            strictly_sorted(pair_views(out@)),
            pair_views(out@).to_set() == pair_views(found@.take(i as int)).to_set(),
        decreases found@.len() - i,
    {
        let x = (found[i].0.clone(), found[i].1.clone());
        let ghost xv = (x.0@, x.1@);
        let ghost before = pair_views(out@);
        let mut k: usize = 0;
        while k < out.len() && pair_before(&out[k], &x)
            invariant
                k <= out@.len(),
                before == pair_views(out@),
                xv == (x.0@, x.1@),
                forall|j: int| 0 <= j < k ==> pair_lt(#[trigger] before[j], xv),
            decreases out@.len() - k,
        {
            k = k + 1;
        }
        let present = k < out.len() && out[k].0 == x.0 && out[k].1 == x.1;
        if !present {
            out.insert(k, x);
            proof {
                let after = pair_views(out@);
                assert(after =~= before.insert(k as int, xv));
                assert forall|a: int, b: int| 0 <= a < b < after.len() implies pair_lt(
                    #[trigger] after[a],
                    #[trigger] after[b],
                ) by {
                    if k < before.len() {
                        lemma_pair_order(xv, before[k as int], xv);
                    }
                    if a < k && b == k {
                    } else if a < k && b > k {
                        lemma_pair_order(before[a], xv, before[b - 1]);
                        if k < before.len() {
                            lemma_pair_order(xv, before[k as int], before[b - 1]);
                        }
                    } else if a == k && b > k {
                        lemma_pair_order(xv, before[k as int], before[b - 1]);
                    }
                }
                lemma_insert_to_set(before, k as int, xv);
            }
        } else {
            proof {
                assert(before[k as int] == xv);
                assert(before.to_set().contains(xv));
                assert(before.to_set().insert(xv) =~= before.to_set());
            }
        }
        proof {
            assert(pair_views(found@.take(i + 1)) =~= pair_views(found@.take(i as int)).push(xv));
            pair_views(found@.take(i as int)).lemma_push_to_set_commute(xv);
        }
        i = i + 1;
    }
    assert(found@.take(found@.len() as int) =~= found@);
    out
}

/// Which directory a package ships in: the `dist-group` of its metadata,
/// which must be `core` or `levels`.
pub fn dist_group<'a>(package: &'a PackageMetadata, package_name: &str) -> (r: Result<&'a str, String>)
    ensures
        match r {
            Ok(g) => spec_dist_group(opt_view(package.dist_group), package_name@) == Ok::<Seq<char>, Seq<char>>(g@),
            Err(e) => spec_dist_group(opt_view(package.dist_group), package_name@) == Err::<Seq<char>, Seq<char>>(e@),
        },
{
    match &package.dist_group {
        None => {
            let mut e = String::from_str("extension package ");
            e.append(package_name);
            e.append(" has no dist-group");
            Err(e)
        },
        Some(g) => {
            let group = g.as_str();
            if str_eq(group, "core") || str_eq(group, "levels") {
                Ok(group)
            } else {
                let mut e = String::from_str("extension package ");
                e.append(package_name);
                e.append(" has unknown dist-group ");
                e.append(group);
                Err(e)
            }
        },
    }
}

fn lists_cdylib_exec(kinds: &Vec<Option<String>>) -> (r: bool)
    ensures
        r == lists_cdylib(kinds_view(kinds@)),
{
    let ghost kv = kinds_view(kinds@);
    let mut i: usize = 0;
    while i < kinds.len()
        invariant
            i <= kinds@.len(),
            kv == kinds_view(kinds@),
            forall|j: int| 0 <= j < i ==> !#[trigger] is_cdylib(kv[j]),
        decreases kinds@.len() - i,
    {
        match &kinds[i] {
            Some(k) => {
                if str_eq(k.as_str(), "cdylib") {
                    assert(is_cdylib(kv[i as int]));
                    return true;
                }
            },
            None => {},
        }
        i = i + 1;
    }
    false
}

fn is_member_exec(members: &Vec<String>, id: &String) -> (r: bool)
    ensures
        r == is_member(members_view(members@), id@),
{
    let mut i: usize = 0;
    while i < members.len()
        invariant
            i <= members@.len(),
            forall|j: int| 0 <= j < i ==> members@[j]@ != id@,
        decreases members@.len() - i,
    {
        if members[i] == *id {
            assert(members_view(members@)[i as int] == id@);
            return true;
        }
        i = i + 1;
    }
    false
}

proof fn lemma_target_error_sticks(
    group: Option<Seq<char>>,
    package_name: Seq<char>,
    targets: Seq<TargetReport>,
    i: nat,
    n: nat,
)
    requires
        i <= n,
        target_walk(group, package_name, targets, i) is Err,
    ensures
        target_walk(group, package_name, targets, n) == target_walk(group, package_name, targets, i),
    decreases n - i,
{
    if i < n {
        lemma_target_error_sticks(group, package_name, targets, i, (n - 1) as nat);
    }
}

proof fn lemma_package_error_sticks(members: Seq<Seq<char>>, packages: Seq<PackageReport>, i: nat, n: nat)
    requires
        i <= n,
        package_walk(members, packages, i) is Err,
    ensures
        package_walk(members, packages, n) == package_walk(members, packages, i),
    decreases n - i,
{
    if i < n {
        lemma_package_error_sticks(members, packages, i, (n - 1) as nat);
    }
}

/// Appends the artifacts of one package's targets to `found`.
fn package_artifacts(
    package: &PackageMetadata,
    package_name: &String,
    targets: &Vec<TargetMetadata>,
    found: &mut Vec<(String, String)>,
) -> (r: Result<(), String>)
    ensures
        match target_walk(opt_view(package.dist_group), package_name@, targets_view(targets@), targets@.len()) {
            Ok(more) => r is Ok && pair_views(final(found)@) == pair_views(old(found)@) + more,
            Err(e) => r matches Err(m) && m@ == e,
        },
{
    let ghost start = pair_views(found@);
    let mut j: usize = 0;
    while j < targets.len()
        invariant
            j <= targets@.len(),
            target_walk(opt_view(package.dist_group), package_name@, targets_view(targets@), j as nat) matches Ok(acc)
                && pair_views(found@) == start + acc,
        decreases targets@.len() - j,
    {
        let ghost acc = target_walk(opt_view(package.dist_group), package_name@, targets_view(targets@), j as nat)->Ok_0;
        let t = &targets[j];
        let kinds = match &t.crate_types {
            Some(k) => k,
            None => {
                proof {
                    lemma_target_error_sticks(opt_view(package.dist_group), package_name@, targets_view(targets@), (j + 1) as nat, targets@.len());
                }
                return Err(String::from_str("cargo metadata target omitted crate_types"));
            },
        };
        if lists_cdylib_exec(kinds) {
            let g = match dist_group(package, package_name.as_str()) {
                Ok(g) => g,
                Err(e) => {
                    proof {
                        lemma_target_error_sticks(opt_view(package.dist_group), package_name@, targets_view(targets@), (j + 1) as nat, targets@.len());
                    }
                    return Err(e);
                },
            };
            let name = match &t.name {
                Some(n) => n,
                None => {
                    proof {
                        lemma_target_error_sticks(opt_view(package.dist_group), package_name@, targets_view(targets@), (j + 1) as nat, targets@.len());
                    }
                    return Err(String::from_str("cargo metadata target omitted name"));
                },
            };
            let mut file = name.clone();
            file.append(".wasm");
            let entry = (String::from_str(g), file);
            let ghost before = found@;
            found.push(entry);
            proof {
                assert(pair_views(found@) =~= pair_views(before).push((entry.0@, entry.1@)));
                assert(pair_views(found@) =~= start + acc.push((entry.0@, entry.1@)));
            }
        }
        j = j + 1;
    }
    Ok(())
}

/// The artifacts a distribution ships: for every `cdylib` target of a
/// workspace package, its group directory and `<name>.wasm`, in increasing
/// order without repeats. Errors name the first omission met, a package's
/// bad group, or a workspace without any `cdylib` target.
pub fn extension_artifacts(metadata: &WorkspaceMetadata) -> (r: Result<Vec<(String, String)>, String>)
    ensures
        artifacts_outcome(metadata.report(), r),
{
    let members = match &metadata.workspace_members {
        Some(m) => m,
        None => {
            return Err(String::from_str("cargo metadata omitted workspace_members"));
        },
    };
    let packages = match &metadata.packages {
        Some(p) => p,
        None => {
            return Err(String::from_str("cargo metadata omitted packages"));
        },
    };
    let mut found: Vec<(String, String)> = Vec::new();
    let mut i: usize = 0;
    while i < packages.len()
        invariant
            i <= packages@.len(),
            metadata.workspace_members == Some(*members),
            metadata.packages == Some(*packages),
            package_walk(members_view(members@), packages_view(packages@), i as nat) matches Ok(acc) && pair_views(found@) == acc,
        decreases packages@.len() - i,
    {
        let ghost acc = package_walk(members_view(members@), packages_view(packages@), i as nat)->Ok_0;
        let p = &packages[i];
        if is_member_exec(members, &p.id) {
            let name = match &p.name {
                Some(n) => n,
                None => {
                    proof {
                        lemma_package_error_sticks(members_view(members@), packages_view(packages@), (i + 1) as nat, packages@.len());
                    }
                    return Err(String::from_str("cargo metadata package omitted name"));
                },
            };
            let targets = match &p.targets {
                Some(t) => t,
                None => {
                    proof {
                        lemma_package_error_sticks(members_view(members@), packages_view(packages@), (i + 1) as nat, packages@.len());
                    }
                    return Err(String::from_str("cargo metadata package omitted targets"));
                },
            };
            match package_artifacts(p, name, targets, &mut found) {
                Ok(()) => {},
                Err(e) => {
                    proof {
                        lemma_package_error_sticks(members_view(members@), packages_view(packages@), (i + 1) as nat, packages@.len());
                    }
                    return Err(e);
                },
            }
        }
        i = i + 1;
    }
    let sorted = sort_dedup(found);
    if sorted.len() == 0 {
        proof {
            assert(pair_views(sorted@).len() == 0);
            if pair_views(found@).len() > 0 {
                assert(pair_views(found@).to_set().contains(pair_views(found@)[0]));
                assert(pair_views(sorted@).to_set().len() == 0) by {
                    assert(pair_views(sorted@).to_set() =~= Set::empty());
                }
            }
        }
        return Err(String::from_str("extension workspace contains no cdylib targets"));
    }
    proof {
        let x = pair_views(sorted@)[0];
        assert(pair_views(sorted@).contains(x));
        assert(pair_views(found@).to_set().contains(x));
        assert(pair_views(found@).len() > 0);
    }
    Ok(sorted)
}

/// Whether target `t` of a package named `name` with metadata group `group`
/// ships artifact `x`: it is a `cdylib` target with a name, `x` is the
/// package's group directory and `<name>.wasm`.
pub open spec fn target_ships(group: Option<Seq<char>>, name: Seq<char>, t: TargetReport, x: (Seq<char>, Seq<char>)) -> bool {
    &&& t.crate_types is Some && lists_cdylib(t.crate_types->Some_0)
    &&& spec_dist_group(group, name) == Ok::<Seq<char>, Seq<char>>(x.0)
    &&& t.name is Some && x.1 == t.name->Some_0 + ".wasm"@
}

/// Whether package `p` ships artifact `x`: it is a workspace member with a
/// name, and one of its targets ships `x`.
pub open spec fn package_ships(members: Seq<Seq<char>>, p: PackageReport, x: (Seq<char>, Seq<char>)) -> bool {
    &&& is_member(members, p.id)
    &&& p.name is Some && p.targets is Some
    &&& exists|j: int| 0 <= j < p.targets->Some_0.len() && #[trigger] target_ships(p.dist_group, p.name->Some_0, p.targets->Some_0[j], x)
}

/// Whether some package of the report ships artifact `x`.
pub open spec fn ships(meta: WorkspaceReport, x: (Seq<char>, Seq<char>)) -> bool {
    &&& meta.workspace_members is Some && meta.packages is Some
    &&& exists|i: int| 0 <= i < meta.packages->Some_0.len()
        && #[trigger] package_ships(meta.workspace_members->Some_0, meta.packages->Some_0[i], x)
}

proof fn lemma_target_walk_ships(group: Option<Seq<char>>, name: Seq<char>, targets: Seq<TargetReport>, n: nat)
    requires
        n <= targets.len(),
        target_walk(group, name, targets, n) is Ok,
    ensures
        forall|x: (Seq<char>, Seq<char>)| #[trigger] target_walk(group, name, targets, n)->Ok_0.contains(x) <==> exists|j: int|
            0 <= j < n && #[trigger] target_ships(group, name, targets[j], x),
    decreases n,
{
    if n > 0 {
        let m = (n - 1) as nat;
        lemma_target_walk_ships(group, name, targets, m);
        let before = target_walk(group, name, targets, m)->Ok_0;
        let after = target_walk(group, name, targets, n)->Ok_0;
        let t = targets[m as int];
        let adds = t.crate_types is Some && lists_cdylib(t.crate_types->Some_0);
        let item = (spec_dist_group(group, name)->Ok_0, t.name->Some_0 + ".wasm"@);
        if adds {
            assert(after == before.push(item));
        } else {
            assert(after == before);
        }
        assert forall|x: (Seq<char>, Seq<char>)| after.contains(x) <==> exists|j: int|
            0 <= j < n && #[trigger] target_ships(group, name, targets[j], x) by {
            if after.contains(x) {
                let k = choose|k: int| 0 <= k < after.len() && after[k] == x;
                if k < before.len() {
                    assert(before[k] == x);
                    assert(before.contains(x));
                    let j = choose|j: int| 0 <= j < m && #[trigger] target_ships(group, name, targets[j], x);
                    assert(0 <= j < n && target_ships(group, name, targets[j], x));
                } else {
                    assert(adds && x == item);
                    assert(target_ships(group, name, targets[m as int], x));
                }
            }
            if exists|j: int| 0 <= j < n && #[trigger] target_ships(group, name, targets[j], x) {
                let j = choose|j: int| 0 <= j < n && #[trigger] target_ships(group, name, targets[j], x);
                if j < m {
                    assert(before.contains(x));
                    let k = choose|k: int| 0 <= k < before.len() && before[k] == x;
                    assert(after[k] == x);
                } else {
                    assert(adds && x == item);
                    assert(after[before.len() as int] == x);
                }
            }
        }
    }
}

proof fn lemma_package_walk_ships(members: Seq<Seq<char>>, packages: Seq<PackageReport>, n: nat)
    requires
        n <= packages.len(),
        package_walk(members, packages, n) is Ok,
    ensures
        forall|x: (Seq<char>, Seq<char>)| #[trigger] package_walk(members, packages, n)->Ok_0.contains(x) <==> exists|i: int|
            0 <= i < n && #[trigger] package_ships(members, packages[i], x),
    decreases n,
{
    if n > 0 {
        let m = (n - 1) as nat;
        lemma_package_walk_ships(members, packages, m);
        let before = package_walk(members, packages, m)->Ok_0;
        let after = package_walk(members, packages, n)->Ok_0;
        let p = packages[m as int];
        let member = is_member(members, p.id);
        let ts = p.targets->Some_0;
        let more = target_walk(p.dist_group, p.name->Some_0, ts, ts.len())->Ok_0;
        if member {
            lemma_target_walk_ships(p.dist_group, p.name->Some_0, ts, ts.len());
            assert(after == before + more);
        } else {
            assert(after == before);
        }
        assert forall|x: (Seq<char>, Seq<char>)| after.contains(x) <==> exists|i: int|
            0 <= i < n && #[trigger] package_ships(members, packages[i], x) by {
            if after.contains(x) {
                let k = choose|k: int| 0 <= k < after.len() && after[k] == x;
                if k < before.len() {
                    assert(before[k] == x);
                    assert(before.contains(x));
                    let i = choose|i: int| 0 <= i < m && #[trigger] package_ships(members, packages[i], x);
                    assert(0 <= i < n && package_ships(members, packages[i], x));
                } else {
                    assert(member);
                    assert(more[k - before.len()] == x);
                    assert(more.contains(x));
                    let j = choose|j: int| 0 <= j < ts.len() && #[trigger] target_ships(p.dist_group, p.name->Some_0, ts[j], x);
                    assert(package_ships(members, p, x));
                    assert(0 <= m < n && package_ships(members, packages[m as int], x));
                }
            }
            if exists|i: int| 0 <= i < n && #[trigger] package_ships(members, packages[i], x) {
                let i = choose|i: int| 0 <= i < n && #[trigger] package_ships(members, packages[i], x);
                if i < m {
                    assert(before.contains(x));
                    let k = choose|k: int| 0 <= k < before.len() && before[k] == x;
                    assert(after[k] == x);
                } else {
                    assert(package_ships(members, p, x));
                    let j = choose|j: int| 0 <= j < ts.len() && #[trigger] target_ships(p.dist_group, p.name->Some_0, ts[j], x);
                    assert(more.contains(x));
                    let k = choose|k: int| 0 <= k < more.len() && more[k] == x;
                    assert(after[before.len() + k] == x);
                }
            }
        }
    }
}

/// A distribution ships, in increasing order and none twice, exactly the
/// group directory and `<name>.wasm` of each `cdylib` target of each
/// workspace member package: packages outside the workspace and targets of
/// other crate types add nothing.
pub proof fn lemma_shipped_artifacts_are_the_member_cdylibs(
    meta: WorkspaceReport,
    r: Result<Vec<(String, String)>, String>,
)
    requires
        artifacts_outcome(meta, r),
        r is Ok,
    ensures
        strictly_sorted(pair_views(r->Ok_0@)),
        forall|x: (Seq<char>, Seq<char>)| #[trigger] pair_views(r->Ok_0@).contains(x) <==> ships(meta, x),
{
    let members = meta.workspace_members->Some_0;
    let packages = meta.packages->Some_0;
    let all = collected(meta)->Ok_0;
    lemma_package_walk_ships(members, packages, packages.len());
    let v = pair_views(r->Ok_0@);
    assert forall|x: (Seq<char>, Seq<char>)| #[trigger] v.contains(x) <==> ships(meta, x) by {
        assert(v.contains(x) <==> v.to_set().contains(x));
        assert(all.contains(x) <==> all.to_set().contains(x));
    }
}

/// Whether a target is a `cdylib` target.
pub open spec fn cdylib_target(t: TargetReport) -> bool {
    t.crate_types is Some && lists_cdylib(t.crate_types->Some_0)
}

/// Whether every target read from the report has its crate types, and
/// every `cdylib` one its name.
pub open spec fn targets_complete(ts: Seq<TargetReport>) -> bool {
    forall|j: int| 0 <= j < ts.len() ==> (#[trigger] ts[j]).crate_types is Some && (cdylib_target(ts[j]) ==> ts[j].name is Some)
}

/// Whether a package has a `cdylib` target.
pub open spec fn has_cdylib(p: PackageReport) -> bool {
    p.targets is Some && exists|j: int| 0 <= j < p.targets->Some_0.len() && #[trigger] cdylib_target(p.targets->Some_0[j])
}

/// Whether the report gives every field the walk reads: the members, the
/// packages, and for each member package its name and complete targets.
pub open spec fn report_complete(meta: WorkspaceReport) -> bool {
    &&& meta.workspace_members is Some && meta.packages is Some
    &&& forall|i: int| 0 <= i < meta.packages->Some_0.len() && is_member(meta.workspace_members->Some_0, (#[trigger] meta.packages->Some_0[i]).id)
        ==> meta.packages->Some_0[i].name is Some && meta.packages->Some_0[i].targets is Some
            && targets_complete(meta.packages->Some_0[i].targets->Some_0)
}

/// Whether each member package with a `cdylib` target names a good group.
pub open spec fn groups_valid(meta: WorkspaceReport) -> bool {
    forall|i: int| 0 <= i < meta.packages->Some_0.len() && is_member(meta.workspace_members->Some_0, (#[trigger] meta.packages->Some_0[i]).id)
        && has_cdylib(meta.packages->Some_0[i]) ==> spec_dist_group(meta.packages->Some_0[i].dist_group, meta.packages->Some_0[i].name->Some_0) is Ok
}

/// Whether some member package has a `cdylib` target.
pub open spec fn some_member_cdylib(meta: WorkspaceReport) -> bool {
    exists|i: int| 0 <= i < meta.packages->Some_0.len() && is_member(meta.workspace_members->Some_0, (#[trigger] meta.packages->Some_0[i]).id)
        && has_cdylib(meta.packages->Some_0[i])
}

proof fn lemma_target_walk_complete(group: Option<Seq<char>>, name: Seq<char>, ts: Seq<TargetReport>, n: nat)
    requires
        n <= ts.len(),
        targets_complete(ts),
    ensures
        target_walk(group, name, ts, n) is Ok <==> (spec_dist_group(group, name) is Ok || forall|j: int| 0 <= j < n ==> !#[trigger] cdylib_target(ts[j])),
        target_walk(group, name, ts, n) is Ok ==> (target_walk(group, name, ts, n)->Ok_0.len() > 0 <==> exists|j: int| 0 <= j < n && #[trigger] cdylib_target(ts[j])),
    decreases n,
{
    if n > 0 {
        let m = (n - 1) as nat;
        lemma_target_walk_complete(group, name, ts, m);
        let t = ts[m as int];
        assert(t.crate_types is Some && (cdylib_target(t) ==> t.name is Some));
        if cdylib_target(t) {
            assert(exists|j: int| 0 <= j < n && #[trigger] cdylib_target(ts[j]));
        } else if target_walk(group, name, ts, m) is Ok {
            assert forall|j: int| 0 <= j < n && #[trigger] cdylib_target(ts[j]) implies j < m by {}
        }
    }
}

proof fn lemma_package_walk_complete(meta: WorkspaceReport, n: nat)
    requires
        report_complete(meta),
        n <= meta.packages->Some_0.len(),
    ensures
        ({
            let members = meta.workspace_members->Some_0;
            let packages = meta.packages->Some_0;
            let walk = package_walk(members, packages, n);
            &&& walk is Ok <==> forall|i: int| 0 <= i < n && is_member(members, (#[trigger] packages[i]).id) && has_cdylib(packages[i])
                ==> spec_dist_group(packages[i].dist_group, packages[i].name->Some_0) is Ok
            &&& walk is Ok ==> (walk->Ok_0.len() > 0 <==> exists|i: int| 0 <= i < n && is_member(members, (#[trigger] packages[i]).id)
                && has_cdylib(packages[i]))
        }),
    decreases n,
{
    let members = meta.workspace_members->Some_0;
    let packages = meta.packages->Some_0;
    if n > 0 {
        let m = (n - 1) as nat;
        lemma_package_walk_complete(meta, m);
        let p = packages[m as int];
        if is_member(members, p.id) {
            let ts = p.targets->Some_0;
            lemma_target_walk_complete(p.dist_group, p.name->Some_0, ts, ts.len());
            if has_cdylib(p) {
                let j = choose|j: int| 0 <= j < ts.len() && #[trigger] cdylib_target(ts[j]);
                assert(!(forall|j: int| 0 <= j < ts.len() ==> !#[trigger] cdylib_target(ts[j])));
            } else {
                assert forall|j: int| 0 <= j < ts.len() implies !#[trigger] cdylib_target(ts[j]) by {
                    if cdylib_target(ts[j]) {
                        assert(has_cdylib(p));
                    }
                }
            }
        }
        let pred_n = forall|i: int| 0 <= i < n && is_member(members, (#[trigger] packages[i]).id) && has_cdylib(packages[i])
            ==> spec_dist_group(packages[i].dist_group, packages[i].name->Some_0) is Ok;
        let pred_m = forall|i: int| 0 <= i < m && is_member(members, (#[trigger] packages[i]).id) && has_cdylib(packages[i])
            ==> spec_dist_group(packages[i].dist_group, packages[i].name->Some_0) is Ok;
        if pred_n {
            assert(pred_m);
        }
        if !pred_m {
            let i = choose|i: int| !(0 <= i < m && is_member(members, (#[trigger] packages[i]).id) && has_cdylib(packages[i])
                ==> spec_dist_group(packages[i].dist_group, packages[i].name->Some_0) is Ok);
            assert(!pred_n);
        }
        if package_walk(members, packages, n) is Ok {
            let ex_n = exists|i: int| 0 <= i < n && is_member(members, (#[trigger] packages[i]).id) && has_cdylib(packages[i]);
            let ex_m = exists|i: int| 0 <= i < m && is_member(members, (#[trigger] packages[i]).id) && has_cdylib(packages[i]);
            if ex_n && !ex_m {
                let i = choose|i: int| 0 <= i < n && is_member(members, (#[trigger] packages[i]).id) && has_cdylib(packages[i]);
                assert(i == m);
            }
            if ex_m {
                let i = choose|i: int| 0 <= i < m && is_member(members, (#[trigger] packages[i]).id) && has_cdylib(packages[i]);
                assert(0 <= i < n && is_member(members, packages[i].id) && has_cdylib(packages[i]));
            }
        }
    }
}

/// Where the report gives every field the walk reads, a distribution is
/// made exactly when some workspace member package has a `cdylib` target
/// and every such package names a good group.
pub proof fn lemma_distribution_made_exactly_for_good_groups(
    meta: WorkspaceReport,
    r: Result<Vec<(String, String)>, String>,
)
    requires
        report_complete(meta),
        artifacts_outcome(meta, r),
    ensures
        r is Ok <==> groups_valid(meta) && some_member_cdylib(meta),
{
    let packages = meta.packages->Some_0;
    lemma_package_walk_complete(meta, packages.len());
}

/// One level of a JSON document: a string, the texts of an array's items,
/// the fields of an object with the text of each value, or anything else.
pub enum JsonNode {
    Text(String),
    Items(Vec<String>),
    Fields(Vec<(String, String)>),
    Other,
}

/// A level of a JSON document, with its texts as characters.
pub enum NodeView {
    Text(Seq<char>),
    Items(Seq<Seq<char>>),
    Fields(Seq<(Seq<char>, Seq<char>)>),
    Other,
}

pub open spec fn texts_view(texts: Seq<String>) -> Seq<Seq<char>> {
    texts.map_values(|t: String| t@)
}

pub open spec fn fields_view(fields: Seq<(String, String)>) -> Seq<(Seq<char>, Seq<char>)> {
    fields.map_values(|f: (String, String)| (f.0@, f.1@))
}

impl View for JsonNode {
    type V = NodeView;

    open spec fn view(&self) -> NodeView {
        match self {
            JsonNode::Text(s) => NodeView::Text(s@),
            JsonNode::Items(items) => NodeView::Items(texts_view(items@)),
            JsonNode::Fields(fields) => NodeView::Fields(fields_view(fields@)),
            JsonNode::Other => NodeView::Other,
        }
    }
}

pub open spec fn node_result(r: Result<JsonNode, String>) -> Result<NodeView, Seq<char>> {
    match r {
        Ok(n) => Ok(n@),
        Err(e) => Err(e@),
    }
}

/// What `serde_json` reads from a JSON text at its top level, or the text of
/// its parse error.
pub uninterp spec fn spec_json_node(json: Seq<u8>) -> Result<NodeView, Seq<char>>;

/// Parses `json` with `serde_json::from_slice` into a `serde_json::Value`
/// and hands out its top level: a string as itself, an array as the JSON
/// text (`Value::to_string`) of each item, an object as each key with the
/// JSON text of its value, in the order the map yields them; a parse error
/// as its message. The contract claims only that the result is a function
/// of the bytes, named `spec_json_node`; what that function is on given
/// bytes is serde_json's parser and printer, and is not stated.
#[verifier::external_body]
fn parse_json_node(json: &[u8]) -> (r: Result<JsonNode, String>)
    ensures
        spec_json_node(json@) == node_result(r),
{
    let v: Value = serde_json::from_slice(json).map_err(|e| e.to_string())?;
    Ok(match v {
        Value::String(s) => JsonNode::Text(s),
        Value::Array(a) => JsonNode::Items(a.iter().map(Value::to_string).collect()),
        Value::Object(o) => JsonNode::Fields(o.iter().map(|(k, x)| (k.clone(), x.to_string())).collect()),
        _ => JsonNode::Other,
    })
}

/// The text of the first field named `key` among the first `n` fields.
pub open spec fn field_in(fields: Seq<(Seq<char>, Seq<char>)>, key: Seq<char>, n: nat) -> Option<Seq<char>>
    decreases n,
{
    if n == 0 {
        None
    } else {
        match field_in(fields, key, (n - 1) as nat) {
            Some(t) => Some(t),
            None => if fields[n - 1].0 == key {
                Some(fields[n - 1].1)
            } else {
                None
            },
        }
    }
}

/// The node a JSON text holds; an absent value reads as null.
pub open spec fn text_node(text: Option<Seq<char>>) -> Result<NodeView, Seq<char>> {
    match text {
        None => Ok(NodeView::Other),
        Some(t) => spec_json_node(encode_utf8(t)),
    }
}

/// The text of field `key` of an object node; nothing for any other node.
pub open spec fn node_member(n: Result<NodeView, Seq<char>>, key: Seq<char>) -> Option<Seq<char>> {
    match n {
        Ok(NodeView::Fields(f)) => field_in(f, key, f.len()),
        _ => None,
    }
}

/// The string a node is, if it is one.
pub open spec fn node_str(n: Result<NodeView, Seq<char>>) -> Option<Seq<char>> {
    match n {
        Ok(NodeView::Text(s)) => Some(s),
        _ => None,
    }
}

/// The item texts of an array node, if it is one.
pub open spec fn node_items(n: Result<NodeView, Seq<char>>) -> Option<Seq<Seq<char>>> {
    match n {
        Ok(NodeView::Items(items)) => Some(items),
        _ => None,
    }
}

/// The string held by field `key` of the object a text holds.
pub open spec fn member_str(text: Seq<char>, key: Seq<char>) -> Option<Seq<char>> {
    node_str(text_node(node_member(text_node(Some(text)), key)))
}

pub open spec fn kind_of(text: Seq<char>) -> Option<Seq<char>> {
    node_str(text_node(Some(text)))
}

/// A target as its JSON text describes it.
pub open spec fn json_target(text: Seq<char>) -> TargetReport {
    TargetReport {
        name: member_str(text, "name"@),
        crate_types: match node_items(text_node(node_member(text_node(Some(text)), "crate_types"@))) {
            Some(kinds) => Some(kinds.map_values(|k: Seq<char>| kind_of(k))),
            None => None,
        },
    }
}

/// The `dist-group` of a package's `artificial-will` metadata.
pub open spec fn json_group(text: Seq<char>) -> Option<Seq<char>> {
    let metadata = node_member(text_node(Some(text)), "metadata"@);
    let ours = node_member(text_node(metadata), "artificial-will"@);
    node_str(text_node(node_member(text_node(ours), "dist-group"@)))
}

/// A package as its JSON text describes it; an absent id reads as `null`.
pub open spec fn json_package(text: Seq<char>) -> PackageReport {
    PackageReport {
        id: match node_member(text_node(Some(text)), "id"@) {
            Some(id) => id,
            None => "null"@,
        },
        name: member_str(text, "name"@),
        dist_group: json_group(text),
        targets: match node_items(text_node(node_member(text_node(Some(text)), "targets"@))) {
            Some(ts) => Some(ts.map_values(|t: Seq<char>| json_target(t))),
            None => None,
        },
    }
}

/// The workspace report a parsed `cargo metadata` document holds.
pub open spec fn json_workspace(top: Result<NodeView, Seq<char>>) -> WorkspaceReport {
    WorkspaceReport {
        workspace_members: node_items(text_node(node_member(top, "workspace_members"@))),
        packages: match node_items(text_node(node_member(top, "packages"@))) {
            Some(ps) => Some(ps.map_values(|p: Seq<char>| json_package(p))),
            None => None,
        },
    }
}

/// The node a JSON text holds; an absent value reads as null.
fn node_of(text: &Option<String>) -> (r: Result<JsonNode, String>)
    ensures
        node_result(r) == text_node(opt_view(*text)),
{
    match text {
        None => Ok(JsonNode::Other),
        Some(t) => parse_json_node(t.as_str().as_bytes()),
    }
}

/// The text of the first field named `key`.
fn find_field(fields: &Vec<(String, String)>, key: &str) -> (r: Option<String>)
    ensures
        opt_view(r) == field_in(fields_view(fields@), key@, fields@.len() as nat),
{
    let ghost view = fields_view(fields@);
    let mut found: Option<String> = None;
    let mut i: usize = 0;
    while i < fields.len()
        invariant
            i <= fields@.len(),
            view == fields_view(fields@),
            opt_view(found) == field_in(view, key@, i as nat),
        decreases fields@.len() - i,
    {
        if found.is_none() && str_eq(fields[i].0.as_str(), key) {
            found = Some(fields[i].1.clone());
        }
        i = i + 1;
    }
    found
}

/// The text of field `key` of an object node.
fn member_of(n: &Result<JsonNode, String>, key: &str) -> (r: Option<String>)
    ensures
        opt_view(r) == node_member(node_result(*n), key@),
{
    match n {
        Ok(JsonNode::Fields(f)) => find_field(f, key),
        _ => None,
    }
}

/// The string a node is, if it is one.
fn str_of(n: Result<JsonNode, String>) -> (r: Option<String>)
    ensures
        opt_view(r) == node_str(node_result(n)),
{
    match n {
        Ok(JsonNode::Text(s)) => Some(s),
        _ => None,
    }
}

/// The item texts of an array node, if it is one.
fn items_of(n: Result<JsonNode, String>) -> (r: Option<Vec<String>>)
    ensures
        match r {
            Some(items) => node_items(node_result(n)) == Some(texts_view(items@)),
            None => node_items(node_result(n)) is None,
        },
{
    match n {
        Ok(JsonNode::Items(items)) => Some(items),
        _ => None,
    }
}

/// The string held by field `key` of the object a text holds.
fn member_str_of(text: &String, key: &str) -> (r: Option<String>)
    ensures
        opt_view(r) == member_str(text@, key@),
{
    let node = node_of(&Some(text.clone()));
    str_of(node_of(&member_of(&node, key)))
}

/// A target as its JSON text describes it.
fn target_of(text: &String) -> (r: TargetMetadata)
    ensures
        target_report(r) == json_target(text@),
{
    let node = node_of(&Some(text.clone()));
    let crate_types = match items_of(node_of(&member_of(&node, "crate_types"))) {
        None => None,
        Some(kinds) => {
            let ghost texts = texts_view(kinds@);
            let mut out: Vec<Option<String>> = Vec::new();
            let mut i: usize = 0;
            while i < kinds.len()
                invariant
                    i <= kinds@.len(),
                    texts == texts_view(kinds@),
                    out@.len() == i,
                    forall|j: int| 0 <= j < i ==> opt_view(#[trigger] out@[j]) == kind_of(texts[j]),
                decreases kinds@.len() - i,
            {
                out.push(str_of(node_of(&Some(kinds[i].clone()))));
                i = i + 1;
            }
            proof {
                assert(kinds_view(out@) =~= texts.map_values(|k: Seq<char>| kind_of(k)));
            }
            Some(out)
        },
    };
    let name = member_str_of(text, "name");
    let r = TargetMetadata { name, crate_types };
    proof {
        let a = target_report(r);
        let b = json_target(text@);
        assert(a.name == b.name);
        assert(a.crate_types == b.crate_types);
    }
    r
}

/// A package as its JSON text describes it.
fn package_of(text: &String) -> (r: PackageMetadata)
    ensures
        package_report(r) == json_package(text@),
{
    let node = node_of(&Some(text.clone()));
    let id = match member_of(&node, "id") {
        Some(id) => id,
        None => String::from_str("null"),
    };
    let metadata = node_of(&member_of(&node, "metadata"));
    let ours = node_of(&member_of(&metadata, "artificial-will"));
    let dist_group = str_of(node_of(&member_of(&ours, "dist-group")));
    let targets = match items_of(node_of(&member_of(&node, "targets"))) {
        None => None,
        Some(ts) => {
            let ghost texts = texts_view(ts@);
            let mut out: Vec<TargetMetadata> = Vec::new();
            let mut i: usize = 0;
            while i < ts.len()
                invariant
                    i <= ts@.len(),
                    texts == texts_view(ts@),
                    out@.len() == i,
                    forall|j: int| 0 <= j < i ==> target_report(#[trigger] out@[j]) == json_target(texts[j]),
                decreases ts@.len() - i,
            {
                out.push(target_of(&ts[i]));
                i = i + 1;
            }
            proof {
                assert(targets_view(out@) =~= texts.map_values(|t: Seq<char>| json_target(t)));
            }
            Some(out)
        },
    };
    let name = member_str_of(text, "name");
    let r = PackageMetadata { id, name, dist_group, targets };
    proof {
        reveal_strlit("null");
        let a = package_report(r);
        let b = json_package(text@);
        assert(a.id == b.id);
        assert(a.name == b.name);
        assert(a.dist_group == b.dist_group);
        assert(a.targets == b.targets);
    }
    r
}

/// The workspace report a parsed `cargo metadata` document holds.
fn workspace_of(top: &Result<JsonNode, String>) -> (r: WorkspaceMetadata)
    ensures
        r.report() == json_workspace(node_result(*top)),
{
    let workspace_members = items_of(node_of(&member_of(top, "workspace_members")));
    let packages = match items_of(node_of(&member_of(top, "packages"))) {
        None => None,
        Some(ps) => {
            let ghost texts = texts_view(ps@);
            let mut out: Vec<PackageMetadata> = Vec::new();
            let mut i: usize = 0;
            while i < ps.len()
                invariant
                    i <= ps@.len(),
                    texts == texts_view(ps@),
                    out@.len() == i,
                    forall|j: int| 0 <= j < i ==> package_report(#[trigger] out@[j]) == json_package(texts[j]),
                decreases ps@.len() - i,
            {
                out.push(package_of(&ps[i]));
                i = i + 1;
            }
            proof {
                assert(packages_view(out@) =~= texts.map_values(|p: Seq<char>| json_package(p)));
            }
            Some(out)
        },
    };
    let r = WorkspaceMetadata { workspace_members, packages };
    proof {
        let a = r.report();
        let b = json_workspace(node_result(*top));
        if r.workspace_members is Some {
            let m = r.workspace_members->Some_0;
            assert(members_view(m@) =~= texts_view(m@));
        }
        assert(a.workspace_members == b.workspace_members);
        assert(a.packages == b.packages);
    }
    r
}

/// The artifacts a distribution ships, read from the JSON that `cargo
/// metadata --format-version 1 --no-deps` printed for the extension
/// workspace: a parse error is reported as such; otherwise the result is
/// that of [`extension_artifacts`] on the report the document holds.
pub fn extension_artifacts_from_json(json: &[u8]) -> (r: Result<Vec<(String, String)>, String>)
    ensures
        match spec_json_node(json@) {
            Err(e) => r matches Err(m) && m@ == "parsing metadata: "@ + e,
            Ok(_) => artifacts_outcome(json_workspace(spec_json_node(json@)), r),
        },
{
    let top = parse_json_node(json);
    match &top {
        Err(e) => {
            let mut m = String::from_str("parsing metadata: ");
            m.append(e.as_str());
            Err(m)
        },
        Ok(_) => {
            let metadata = workspace_of(&top);
            extension_artifacts(&metadata)
        },
    }
}

} // verus!
