//! The hierarchy of a manifest drawn as lines of a tree.

use vstd::prelude::*;
use crate::describe::description;
use crate::models::{NexusModel, PackageModel, WorkspaceModel};
use crate::text::views;

verus! {

/// A workspace with the packages it lists.
#[derive(Debug, Clone)]
pub struct WorkspaceTree {
    pub workspace: WorkspaceModel,
    pub packages: Vec<PackageModel>,
}

/// A manifest with what it lists, loaded.
#[derive(Debug, Clone)]
pub enum ManifestTree {
    Nexus { nexus: NexusModel, workspaces: Vec<WorkspaceTree>, packages: Vec<PackageModel> },
    Workspace(WorkspaceTree),
    Package(PackageModel),
}

/// The connector before the `i`th of `n` children.
pub open spec fn branch(last: bool) -> Seq<char> {
    if last { "└── "@ } else { "├── "@ }
}

/// The indentation under a child, by whether it was the last.
pub open spec fn pad(last: bool) -> Seq<char> {
    if last { "    "@ } else { "│   "@ }
}

/// `n` times two spaces.
pub open spec fn spaces(n: nat) -> Seq<char>
    decreases n,
{
    if n == 0 { Seq::empty() } else { spaces((n - 1) as nat) + "  "@ }
}

/// The line for one node.
pub open spec fn header(indent: Seq<char>, prefix: Seq<char>, kind: Seq<char>, name: Seq<char>, root: Seq<char>) -> Seq<char> {
    indent + prefix + kind + name + " ("@ + root + ")"@
}

/// The lines for the first `n` dependencies of a package.
pub open spec fn dependency_lines(p: PackageModel, indent: Seq<char>, n: int) -> Seq<Seq<char>>
    decreases n,
{
    if n <= 0 {
        Seq::empty()
    } else {
        let i = n - 1;
        let e = p.dependencies.entries@[i];
        dependency_lines(p, indent, i).push(
            indent + branch(i == p.dependencies.entries@.len() - 1) + " 📄"@ + e.0@ + " = "@ + description(e.1@),
        )
    }
}

/// The lines for a package and its dependencies.
pub open spec fn package_lines(p: PackageModel, indent: Seq<char>, prefix: Seq<char>, last: bool) -> Seq<Seq<char>> {
    seq![header(indent, prefix, " 📦 Package: "@, p.name@, p.root_path@)]
        + dependency_lines(p, indent + pad(last), p.dependencies.entries@.len() as int)
}

/// The lines for the first `n` packages of `pkgs`, as children.
pub open spec fn package_block(pkgs: Seq<PackageModel>, indent: Seq<char>, n: int) -> Seq<Seq<char>>
    decreases n,
{
    if n <= 0 {
        Seq::empty()
    } else {
        let i = n - 1;
        let last = i == pkgs.len() - 1;
        package_block(pkgs, indent, i) + package_lines(pkgs[i], indent, branch(last), last)
    }
}

/// The lines for a workspace and its packages.
pub open spec fn workspace_lines(w: WorkspaceTree, depth: nat, prefix: Seq<char>, last: bool) -> Seq<Seq<char>> {
    seq![header(spaces(depth), prefix, " 🏢 Workspace: "@, w.workspace.name@, w.workspace.root_path@)]
        + package_block(w.packages@, spaces(depth) + pad(last), w.packages@.len() as int)
}

/// The lines for the first `n` workspaces of `wss`, as children.
pub open spec fn workspace_block(wss: Seq<WorkspaceTree>, depth: nat, n: int) -> Seq<Seq<char>>
    decreases n,
{
    if n <= 0 {
        Seq::empty()
    } else {
        let i = n - 1;
        let last = i == wss.len() - 1;
        workspace_block(wss, depth, i) + workspace_lines(wss[i], depth, branch(last), last)
    }
}

/// The lines of the tree of `t`.
pub open spec fn tree_lines(t: ManifestTree) -> Seq<Seq<char>> {
    match t {
        ManifestTree::Nexus { nexus, workspaces, packages } => seq![header(Seq::empty(), Seq::empty(), " 🧲 Nexus: "@, nexus.name@, nexus.root_path@)]
            + workspace_block(workspaces@, 1, workspaces@.len() as int)
            + package_block(packages@, Seq::empty(), packages@.len() as int),
        ManifestTree::Workspace(w) => workspace_lines(w, 0, Seq::empty(), true),
        ManifestTree::Package(p) => package_lines(p, Seq::empty(), Seq::empty(), true),
    }
}

fn branch_text(last: bool) -> (r: &'static str)
    ensures
        r@ == branch(last),
{
    if last { "└── " } else { "├── " }
}

fn pad_text(last: bool) -> (r: &'static str)
    ensures
        r@ == pad(last),
{
    if last { "    " } else { "│   " }
}

fn header_text(indent: &String, prefix: &str, kind: &str, name: &String, root: &String) -> (r: String)
    ensures
        r@ == header(indent@, prefix@, kind@, name@, root@),
{
    let mut s = indent.clone();
    s.append(prefix);
    s.append(kind);
    s.append(name.as_str());
    s.append(" (");
    s.append(root.as_str());
    s.append(")");
    s
}

fn push_package(out: &mut Vec<String>, p: &PackageModel, indent: &String, prefix: &str, last: bool)
    ensures
        views(final(out)@) == views(old(out)@) + package_lines(*p, indent@, prefix@, last),
{
    let ghost start = views(out@);
    out.push(header_text(indent, prefix, " 📦 Package: ", &p.name, &p.root_path));
    let mut next = indent.clone();
    next.append(pad_text(last));
    let ghost first = views(out@);
    assert(first =~= start + seq![header(indent@, prefix@, " 📦 Package: "@, p.name@, p.root_path@)]);
    let n = p.dependencies.entries.len();
    let mut i: usize = 0;
    while i < n
        invariant
            n == p.dependencies.entries@.len(),
            i <= n,
            next@ == indent@ + pad(last),
            views(out@) == first + dependency_lines(*p, next@, i as int),
        decreases n - i,
    {
        let (name, dep) = &p.dependencies.entries[i];
        let mut line = next.clone();
        line.append(branch_text(i == n - 1));
        line.append(" 📄");
        line.append(name.as_str());
        line.append(" = ");
        let d = dep.describe();
        line.append(d.as_str());
        let ghost before = views(out@);
        out.push(line);
        assert(views(out@) =~= before.push(line@));
        i = i + 1;
    }
    assert(views(out@) =~= start + package_lines(*p, indent@, prefix@, last));
}

fn push_packages(out: &mut Vec<String>, pkgs: &Vec<PackageModel>, indent: &String)
    ensures
        views(final(out)@) == views(old(out)@) + package_block(pkgs@, indent@, pkgs@.len() as int),
{
    let ghost start = views(out@);
    let n = pkgs.len();
    let mut i: usize = 0;
    while i < n
        invariant
            n == pkgs@.len(),
            i <= n,
            views(out@) == start + package_block(pkgs@, indent@, i as int),
        decreases n - i,
    {
        let last = i == n - 1;
        let ghost before = views(out@);
        push_package(out, &pkgs[i], indent, branch_text(last), last);
        assert(views(out@) =~= start + package_block(pkgs@, indent@, i + 1));
        i = i + 1;
    }
}

fn spaces_text(n: usize) -> (r: String)
    ensures
        r@ == spaces(n as nat),
{
    let mut s = String::new();
    let mut i: usize = 0;
    while i < n
        invariant
            i <= n,
            s@ == spaces(i as nat),
        decreases n - i,
    {
        s.append("  ");
        i = i + 1;
    }
    s
}

fn push_workspace(out: &mut Vec<String>, w: &WorkspaceTree, depth: usize, prefix: &str, last: bool)
    ensures
        views(final(out)@) == views(old(out)@) + workspace_lines(*w, depth as nat, prefix@, last),
{
    let ghost start = views(out@);
    let indent = spaces_text(depth);
    out.push(header_text(&indent, prefix, " 🏢 Workspace: ", &w.workspace.name, &w.workspace.root_path));
    let ghost first = views(out@);
    assert(first =~= start + seq![header(spaces(depth as nat), prefix@, " 🏢 Workspace: "@, w.workspace.name@, w.workspace.root_path@)]);
    let mut inner = indent.clone();
    inner.append(pad_text(last));
    push_packages(out, &w.packages, &inner);
    assert(views(out@) =~= start + workspace_lines(*w, depth as nat, prefix@, last));
}

/// The lines that draw manifest `t` and what it lists: a nexus with its
/// workspaces and packages, a workspace with its packages, a package with
/// its dependencies.
pub fn tree(t: &ManifestTree) -> (r: Vec<String>)
    ensures
        views(r@) == tree_lines(*t),
{
    let mut out: Vec<String> = Vec::new();
    let empty = String::new();
    proof {
        reveal_strlit("");
        assert(""@ =~= Seq::<char>::empty());
    }
    match t {
        ManifestTree::Nexus { nexus, workspaces, packages } => {
            out.push(header_text(&empty, "", " 🧲 Nexus: ", &nexus.name, &nexus.root_path));
            let ghost first = views(out@);
            assert(first =~= seq![header(Seq::empty(), Seq::empty(), " 🧲 Nexus: "@, nexus.name@, nexus.root_path@)]);
            let n = workspaces.len();
            let mut i: usize = 0;
            while i < n
                invariant
                    n == workspaces@.len(),
                    i <= n,
                    views(out@) == first + workspace_block(workspaces@, 1, i as int),
                decreases n - i,
            {
                let last = i == n - 1;
                push_workspace(&mut out, &workspaces[i], 1, branch_text(last), last);
                assert(views(out@) =~= first + workspace_block(workspaces@, 1, i + 1));
                i = i + 1;
            }
            push_packages(&mut out, packages, &empty);
            assert(views(out@) =~= tree_lines(*t));
        },
        ManifestTree::Workspace(w) => {
            push_workspace(&mut out, w, 0, "", true);
            assert(views(out@) =~= tree_lines(*t));
        },
        ManifestTree::Package(p) => {
            push_package(&mut out, p, &empty, "", true);
            assert(views(out@) =~= tree_lines(*t));
        },
    }
    out
}

} // verus!
