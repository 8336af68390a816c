//! The calls into `git2` that the repository operations make. Each item
//! here is trusted: Verus believes its contract without reading its body.
//! What a repository call returns depends on what is on disk, so these
//! items state only what git2's and libgit2's source shows of every outcome
//! (the shape of an id, what a revision walk was given); the verified code
//! that calls them states what holds whatever came back.

use vstd::prelude::*;
use crate::git_ops::{AheadBehind, PrintFormat, StatusScope};

verus! {

#[verifier::external_type_specification]
#[verifier::external_body]
pub struct ExRepository(git2::Repository);

#[verifier::external_type_specification]
#[verifier::external_body]
pub struct ExGitError(git2::Error);

#[verifier::external_type_specification]
#[verifier::external_body]
pub struct ExOid(git2::Oid);

#[verifier::external_type_specification]
#[verifier::external_body]
pub struct ExReference<'a>(git2::Reference<'a>);

#[verifier::external_type_specification]
#[verifier::external_body]
pub struct ExBranch<'a>(git2::Branch<'a>);

#[verifier::external_type_specification]
#[verifier::external_body]
pub struct ExBranchType(git2::BranchType);

#[verifier::external_type_specification]
#[verifier::external_body]
pub struct ExBranches<'a>(git2::Branches<'a>);

#[verifier::external_type_specification]
#[verifier::external_body]
pub struct ExRevwalk<'a>(git2::Revwalk<'a>);

#[verifier::external_type_specification]
#[verifier::external_body]
pub struct ExCommit<'a>(git2::Commit<'a>);

#[verifier::external_type_specification]
#[verifier::external_body]
pub struct ExTree<'a>(git2::Tree<'a>);

#[verifier::external_type_specification]
#[verifier::external_body]
pub struct ExObject<'a>(git2::Object<'a>);

#[verifier::external_type_specification]
#[verifier::external_body]
pub struct ExSignature<'a>(git2::Signature<'a>);

#[verifier::external_type_specification]
#[verifier::external_body]
pub struct ExIndex(git2::Index);

#[verifier::external_type_specification]
#[verifier::external_body]
pub struct ExDiff<'a>(git2::Diff<'a>);

#[verifier::external_type_specification]
#[verifier::external_body]
pub struct ExRemote<'a>(git2::Remote<'a>);

/// `Repository::discover`: opens the repository containing `path`.
#[verifier::external_body]
pub(crate) fn repo_discover(path: &str) -> (r: Result<git2::Repository, git2::Error>) {
    git2::Repository::discover(path)
}

/// The text of a `git2::Error` as its `Display` writes it.
#[verifier::external_body]
pub(crate) fn error_text(e: &git2::Error) -> (s: String) {
    e.to_string()
}

/// `Repository::head`: the reference HEAD points to.
#[verifier::external_body]
pub(crate) fn repo_head<'r>(repo: &'r git2::Repository) -> (r: Result<git2::Reference<'r>, git2::Error>) {
    repo.head()
}

/// `Reference::target`: the object id a direct reference points to.
#[verifier::external_body]
pub(crate) fn reference_target(r: &git2::Reference) -> (o: Option<git2::Oid>) {
    r.target()
}

/// `Reference::shorthand`: the human-readable short name (`None` when it is not UTF-8).
#[verifier::external_body]
pub(crate) fn reference_shorthand(r: &git2::Reference) -> (s: Option<String>) {
    r.shorthand().ok().map(|s| s.to_string())
}

/// `Reference::peel_to_commit`.
#[verifier::external_body]
pub(crate) fn reference_peel_to_commit<'r>(r: &git2::Reference<'r>) -> (c: Result<git2::Commit<'r>, git2::Error>) {
    r.peel_to_commit()
}

/// `Reference::peel_to_tree`.
#[verifier::external_body]
pub(crate) fn reference_peel_to_tree<'r>(r: &git2::Reference<'r>) -> (t: Result<git2::Tree<'r>, git2::Error>) {
    r.peel_to_tree()
}

/// `Reference::name_bytes`: the full name of the reference.
#[verifier::external_body]
pub(crate) fn reference_name_bytes(r: &git2::Reference) -> (b: Vec<u8>) {
    r.name_bytes().to_vec()
}

/// A lowercase hexadecimal digit.
pub open spec fn is_lower_hex_digit(c: char) -> bool {
    ('0' <= c && c <= '9') || ('a' <= c && c <= 'f')
}

/// `Oid`'s `Display`: the hexadecimal form of an object id, written by
/// libgit2's `git_oid_tostr` into a buffer one longer than the largest hex
/// size, each byte as two digits from "0123456789abcdef". git2 is built here
/// without its SHA-256 feature, so that size is SHA-1's and the text has
/// forty characters; which digits they are is not stated.
#[verifier::external_body]
pub(crate) fn oid_to_hex(o: &git2::Oid) -> (s: String)
    ensures
        s@.len() == 40,
        forall|i: int| 0 <= i < 40 ==> is_lower_hex_digit(#[trigger] s@[i]),
{
    o.to_string()
}

/// The starting points pushed onto a revision walk, in the order they were
/// pushed: `None` for HEAD, `Some(id)` for a commit given by its hex id.
pub uninterp spec fn walk_starts(w: git2::Revwalk) -> Seq<Option<Seq<char>>>;

/// The sort mode a revision walk was given (libgit2's `GIT_SORT_*` bits).
pub uninterp spec fn walk_sorting(w: git2::Revwalk) -> u32;

/// `Repository::revwalk`: a new walk (`git_revwalk_new` allocates it zeroed),
/// so nothing is pushed yet and its sort mode is `GIT_SORT_NONE`.
#[verifier::external_body]
pub(crate) fn repo_revwalk<'r>(repo: &'r git2::Repository) -> (w: Result<git2::Revwalk<'r>, git2::Error>)
    ensures
        w matches Ok(w) ==> walk_starts(w) == Seq::<Option<Seq<char>>>::empty() && walk_sorting(w) == 0,
{
    repo.revwalk()
}

/// `Revwalk::set_sorting` with the mode whose bits are `bits`
/// (`Sort::from_bits_truncate`, which keeps every bit below 8).
/// `git_revwalk_sorting` stores the mode and returns 0; it resets a walk
/// already under way, which empties its starting points.
#[verifier::external_body]
pub(crate) fn revwalk_set_sorting(w: &mut git2::Revwalk, bits: u32) -> (r: Result<(), git2::Error>)
    requires
        bits < 8,
    ensures
        r is Ok,
        walk_sorting(*final(w)) == bits,
        walk_starts(*old(w)) == Seq::<Option<Seq<char>>>::empty() ==> walk_starts(*final(w)) == Seq::<Option<Seq<char>>>::empty(),
{
    w.set_sorting(git2::Sort::from_bits_truncate(bits))
}

/// `Revwalk::push_head`: adds HEAD as a starting point. libgit2 resolves
/// HEAD first and leaves the walk as it was when that, or the lookup of the
/// commit, fails.
#[verifier::external_body]
pub(crate) fn revwalk_push_head(w: &mut git2::Revwalk) -> (r: Result<(), git2::Error>)
    ensures
        walk_sorting(*final(w)) == walk_sorting(*old(w)),
        r is Ok ==> walk_starts(*final(w)) == walk_starts(*old(w)).push(None),
        r is Err ==> walk_starts(*final(w)) == walk_starts(*old(w)),
{
    w.push_head()
}

/// `Oid::from_str` then `Revwalk::push`: adds the commit whose hex id is
/// `hex` as a starting point. When the text is no id, or libgit2 finds no
/// commit for it, the walk is left as it was.
#[verifier::external_body]
pub(crate) fn revwalk_push_hex(w: &mut git2::Revwalk, hex: &str) -> (r: Result<(), git2::Error>)
    ensures
        walk_sorting(*final(w)) == walk_sorting(*old(w)),
        r is Ok ==> walk_starts(*final(w)) == walk_starts(*old(w)).push(Some(hex@)),
        r is Err ==> walk_starts(*final(w)) == walk_starts(*old(w)),
{
    match git2::Oid::from_str(hex) {
        Ok(o) => w.push(o),
        Err(e) => Err(e),
    }
}

/// Whether a revision walk has given its last commit: libgit2's
/// `git_revwalk_next` answered `GIT_ITEROVER`.
pub uninterp spec fn walk_exhausted(w: git2::Revwalk) -> bool;

/// `Revwalk`'s `Iterator::next`: the next commit id of the walk, in the
/// order libgit2's walk gives them, or `None` once the walk is over. Giving
/// an id (or an error) leaves the pushed starting points and the sort mode
/// as they were; at the end libgit2 resets the walk. Which id comes is not
/// stated.
#[verifier::external_body]
pub(crate) fn revwalk_next(w: &mut git2::Revwalk) -> (r: Option<Result<git2::Oid, git2::Error>>)
    ensures
        r is None ==> walk_exhausted(*final(w)),
        r is Some ==> walk_starts(*final(w)) == walk_starts(*old(w)) && walk_sorting(*final(w)) == walk_sorting(*old(w)),
{
    w.next()
}

/// `Repository::branches` (all branches, or only the local ones), its
/// items collected in order, each branch type told apart as "is remote".
/// With the local filter, libgit2's `git_branch_next` yields local branches
/// only, so no entry is marked remote; which branches come is not stated.
#[verifier::external_body]
pub(crate) fn repo_branches<'r>(repo: &'r git2::Repository, only_local: bool) -> (b: Result<Vec<Result<(git2::Branch<'r>, bool), git2::Error>>, git2::Error>)
    ensures
        only_local ==> (b matches Ok(v) ==> forall|k: int| 0 <= k < v.len() ==> ((#[trigger] v@[k]) matches Ok(e) ==> !e.1)),
{
    let filter = if only_local { Some(git2::BranchType::Local) } else { None };
    repo.branches(filter).map(|it| it.map(|r| r.map(|(br, t)| (br, match t {
        git2::BranchType::Local => false,
        git2::BranchType::Remote => true,
    }))).collect())
}

/// `Branch::name` (`Ok(None)` when the name is not UTF-8).
#[verifier::external_body]
pub(crate) fn branch_name(b: &git2::Branch) -> (n: Result<Option<String>, git2::Error>) {
    b.name().map(|o| o.map(|s| s.to_string()))
}

/// `Branch::get`: the reference behind a branch.
#[verifier::external_body]
pub(crate) fn branch_reference<'b, 'r>(b: &'b git2::Branch<'r>) -> (r: &'b git2::Reference<'r>) {
    b.get()
}

/// `Branch::is_head`.
#[verifier::external_body]
pub(crate) fn branch_is_head(b: &git2::Branch) -> (h: bool) {
    b.is_head()
}

/// `Branch::upstream`.
#[verifier::external_body]
pub(crate) fn branch_upstream<'r>(b: &git2::Branch<'r>) -> (u: Result<git2::Branch<'r>, git2::Error>) {
    b.upstream()
}

/// `Branch::delete`.
#[verifier::external_body]
pub(crate) fn branch_delete(b: &mut git2::Branch) -> (r: Result<(), git2::Error>) {
    b.delete()
}

/// `Repository::find_commit`.
#[verifier::external_body]
pub(crate) fn repo_find_commit<'r>(repo: &'r git2::Repository, oid: git2::Oid) -> (c: Result<git2::Commit<'r>, git2::Error>) {
    repo.find_commit(oid)
}

/// `Commit::message` (`None` when it is not UTF-8).
#[verifier::external_body]
pub(crate) fn commit_message(c: &git2::Commit) -> (m: Option<String>) {
    c.message().ok().map(|s| s.to_string())
}

/// `Commit::author`.
#[verifier::external_body]
pub(crate) fn commit_author<'c>(c: &'c git2::Commit) -> (s: git2::Signature<'c>) {
    c.author()
}

/// `Signature::name` (`None` when it is not UTF-8).
#[verifier::external_body]
pub(crate) fn signature_name(s: &git2::Signature) -> (n: Option<String>) {
    s.name().ok().map(|s| s.to_string())
}

/// `Commit::time` followed by `Time::seconds`: the commit time in seconds
/// since the epoch.
#[verifier::external_body]
pub(crate) fn commit_time_seconds(c: &git2::Commit) -> (t: i64) {
    c.time().seconds()
}

/// `Commit::parent_ids`, collected in order.
#[verifier::external_body]
pub(crate) fn commit_parent_ids(c: &git2::Commit) -> (p: Vec<git2::Oid>) {
    c.parent_ids().collect()
}

/// `Commit::as_object`.
#[verifier::external_body]
pub(crate) fn commit_as_object<'c, 'r>(c: &'c git2::Commit<'r>) -> (o: &'c git2::Object<'r>) {
    c.as_object()
}

/// `Commit::tree`.
#[verifier::external_body]
pub(crate) fn commit_tree<'r>(c: &git2::Commit<'r>) -> (t: Result<git2::Tree<'r>, git2::Error>) {
    c.tree()
}

/// `Tree::as_object`.
#[verifier::external_body]
pub(crate) fn tree_as_object<'t, 'r>(t: &'t git2::Tree<'r>) -> (o: &'t git2::Object<'r>) {
    t.as_object()
}

/// `Repository::statuses` with the given options: whether untracked files
/// are included, whether untracked directories are walked into, and which
/// side is compared. Each entry is given as its path (`None` when it is not
/// UTF-8) and its status bits. `StatusEntry::path` reads the path out of a
/// C string, up to its terminating NUL, so no path holds a NUL character;
/// nothing else is claimed of the entries.
#[verifier::external_body]
pub(crate) fn repo_statuses(
    repo: &git2::Repository,
    include_untracked: bool,
    recurse_untracked_dirs: bool,
    show: StatusScope,
) -> (r: Result<Vec<(Option<String>, u32)>, git2::Error>)
    ensures
        r matches Ok(v) ==> forall|k: int| 0 <= k < v.len() ==> ((#[trigger] v@[k]).0 matches Some(p) ==> !p@.contains('\0')),
{
    let show = match show {
        StatusScope::IndexAndWorkdir => git2::StatusShow::IndexAndWorkdir,
        StatusScope::Index => git2::StatusShow::Index,
        StatusScope::Workdir => git2::StatusShow::Workdir,
    };
    let mut opts = git2::StatusOptions::new();
    opts.include_untracked(include_untracked).recurse_untracked_dirs(recurse_untracked_dirs).show(show);
    repo.statuses(Some(&mut opts)).map(|st| st.iter().map(|e| (e.path().ok().map(|p| p.to_string()), e.status().bits())).collect())
}

/// `Repository::index`.
#[verifier::external_body]
pub(crate) fn repo_index(repo: &git2::Repository) -> (i: Result<git2::Index, git2::Error>) {
    repo.index()
}

/// `Index::add_path`.
#[verifier::external_body]
pub(crate) fn index_add_path(index: &mut git2::Index, path: &str) -> (r: Result<(), git2::Error>) {
    index.add_path(std::path::Path::new(path))
}

/// `Index::remove_path`.
#[verifier::external_body]
pub(crate) fn index_remove_path(index: &mut git2::Index, path: &str) -> (r: Result<(), git2::Error>) {
    index.remove_path(std::path::Path::new(path))
}

/// `Index::write`.
#[verifier::external_body]
pub(crate) fn index_write(index: &mut git2::Index) -> (r: Result<(), git2::Error>) {
    index.write()
}

/// `Index::write_tree`.
#[verifier::external_body]
pub(crate) fn index_write_tree(index: &mut git2::Index) -> (r: Result<git2::Oid, git2::Error>) {
    index.write_tree()
}

/// `Repository::reset_default` of one path to the given object.
#[verifier::external_body]
pub(crate) fn repo_reset_default(repo: &git2::Repository, target: &git2::Object, path: &str) -> (r: Result<(), git2::Error>) {
    repo.reset_default(Some(target), [path])
}

/// `Repository::find_tree`.
#[verifier::external_body]
pub(crate) fn repo_find_tree<'r>(repo: &'r git2::Repository, oid: git2::Oid) -> (t: Result<git2::Tree<'r>, git2::Error>) {
    repo.find_tree(oid)
}

/// `Repository::signature`: the configured user.
#[verifier::external_body]
pub(crate) fn repo_signature(repo: &git2::Repository) -> (s: Result<git2::Signature<'static>, git2::Error>) {
    repo.signature()
}

/// `Signature::now`.
#[verifier::external_body]
pub(crate) fn signature_now(name: &str, email: &str) -> (s: Result<git2::Signature<'static>, git2::Error>) {
    git2::Signature::now(name, email)
}

/// `Repository::commit`: writes a commit of `tree` with these parents,
/// author, committer and message, and moves `update_ref` to it when given.
#[verifier::external_body]
pub(crate) fn repo_commit(
    repo: &git2::Repository,
    update_ref: Option<&str>,
    author: &git2::Signature,
    committer: &git2::Signature,
    message: &str,
    tree: &git2::Tree,
    parents: &[&git2::Commit],
) -> (r: Result<git2::Oid, git2::Error>) {
    repo.commit(update_ref, author, committer, message, tree, parents)
}

/// `Repository::branch`: creates the branch `name` at `target`, replacing
/// one of that name only when `force` is set.
#[verifier::external_body]
pub(crate) fn repo_branch(repo: &git2::Repository, name: &str, target: &git2::Commit, force: bool) -> (r: Result<(), git2::Error>) {
    repo.branch(name, target, force).map(|_| ())
}

/// `Repository::revparse_ext`.
#[verifier::external_body]
pub(crate) fn repo_revparse_ext<'r>(repo: &'r git2::Repository, spec: &str) -> (r: Result<(git2::Object<'r>, Option<git2::Reference<'r>>), git2::Error>) {
    repo.revparse_ext(spec)
}

/// `Repository::checkout_tree` with default options.
#[verifier::external_body]
pub(crate) fn repo_checkout_tree(repo: &git2::Repository, treeish: &git2::Object) -> (r: Result<(), git2::Error>) {
    repo.checkout_tree(treeish, None)
}

/// `Repository::set_head_bytes`.
#[verifier::external_body]
pub(crate) fn repo_set_head_bytes(repo: &git2::Repository, name: &[u8]) -> (r: Result<(), git2::Error>) {
    repo.set_head_bytes(name)
}

/// `Repository::reference`: creates or (when forced) moves a direct reference.
#[verifier::external_body]
pub(crate) fn repo_reference(repo: &git2::Repository, name: &str, oid: git2::Oid, force: bool, log_message: &str) -> (r: Result<(), git2::Error>) {
    repo.reference(name, oid, force, log_message).map(|_| ())
}

/// `Repository::find_branch` among the local branches.
#[verifier::external_body]
pub(crate) fn repo_find_local_branch<'r>(repo: &'r git2::Repository, name: &str) -> (b: Result<git2::Branch<'r>, git2::Error>) {
    repo.find_branch(name, git2::BranchType::Local)
}

/// `Repository::diff_tree_to_index` against the repository's index, limited to `path`.
/// `DiffOptions::pathspec` unwraps the conversion of `path` to a C string,
/// which panics on a NUL character, so the path must hold none.
#[verifier::external_body]
pub(crate) fn repo_diff_tree_to_index<'r>(repo: &'r git2::Repository, tree: Option<&git2::Tree>, path: &str) -> (d: Result<git2::Diff<'r>, git2::Error>)
    requires
        !path@.contains('\0'),
{
    let mut opts = git2::DiffOptions::new();
    opts.pathspec(path);
    repo.diff_tree_to_index(tree, None, Some(&mut opts))
}

/// `Repository::diff_index_to_workdir` against the repository's index, limited to `path`.
/// `DiffOptions::pathspec` unwraps the conversion of `path` to a C string,
/// which panics on a NUL character, so the path must hold none.
#[verifier::external_body]
pub(crate) fn repo_diff_index_to_workdir<'r>(repo: &'r git2::Repository, path: &str) -> (d: Result<git2::Diff<'r>, git2::Error>)
    requires
        !path@.contains('\0'),
{
    let mut opts = git2::DiffOptions::new();
    opts.pathspec(path);
    repo.diff_index_to_workdir(None, Some(&mut opts))
}

/// `Diff::print` in the given format, each printed line given as its
/// origin character and its content (`None` when the content is not UTF-8).
#[verifier::external_body]
pub(crate) fn diff_print_lines(diff: &git2::Diff, format: PrintFormat) -> (r: Result<Vec<(char, Option<String>)>, git2::Error>) {
    let format = match format {
        PrintFormat::Patch => git2::DiffFormat::Patch,
        PrintFormat::PatchHeader => git2::DiffFormat::PatchHeader,
        PrintFormat::Raw => git2::DiffFormat::Raw,
        PrintFormat::NameOnly => git2::DiffFormat::NameOnly,
        PrintFormat::NameStatus => git2::DiffFormat::NameStatus,
    };
    let mut lines = Vec::new();
    diff.print(format, |_d, _h, l| {
        lines.push((l.origin(), std::str::from_utf8(l.content()).ok().map(|s| s.to_string())));
        true
    }).map(|_| lines)
}

/// `Repository::find_remote`.
#[verifier::external_body]
pub(crate) fn repo_find_remote<'r>(repo: &'r git2::Repository, name: &str) -> (r: Result<git2::Remote<'r>, git2::Error>) {
    repo.find_remote(name)
}

/// `Remote::url` (`None` when it is not UTF-8).
#[verifier::external_body]
pub(crate) fn remote_url(r: &git2::Remote) -> (u: Option<String>) {
    r.url().ok().map(|s| s.to_string())
}

/// `Repository::graph_ahead_behind`: how many commits `local` has that
/// `upstream` lacks (`ahead`, the first of the pair git2 returns) and how
/// many `upstream` has that `local` lacks (`behind`, the second). Which
/// counts they are depends on the history and is not stated.
#[verifier::external_body]
pub(crate) fn repo_graph_ahead_behind(repo: &git2::Repository, local: git2::Oid, upstream: git2::Oid) -> (r: Result<AheadBehind, git2::Error>) {
    repo.graph_ahead_behind(local, upstream).map(|(ahead, behind)| AheadBehind { ahead, behind })
}

} // verus!
