//! Microsoft APM adapter: command lines for installing, updating and removing
//! Agent packages, and GitHub Skill package references.
use vstd::prelude::*;
use crate::paths::only_normal;
use crate::text::{
    chars_of, concat, contains, contains_seq, has_prefix, join, join_strings, non_blank, opt_view,
    owned, push_string, slice_of, split_any, split_on, starts_with, string_of, trim, trim_char,
    trim_end_char, trim_end_matches_char, trim_end_matches_seq, trim_end_seq, trim_matches_char,
    trim_ws, views, is_ws, trim_start_ws, trim_end_ws, trim_start_char, ends_with, occurs_at,
};
use super::{
    CommandOutcome, PackageManager, PackageManagerAvailability, PackageManagerCommand,
    PackageManagerContext, PackageManagerError, PackageManagerScope, context_targets, scope_args,
    target_args,
};

verus! {

/// Runs the `apm` command-line tool.
#[derive(Debug, Clone)]
pub struct ApmAdapter {
    binary: String,
}

impl View for ApmAdapter {
    type V = Seq<char>;

    /// The program the adapter runs.
    closed spec fn view(&self) -> Seq<char> {
        self.binary@
    }
}

impl Default for ApmAdapter {
    fn default() -> (r: Self)
        ensures
            r@ == "apm"@,
    {
        ApmAdapter::new("apm")
    }
}

/// Whether a package reference is empty once trimmed.
pub open spec fn is_blank(s: Seq<char>) -> bool {
    trim_ws(s).len() == 0
}

/// Arguments of `apm install`.
pub open spec fn install_args(package: Seq<char>, context: PackageManagerContext) -> Seq<Seq<char>> {
    seq!["install"@, package] + scope_args(context.scope) + target_args(context_targets(context))
}

/// Arguments of `apm uninstall`.
pub open spec fn uninstall_args(package: Seq<char>, context: PackageManagerContext) -> Seq<Seq<char>> {
    seq!["uninstall"@, package] + scope_args(context.scope)
}

/// Arguments of `apm update`: the package if one is named, `--yes` when the
/// changes are accepted, then scope and targets.
pub open spec fn update_args(
    package: Option<Seq<char>>,
    accept_changes: bool,
    context: PackageManagerContext,
) -> Seq<Seq<char>> {
    seq!["update"@] + (match package {
        Some(p) => seq![p],
        None => Seq::<Seq<char>>::empty(),
    }) + (if accept_changes {
        seq!["--yes"@]
    } else {
        Seq::<Seq<char>>::empty()
    }) + scope_args(context.scope) + target_args(context_targets(context))
}

/// Each command starts with its command word and the package it names;
/// `--yes` is passed when an update accepts changes; every command but
/// `doctor` is global exactly when its context is: installing, updating,
/// removing and listing pass `--global` for the global scope, and removing
/// and listing pass nothing more than the package and that flag.
pub proof fn law_commands_carry_package_and_scope(
    package: Seq<char>,
    update_package: Option<Seq<char>>,
    accept_changes: bool,
    context: PackageManagerContext,
)
    ensures
        ({
            let global = context.scope == PackageManagerScope::Global;
            let install = install_args(package, context);
            let uninstall = uninstall_args(package, context);
            let update = update_args(update_package, accept_changes, context);
            let list = list_args(context);
            &&& install[0] == "install"@ && install[1] == package
            &&& uninstall[0] == "uninstall"@ && uninstall[1] == package
            &&& update[0] == "update"@ && (update_package matches Some(p) ==> update[1] == p)
            &&& accept_changes ==> update.contains("--yes"@)
            &&& global ==> install.contains("--global"@) && update.contains("--global"@)
            &&& (global ==> uninstall == seq!["uninstall"@, package, "--global"@])
            &&& (!global ==> uninstall == seq!["uninstall"@, package])
            &&& list[0] == "list"@
            &&& (list.contains("--global"@) <==> global)
        }),
{
    reveal_strlit("--global");
    reveal_strlit("list");
    let global = context.scope == PackageManagerScope::Global;
    let ta = target_args(views(context.targets@));
    let pk = match update_package {
        Some(p) => seq![p],
        None => Seq::<Seq<char>>::empty(),
    };
    let yes = if accept_changes {
        seq!["--yes"@]
    } else {
        Seq::<Seq<char>>::empty()
    };
    let sc = scope_args(context.scope);
    let update = update_args(update_package, accept_changes, context);
    let install = install_args(package, context);
    assert(update =~= seq!["update"@] + pk + yes + sc + ta);
    assert(install =~= seq!["install"@, package] + sc + ta);
    assert(update[0] == "update"@);
    if update_package is Some {
        assert(update[1] == pk[0]);
    }
    if accept_changes {
        assert(update[1 + pk.len() as int] == "--yes"@);
    }
    if global {
        assert(update[1 + pk.len() as int + yes.len() as int] == "--global"@);
        assert(install[2] == "--global"@);
        assert(uninstall_args(package, context) =~= seq!["uninstall"@, package, "--global"@]);
        assert(list_args(context)[1] == "--global"@);
    } else {
        assert(uninstall_args(package, context) =~= seq!["uninstall"@, package]);
        assert(list_args(context) =~= seq!["list"@]);
        if list_args(context).contains("--global"@) {
            assert("list"@[0] != "--global"@[0]);
        }
    }
}

/// Every command that installs or updates for chosen Agents passes them:
/// with targets, the arguments end with `--target` and the targets joined by
/// commas; without, `--target` is not passed after the package. An update
/// of a named package without `--yes` takes the same arguments as its
/// installation, after the command word.
pub proof fn law_targets_are_passed(package: Seq<char>, update_package: Option<Seq<char>>, accept_changes: bool, context: PackageManagerContext)
    ensures
        ({
            let targets = views(context.targets@);
            let install = install_args(package, context);
            let update = update_args(update_package, accept_changes, context);
            &&& targets.len() > 0 ==> install.len() >= 2 && install[install.len() - 2] == "--target"@
                && install.last() == join(targets, ","@)
            &&& targets.len() > 0 ==> update.len() >= 2 && update[update.len() - 2] == "--target"@
                && update.last() == join(targets, ","@)
            &&& targets.len() == 0 ==> forall|i: int| 2 <= i < install.len() ==> #[trigger] install[i] != "--target"@
            &&& update_args(Some(package), false, context).drop_first() == install.drop_first()
        }),
{
    reveal_strlit("--target");
    reveal_strlit("--global");
    let targets = views(context.targets@);
    let ta = target_args(targets);
    let install_head = seq!["install"@, package] + scope_args(context.scope);
    let update_head = seq!["update"@] + (match update_package {
        Some(p) => seq![p],
        None => Seq::<Seq<char>>::empty(),
    }) + (if accept_changes {
        seq!["--yes"@]
    } else {
        Seq::<Seq<char>>::empty()
    }) + scope_args(context.scope);
    assert(install_args(package, context) =~= install_head + ta);
    assert(update_args(update_package, accept_changes, context) =~= update_head + ta);
    if targets.len() > 0 {
        assert(ta =~= seq!["--target"@, join(targets, ","@)]);
        assert((install_head + ta)[install_head.len() as int] == ta[0]);
        assert((install_head + ta)[install_head.len() as int + 1] == ta[1]);
        assert((update_head + ta)[update_head.len() as int] == ta[0]);
        assert((update_head + ta)[update_head.len() as int + 1] == ta[1]);
    } else {
        assert(install_args(package, context) =~= install_head);
        assert forall|i: int| 2 <= i < install_head.len() implies #[trigger] install_head[i] != "--target"@ by {
            assert(install_head[i] == "--global"@);
            assert("--global"@[2] != "--target"@[2]);
        }
    }
    assert(update_args(Some(package), false, context).drop_first() =~= install_args(package, context).drop_first());
}

/// Arguments of `apm list`.
pub open spec fn list_args(context: PackageManagerContext) -> Seq<Seq<char>> {
    seq!["list"@] + scope_args(context.scope)
}

/// The view of an optional string slice.
pub open spec fn opt_str_view(o: Option<&str>) -> Option<Seq<char>> {
    match o {
        Some(s) => Some(s@),
        None => None,
    }
}

/// The command runs the adapter's program with `args` in the context's
/// working directory.
pub open spec fn runs(
    cmd: PackageManagerCommand,
    program: Seq<char>,
    args: Seq<Seq<char>>,
    context: PackageManagerContext,
) -> bool {
    &&& cmd.program@ == program
    &&& views(cmd.args@) == args
    &&& cmd.working_dir == context.working_dir
}

/// The availability that a version probe reports: available with the
/// trimmed standard output as version when the program exited successfully;
/// otherwise unavailable, with the trimmed standard error, or the exit
/// status, or the start error as message.
pub open spec fn availability_of(probe: CommandOutcome) -> (bool, Option<Seq<char>>, Option<Seq<char>>) {
    match probe {
        CommandOutcome::Exited { success, status, stdout, stderr } => if success {
            (true, non_blank(stdout@), None)
        } else {
            (false, None, Some(
                match non_blank(stderr@) {
                    Some(m) => m,
                    None => "APM exited with status "@ + status@,
                },
            ))
        },
        CommandOutcome::NotStarted { error } => (false, None, Some(error@)),
    }
}

impl ApmAdapter {
    /// An adapter that runs `binary`.
    pub fn new(binary: &str) -> (r: Self)
        ensures
            r@ == binary@,
    {
        ApmAdapter { binary: owned(binary) }
    }

    /// The binary this adapter runs.
    pub fn binary(&self) -> (r: &str)
        ensures
            r@ == self@,
    {
        self.binary.as_str()
    }

    fn command(&self, args: Vec<String>, context: &PackageManagerContext) -> (r: PackageManagerCommand)
        ensures
            r.program@ == self@,
            r.args == args,
            r.working_dir == context.working_dir,
    {
        PackageManagerCommand {
            program: self.binary.clone(),
            args,
            working_dir: context.working_dir.clone(),
        }
    }
}

/// Refuses an empty package reference.
pub fn validate_package(package: &str) -> (r: Result<(), PackageManagerError>)
    ensures
        r is Err <==> is_blank(package@),
        r matches Err(e) ==> e == PackageManagerError::EmptyPackageReference,
{
    let v = chars_of(package);
    let t = trim(&v);
    if t.len() == 0 {
        Err(PackageManagerError::EmptyPackageReference)
    } else {
        Ok(())
    }
}

/// Adds `--global` for a global scope.
pub fn append_scope(args: &mut Vec<String>, context: &PackageManagerContext)
    ensures
        views(final(args)@) == views(old(args)@) + scope_args(context.scope),
{
    match context.scope {
        PackageManagerScope::Global => {
            push_string(args, owned("--global"));
        },
        PackageManagerScope::Project => {
            assert(views(args@) =~= views(args@) + Seq::<Seq<char>>::empty());
        },
    }
}

/// Adds `--target` and the comma-joined targets when there are targets.
fn append_targets(args: &mut Vec<String>, context: &PackageManagerContext)
    ensures
        views(final(args)@) == views(old(args)@) + target_args(context_targets(*context)),
{
    if context.targets.len() > 0 {
        push_string(args, owned("--target"));
        push_string(args, join_strings(&context.targets, ","));
        assert(views(args@) =~= views(old(args)@) + target_args(context_targets(*context)));
    } else {
        assert(views(args@) =~= views(old(args)@) + target_args(context_targets(*context)));
    }
}

/// The trimmed output when it is not empty.
pub fn non_empty_output(text: &str) -> (r: Option<String>)
    ensures
        opt_view(r) == non_blank(text@),
{
    let v = chars_of(text);
    let t = trim(&v);
    if t.len() == 0 {
        None
    } else {
        Some(string_of(&t))
    }
}

/// The spec result of [`github_skill_package_reference`].
pub open spec fn package_reference(repo_url: Seq<char>, subpath: Seq<char>) -> Result<
    Seq<char>,
    PackageReferenceError,
> {
    let url = trim_end_char(trim_ws(repo_url), '/');
    let path = trim_char(trim_ws(subpath), '/');
    let prefix = "https://github.com/"@;
    if contains_seq(url, "/tree/"@) || contains_seq(url, "/blob/"@) {
        Err(PackageReferenceError::NotRepositoryRoot)
    } else if !starts_with(url, prefix) {
        Err(PackageReferenceError::NotHttpsGithub)
    } else {
        let repo = trim_end_seq(url.skip(prefix.len() as int), ".git"@);
        let segments = split_any(repo, seq!['/']);
        if segments.len() != 2 || segments[0].len() == 0 || segments[1].len() == 0 {
            Err(PackageReferenceError::InvalidRepositoryUrl)
        } else if path.len() == 0 || !only_normal(path) {
            Err(PackageReferenceError::InvalidSkillSubpath)
        } else {
            Ok(trim_end_char(repo, '/') + seq!['/'] + path)
        }
    }
}

proof fn lemma_trim_start_push(u: Seq<char>, x: char)
    requires
        !is_ws(x),
    ensures
        trim_start_ws(u.push(x)) == trim_start_ws(u).push(x),
    decreases u.len(),
{
    if u.len() > 0 {
        assert(u.push(x)[0] == u[0]);
        if is_ws(u[0]) {
            assert(u.push(x).drop_first() =~= u.drop_first().push(x));
            lemma_trim_start_push(u.drop_first(), x);
        }
    } else {
        assert(u.push(x) =~= seq![x]);
        assert(seq![x][0] == x);
    }
}

proof fn lemma_trim_start_keeps_last(u: Seq<char>)
    ensures
        trim_start_ws(u).len() > 0 ==> trim_start_ws(u).last() == u.last(),
    decreases u.len(),
{
    if u.len() > 0 && is_ws(u[0]) {
        lemma_trim_start_keeps_last(u.drop_first());
        if trim_start_ws(u.drop_first()).len() > 0 {
            assert(u.drop_first().last() == u.last());
        }
    }
}

/// A repository URL gives the same package reference with or without one
/// more `/` at its end (a URL that ends in whitespace aside, where the
/// whitespace would then sit before the `/`).
pub proof fn law_trailing_slash_is_ignored(repo_url: Seq<char>, subpath: Seq<char>)
    requires
        repo_url.len() == 0 || !is_ws(repo_url.last()),
    ensures
        package_reference(repo_url + seq!['/'], subpath) == package_reference(repo_url, subpath),
{
    let u = repo_url;
    let t = trim_start_ws(u);
    assert(!is_ws('/'));
    assert(u + seq!['/'] =~= u.push('/'));
    lemma_trim_start_push(u, '/');
    assert(t.push('/').last() == '/');
    assert(trim_end_ws(t.push('/')) == t.push('/'));
    assert(trim_ws(u + seq!['/']) == t.push('/'));
    lemma_trim_start_keeps_last(u);
    if t.len() > 0 {
        assert(trim_end_ws(t) == t);
    }
    assert(trim_ws(u) == t);
    assert(t.push('/').drop_last() =~= t);
    assert(trim_end_char(t.push('/'), '/') == trim_end_char(t, '/'));
}

proof fn lemma_trim_end_after_slash(u: Seq<char>)
    ensures
        trim_end_ws(seq!['/'] + u) == seq!['/'] + trim_end_ws(u),
    decreases u.len(),
{
    assert(!is_ws('/'));
    if u.len() == 0 {
        assert(seq!['/'] + u =~= seq!['/']);
        assert(seq!['/'] + trim_end_ws(u) =~= seq!['/']);
    } else {
        assert((seq!['/'] + u).drop_last() =~= seq!['/'] + u.drop_last());
        assert((seq!['/'] + u).last() == u.last());
        lemma_trim_end_after_slash(u.drop_last());
    }
}

proof fn lemma_trim_char_push(t: Seq<char>, c: char)
    ensures
        trim_end_char(trim_start_char(t.push(c), c), c) == trim_end_char(trim_start_char(t, c), c),
    decreases t.len(),
{
    if t.len() == 0 {
        assert(seq![c].drop_first() =~= Seq::<char>::empty());
        assert(t.push(c) =~= seq![c]);
        assert(seq![c][0] == c);
        assert(trim_start_char(seq![c], c) == trim_start_char(Seq::<char>::empty(), c));
        assert(t =~= Seq::<char>::empty());
    } else if t[0] == c {
        assert(t.push(c)[0] == c);
        assert(t.push(c).drop_first() =~= t.drop_first().push(c));
        lemma_trim_char_push(t.drop_first(), c);
    } else {
        assert(t.push(c)[0] == t[0]);
        assert(t.push(c).drop_last() =~= t);
        assert(t.push(c).last() == c);
        assert(trim_start_char(t.push(c), c) == t.push(c));
        assert(trim_start_char(t, c) == t);
    }
}

/// The Skill subpath gives the same package reference with or without one
/// more `/` at either end (a subpath that starts or ends in whitespace
/// aside, where the whitespace would then sit inside the `/`).
pub proof fn law_subpath_slashes_are_ignored(repo_url: Seq<char>, subpath: Seq<char>)
    ensures
        (subpath.len() == 0 || !is_ws(subpath[0])) ==> package_reference(repo_url, seq!['/'] + subpath)
            == package_reference(repo_url, subpath),
        (subpath.len() == 0 || !is_ws(subpath.last())) ==> package_reference(repo_url, subpath + seq!['/'])
            == package_reference(repo_url, subpath),
{
    let s = subpath;
    assert(!is_ws('/'));
    if s.len() == 0 || !is_ws(s[0]) {
        let w = seq!['/'] + s;
        assert(w[0] == '/');
        assert(trim_start_ws(w) == w);
        lemma_trim_end_after_slash(s);
        assert(trim_ws(w) == seq!['/'] + trim_end_ws(s));
        let v = seq!['/'] + trim_end_ws(s);
        assert(v[0] == '/');
        assert(v.drop_first() =~= trim_end_ws(s));
        assert(trim_start_char(v, '/') == trim_start_char(trim_end_ws(s), '/'));
        if s.len() > 0 {
            assert(trim_start_ws(s) == s);
        }
        assert(trim_ws(s) == trim_end_ws(s));
        assert(trim_char(trim_ws(w), '/') == trim_char(trim_ws(s), '/'));
    }
    if s.len() == 0 || !is_ws(s.last()) {
        let t = trim_start_ws(s);
        assert(s + seq!['/'] =~= s.push('/'));
        lemma_trim_start_push(s, '/');
        assert(t.push('/').last() == '/');
        assert(trim_end_ws(t.push('/')) == t.push('/'));
        lemma_trim_start_keeps_last(s);
        if t.len() > 0 {
            assert(trim_end_ws(t) == t);
        }
        assert(trim_ws(s) == t);
        lemma_trim_char_push(t, '/');
        assert(trim_char(trim_ws(s + seq!['/']), '/') == trim_char(trim_ws(s), '/'));
    }
}

/// A character of a GitHub owner or repository name: an ASCII letter or
/// digit, `-`, `_` or `.`.
pub open spec fn is_repo_name_char(c: char) -> bool {
    ('a' <= c <= 'z') || ('A' <= c <= 'Z') || ('0' <= c <= '9') || c == '-' || c == '_' || c == '.'
}

/// A GitHub owner or repository name: one or more name characters.
pub open spec fn is_repo_name(n: Seq<char>) -> bool {
    n.len() > 0 && forall|i: int| 0 <= i < n.len() ==> is_repo_name_char(#[trigger] n[i])
}

proof fn lemma_name_char_not_ws(c: char)
    requires
        is_repo_name_char(c),
    ensures
        !is_ws(c),
        c != '/',
{
}

proof fn lemma_no_marker_in_url(url: Seq<char>, owner: Seq<char>, repo: Seq<char>, part: Seq<char>)
    requires
        url == "https://github.com/"@ + owner + seq!['/'] + repo,
        is_repo_name(owner),
        is_repo_name(repo),
        part.len() == 6,
        part[0] == '/',
        part[5] == '/',
        part.subrange(1, 5) != owner,
    ensures
        !contains_seq(url, part),
{
    reveal_strlit("https://github.com/");
    let p = "https://github.com/"@;
    let n = owner.len() as int;
    assert(p.len() == 19);
    assert forall|k: int| 0 <= k < url.len() && url[k] == '/' implies k == 6 || k == 7 || k == 18 || k == 19 + n by {
        if 19 <= k < 19 + n {
            assert(url[k] == owner[k - 19]);
            lemma_name_char_not_ws(owner[k - 19]);
        } else if k > 19 + n {
            assert(url[k] == repo[k - 20 - n]);
            lemma_name_char_not_ws(repo[k - 20 - n]);
        } else if k < 19 {
            assert(url[k] == p[k]);
        }
    }
    if contains_seq(url, part) {
        let i = choose|i: int| occurs_at(url, part, i);
        assert(url.subrange(i, i + 6) == part);
        assert(url[i] == part[0]);
        assert(url[i + 5] == part[5]);
        if i == 18 {
            assert(n == 4);
            assert(owner =~= url.subrange(19, 23));
            assert(part.subrange(1, 5) =~= url.subrange(19, 23));
        }
    }
}

/// The reference for the root URL of a GitHub repository `owner/repo` and
/// a Skill subpath is `owner/repo/subpath`, whether or not the URL ends in
/// `/`. (The owners `tree` and `blob` aside, whose URLs look like a path
/// inside a repository, and repositories named `….git`, whose `.git` is
/// dropped; the subpath is a relative path of names, without surrounding
/// whitespace or `/`.)
pub proof fn law_reference_of_repository_root(owner: Seq<char>, repo: Seq<char>, path: Seq<char>)
    requires
        is_repo_name(owner),
        is_repo_name(repo),
        owner != "tree"@,
        owner != "blob"@,
        !ends_with(repo, ".git"@),
        path.len() > 0,
        only_normal(path),
        !is_ws(path[0]) && !is_ws(path.last()),
        path[0] != '/' && path.last() != '/',
    ensures
        package_reference("https://github.com/"@ + owner + "/"@ + repo, path) == Ok::<Seq<char>, PackageReferenceError>(
            owner + "/"@ + repo + "/"@ + path,
        ),
        package_reference("https://github.com/"@ + owner + "/"@ + repo + "/"@, path) == Ok::<
            Seq<char>,
            PackageReferenceError,
        >(owner + "/"@ + repo + "/"@ + path),
{
    reveal_strlit("https://github.com/");
    reveal_strlit("/");
    reveal_strlit("/tree/");
    reveal_strlit("/blob/");
    reveal_strlit(".git");
    reveal_strlit("tree");
    reveal_strlit("blob");
    let p = "https://github.com/"@;
    let sl = seq!['/'];
    assert("/"@ =~= sl);
    let url = p + owner + sl + repo;
    assert(p + owner + "/"@ + repo == url);
    let n = owner.len() as int;
    // Trimming leaves the URL as it is.
    assert(url[0] == 'h');
    assert(trim_start_ws(url) == url);
    assert(url.last() == repo.last());
    lemma_name_char_not_ws(repo[repo.len() - 1]);
    assert(trim_end_ws(url) == url);
    assert(trim_ws(url) == url);
    assert(trim_end_char(url, '/') == url);
    // Neither marker of a path inside a repository occurs.
    assert("/tree/"@.subrange(1, 5) =~= "tree"@);
    assert("/blob/"@.subrange(1, 5) =~= "blob"@);
    lemma_no_marker_in_url(url, owner, repo, "/tree/"@);
    lemma_no_marker_in_url(url, owner, repo, "/blob/"@);
    assert(url.take(19) =~= p);
    let rest = owner + sl + repo;
    assert(url.skip(19) =~= rest);
    // The name does not end in `.git`.
    if ends_with(rest, ".git"@) {
        if repo.len() >= 4 {
            assert(rest.skip(rest.len() - 4) =~= repo.skip(repo.len() - 4));
        } else {
            let k = 3 - repo.len();
            assert(rest.skip(rest.len() - 4)[k] == '/');
            assert(".git"@[k] != '/');
        }
    }
    assert(trim_end_seq(rest, ".git"@) == rest);
    // The name splits into the owner and the repository.
    assert forall|i: int| 0 <= i < owner.len() implies !sl.contains(#[trigger] owner[i]) by {
        lemma_name_char_not_ws(owner[i]);
        if sl.contains(owner[i]) {
            assert(sl[0] == owner[i]);
        }
    }
    assert forall|i: int| 0 <= i < repo.len() implies !sl.contains(#[trigger] repo[i]) by {
        lemma_name_char_not_ws(repo[i]);
        if sl.contains(repo[i]) {
            assert(sl[0] == repo[i]);
        }
    }
    let e = Seq::<char>::empty();
    crate::codex_plugins::manifest::lemma_split_extend(e, owner, sl);
    assert(e + owner =~= owner);
    assert(split_any(e, sl) =~= seq![e]);
    assert(split_any(owner, sl) =~= seq![owner]);
    assert((owner + sl).drop_last() =~= owner);
    assert(sl.contains('/')) by {
        assert(sl[0] == '/');
    }
    assert(split_any(owner + sl, sl) =~= seq![owner, e]);
    crate::codex_plugins::manifest::lemma_split_extend(owner + sl, repo, sl);
    assert(split_any(rest, sl) =~= seq![owner, repo]);
    // The subpath is kept as it is.
    assert(trim_start_ws(path) == path);
    assert(trim_end_ws(path) == path);
    assert(trim_start_char(path, '/') == path);
    assert(trim_end_char(path, '/') == path);
    assert(trim_end_char(rest, '/') == rest);
    assert(rest + sl + path == owner + "/"@ + repo + "/"@ + path);
    assert(url + "/"@ == url + sl);
    law_trailing_slash_is_ignored(url, path);
}

/// Why a GitHub Skill package reference could not be built.
#[derive(Clone, Copy, Debug, PartialEq, Eq)]
pub enum PackageReferenceError {
    NotRepositoryRoot,
    NotHttpsGithub,
    InvalidRepositoryUrl,
    InvalidSkillSubpath,
}

impl PackageReferenceError {
    /// The text of the error.
    pub open spec fn message(self) -> Seq<char> {
        match self {
            PackageReferenceError::NotRepositoryRoot => "APM installation requires a GitHub repository root URL"@,
            PackageReferenceError::NotHttpsGithub => "APM installation currently supports HTTPS GitHub URLs only"@,
            PackageReferenceError::InvalidRepositoryUrl => "invalid GitHub repository URL"@,
            PackageReferenceError::InvalidSkillSubpath => "invalid Skill subpath"@,
        }
    }

    /// The text of the error.
    pub fn to_string(&self) -> (r: String)
        ensures
            r@ == self.message(),
    {
        match self {
            PackageReferenceError::NotRepositoryRoot => owned(
                "APM installation requires a GitHub repository root URL",
            ),
            PackageReferenceError::NotHttpsGithub => owned(
                "APM installation currently supports HTTPS GitHub URLs only",
            ),
            PackageReferenceError::InvalidRepositoryUrl => owned("invalid GitHub repository URL"),
            PackageReferenceError::InvalidSkillSubpath => owned("invalid Skill subpath"),
        }
    }
}

/// The APM package reference `owner/repo/subpath` for a Skill in a GitHub
/// repository given by its HTTPS root URL.
pub fn github_skill_package_reference(repo_url: &str, subpath: &str) -> (r: Result<
    String,
    PackageReferenceError,
>)
    ensures
        match r {
            Ok(s) => package_reference(repo_url@, subpath@) == Ok::<Seq<char>, PackageReferenceError>(s@),
            Err(e) => package_reference(repo_url@, subpath@) == Err::<Seq<char>, PackageReferenceError>(e),
        },
{
    let url_chars = chars_of(repo_url);
    let url_trimmed = trim(&url_chars);
    let url = trim_end_matches_char(&url_trimmed, '/');
    let sub_chars = chars_of(subpath);
    let sub_trimmed = trim(&sub_chars);
    let path = trim_matches_char(&sub_trimmed, '/');
    let tree = chars_of("/tree/");
    let blob = chars_of("/blob/");
    if contains(&url, &tree) || contains(&url, &blob) {
        return Err(PackageReferenceError::NotRepositoryRoot);
    }
    let prefix = chars_of("https://github.com/");
    if !has_prefix(&url, &prefix) {
        return Err(PackageReferenceError::NotHttpsGithub);
    }
    let after = slice_of(&url, prefix.len(), url.len());
    assert(after@ == url@.skip(prefix@.len() as int));
    let git = chars_of(".git");
    assert(git@ == ".git"@);
    proof {
        reveal_strlit(".git");
    }
    let repo = trim_end_matches_seq(&after, &git);
    let mut slash: Vec<char> = Vec::new();
    slash.push('/');
    assert(slash@ =~= seq!['/']);
    let segments = split_on(&repo, &slash);
    if segments.len() != 2 || segments[0].len() == 0 || segments[1].len() == 0 {
        assert(crate::text::seqs(segments@)[0] == segments@[0]@);
        return Err(PackageReferenceError::InvalidRepositoryUrl);
    }
    assert(crate::text::seqs(segments@)[0] == segments@[0]@);
    assert(crate::text::seqs(segments@)[1] == segments@[1]@);
    if path.len() == 0 || !crate::paths::has_only_normal_components(&path) {
        return Err(PackageReferenceError::InvalidSkillSubpath);
    }
    let owner_repo = trim_end_matches_char(&repo, '/');
    let with_slash = concat(&owner_repo, &slash);
    let reference = concat(&with_slash, &path);
    Ok(string_of(&reference))
}

impl PackageManager for ApmAdapter {
    fn id(&self) -> (r: &'static str)
        ensures
            r@ == "apm"@,
    {
        "apm"
    }

    fn availability(&self, probe: &CommandOutcome) -> (r: PackageManagerAvailability)
        ensures
            (r.available, opt_view(r.version), opt_view(r.message)) == availability_of(*probe),
    {
        match probe {
            CommandOutcome::Exited { success, status, stdout, stderr } => {
                if *success {
                    PackageManagerAvailability {
                        available: true,
                        version: non_empty_output(stdout.as_str()),
                        message: None,
                    }
                } else {
                    let message = match non_empty_output(stderr.as_str()) {
                        Some(m) => m,
                        None => {
                            let lead = chars_of("APM exited with status ");
                            let st = chars_of(status.as_str());
                            string_of(&concat(&lead, &st))
                        },
                    };
                    PackageManagerAvailability { available: false, version: None, message: Some(message) }
                }
            },
            CommandOutcome::NotStarted { error } => PackageManagerAvailability {
                available: false,
                version: None,
                message: Some(error.clone()),
            },
        }
    }

    fn install(&self, package: &str, context: &PackageManagerContext) -> (r: Result<
        PackageManagerCommand,
        PackageManagerError,
    >)
        ensures
            match r {
                Ok(cmd) => !is_blank(package@) && runs(cmd, self@, install_args(package@, *context), *context),
                Err(e) => is_blank(package@) && e == PackageManagerError::EmptyPackageReference,
            },
    {
        validate_package(package)?;
        let mut args: Vec<String> = Vec::new();
        push_string(&mut args, owned("install"));
        push_string(&mut args, owned(package));
        append_scope(&mut args, context);
        append_targets(&mut args, context);
        assert(views(args@) =~= install_args(package@, *context));
        Ok(self.command(args, context))
    }

    fn uninstall(&self, package: &str, context: &PackageManagerContext) -> (r: Result<
        PackageManagerCommand,
        PackageManagerError,
    >)
        ensures
            match r {
                Ok(cmd) => !is_blank(package@) && runs(cmd, self@, uninstall_args(package@, *context), *context),
                Err(e) => is_blank(package@) && e == PackageManagerError::EmptyPackageReference,
            },
    {
        validate_package(package)?;
        let mut args: Vec<String> = Vec::new();
        push_string(&mut args, owned("uninstall"));
        push_string(&mut args, owned(package));
        append_scope(&mut args, context);
        assert(views(args@) =~= uninstall_args(package@, *context));
        Ok(self.command(args, context))
    }

    fn update(
        &self,
        package: Option<&str>,
        accept_changes: bool,
        context: &PackageManagerContext,
    ) -> (r: Result<PackageManagerCommand, PackageManagerError>)
        ensures
            match r {
                Ok(cmd) => !(package matches Some(p) && is_blank(p@)) && runs(
                    cmd,
                    self@,
                    update_args(opt_str_view(package), accept_changes, *context),
                    *context,
                ),
                Err(e) => package matches Some(p) && is_blank(p@) && e
                    == PackageManagerError::EmptyPackageReference,
            },
    {
        if let Some(p) = package {
            validate_package(p)?;
        }
        let mut args: Vec<String> = Vec::new();
        push_string(&mut args, owned("update"));
        if let Some(p) = package {
            push_string(&mut args, owned(p));
        }
        if accept_changes {
            push_string(&mut args, owned("--yes"));
        }
        append_scope(&mut args, context);
        append_targets(&mut args, context);
        assert(views(args@) =~= update_args(opt_str_view(package), accept_changes, *context));
        Ok(self.command(args, context))
    }

    fn list(&self, context: &PackageManagerContext) -> (r: Result<
        PackageManagerCommand,
        PackageManagerError,
    >)
        ensures
            match r {
                Ok(cmd) => runs(cmd, self@, list_args(*context), *context),
                Err(_) => false,
            },
    {
        let mut args: Vec<String> = Vec::new();
        push_string(&mut args, owned("list"));
        append_scope(&mut args, context);
        assert(views(args@) =~= list_args(*context));
        Ok(self.command(args, context))
    }

    fn doctor(&self, context: &PackageManagerContext) -> (r: Result<
        PackageManagerCommand,
        PackageManagerError,
    >)
        ensures
            match r {
                Ok(cmd) => runs(cmd, self@, seq!["doctor"@], *context),
                Err(_) => false,
            },
    {
        let mut args: Vec<String> = Vec::new();
        push_string(&mut args, owned("doctor"));
        assert(views(args@) =~= seq!["doctor"@]);
        Ok(self.command(args, context))
    }
}

/// The context of removing a package from a project: the project
/// directory, project scope, no Agent targets.
pub open spec fn project_context(ctx: PackageManagerContext, project_root: Seq<char>) -> bool {
    ctx.working_dir@ == project_root && ctx.scope == PackageManagerScope::Project && ctx.targets@.len() == 0
}

/// The command that removes `package` from the project at `project_root`.
pub fn uninstall_project_command(adapter: &ApmAdapter, package: &str, project_root: &str) -> (r: Result<
    PackageManagerCommand,
    PackageManagerError,
>)
    ensures
        match r {
            Ok(cmd) => !is_blank(package@) && exists|ctx: PackageManagerContext|
                project_context(ctx, project_root@) && runs(cmd, adapter@, uninstall_args(package@, ctx), ctx),
            Err(e) => is_blank(package@) && e == PackageManagerError::EmptyPackageReference,
        },
{
    let context = PackageManagerContext {
        working_dir: owned(project_root),
        scope: PackageManagerScope::Project,
        targets: Vec::new(),
    };
    let r = adapter.uninstall(package, &context);
    assert(project_context(context, project_root@));
    r
}

/// An integer in decimal, with a leading `-` when negative.
pub open spec fn signed_decimal(i: int) -> Seq<char> {
    if i < 0 {
        "-"@ + crate::text::decimal((-i) as nat)
    } else {
        crate::text::decimal(i as nat)
    }
}

/// The error of a failed project uninstall: the trimmed standard output and
/// standard error that are not blank, one per line; or, when both are
/// blank, the exit code (-1 when the process reported none).
pub open spec fn uninstall_failure_text(stdout: Seq<char>, stderr: Seq<char>, code: Option<i32>) -> Seq<char> {
    let parts = (match non_blank(stdout) {
        Some(o) => seq![o],
        None => Seq::<Seq<char>>::empty(),
    }) + (match non_blank(stderr) {
        Some(e) => seq![e],
        None => Seq::<Seq<char>>::empty(),
    });
    if parts.len() == 0 {
        "Microsoft APM uninstall failed with exit code "@ + signed_decimal(
            match code {
                Some(c) => c as int,
                None => -1,
            },
        )
    } else {
        "Microsoft APM uninstall failed:\n"@ + join(parts, "\n"@)
    }
}

/// The error of a failed project uninstall.
pub fn uninstall_failure_message(stdout: &str, stderr: &str, code: Option<i32>) -> (r: String)
    ensures
        r@ == uninstall_failure_text(stdout@, stderr@, code),
{
    let mut parts: Vec<String> = Vec::new();
    match non_empty_output(stdout) {
        Some(o) => push_string(&mut parts, o),
        None => {},
    }
    match non_empty_output(stderr) {
        Some(e) => push_string(&mut parts, e),
        None => {},
    }
    let ghost expected = (match non_blank(stdout@) {
        Some(o) => seq![o],
        None => Seq::<Seq<char>>::empty(),
    }) + (match non_blank(stderr@) {
        Some(e) => seq![e],
        None => Seq::<Seq<char>>::empty(),
    });
    assert(views(parts@) =~= expected);
    if parts.len() == 0 {
        let c: i32 = match code {
            Some(c) => c,
            None => -1,
        };
        let digits = if c < 0 {
            let magnitude: i64 = -(c as i64);
            let mut minus: Vec<char> = Vec::new();
            minus.push('-');
            proof {
                reveal_strlit("-");
            }
            assert(minus@ =~= "-"@);
            concat(&minus, &crate::text::decimal_chars(magnitude as usize))
        } else {
            crate::text::decimal_chars(c as usize)
        };
        let lead = chars_of("Microsoft APM uninstall failed with exit code ");
        string_of(&concat(&lead, &digits))
    } else {
        let joined = join_strings(&parts, "\n");
        let lead = chars_of("Microsoft APM uninstall failed:\n");
        let body = chars_of(joined.as_str());
        string_of(&concat(&lead, &body))
    }
}

} // verus!
